//! What the codec says of the decoded audio, and how the server is told of it.
use vstd::prelude::*;

verus! {

/// Number of channels that a codec can tell apart.
pub const CODEC_CHANNELS: u32 = 26;

/// The codec's mask with every channel set.
pub const ALL_CHANNELS: u32 = 0x03ff_ffff;

/// Number of channel positions in a description of raw audio.
pub const MAX_CHANNELS: usize = 64;

/// Encoding of a decoded sample.
#[derive(Debug, Clone, Copy, PartialEq, Eq, Structural)]
pub enum SampleFormat {
    U8,
    U16,
    U24,
    U32,
    S8,
    S16,
    S24,
    S32,
    F32,
    F64,
}

/// Encoding of a sample as the server names it.
#[derive(Debug, Clone, Copy, PartialEq, Eq, Structural)]
pub enum AudioFormat {
    U8,
    U16,
    U24,
    U32,
    S8,
    S16,
    S24,
    S32,
    F32LE,
    F64LE,
}

/// Position of a loudspeaker, by the server's short names.
#[derive(Debug, Clone, Copy, PartialEq, Eq, Structural)]
pub enum Position {
    Unknown,
    FL,
    FR,
    FC,
    LFE,
    RL,
    RR,
    FLC,
    FRC,
    RC,
    SL,
    SR,
    TC,
    TFL,
    TFC,
    TFR,
    TRL,
    TRC,
    TRR,
    RLC,
    RRC,
    FLW,
    FRW,
    FLH,
    FCH,
    FRH,
    LFE2,
}

/// A set of channels as a codec gives it: a mask with one bit for each channel.
#[derive(Debug, Clone, Copy, PartialEq, Eq, Structural)]
pub struct Channels {
    mask: u32,
}

impl View for Channels {
    type V = u32;

    closed spec fn view(&self) -> u32 {
        self.mask
    }
}

impl Channels {
    #[verifier::type_invariant]
    spec fn well_formed(self) -> bool {
        self.mask <= ALL_CHANNELS
    }

    /// Makes the set that `bits` is the mask of, unless a bit in it stands for no channel.
    pub fn from_bits(bits: u32) -> (channels: Option<Channels>)
        ensures
            channels is Some <==> bits <= ALL_CHANNELS,
            channels is Some ==> channels->0@ == bits,
    {
        if bits <= ALL_CHANNELS {
            Some(Channels { mask: bits })
        } else {
            None
        }
    }

    /// The mask of the set.
    pub fn bits(&self) -> (bits: u32)
        ensures
            bits == self@,
            bits <= ALL_CHANNELS,
    {
        proof {
            use_type_invariant(self);
        }
        self.mask
    }
}

/// What a codec says of the audio it decodes. Anything of it may be missing.
#[derive(Debug, Clone, Copy, PartialEq, Eq, Structural)]
pub struct CodecParameters {
    pub sample_format: Option<SampleFormat>,
    pub sample_rate: Option<u32>,
    pub channels: Option<Channels>,
}

/// The mask that has bit `i` alone.
pub open spec fn channel_mask(i: int) -> u32 {
    1u32 << (i as u32)
}

/// The bits below bit `n` that are set in a mask of channels, lowest first.
pub open spec fn set_bits_below(mask: u32, n: nat) -> Seq<int> {
    Seq::new(n, |i: int| i).filter(|i: int| mask & channel_mask(i) != 0)
}

/// The bits that are set in a mask of channels, lowest first.
pub open spec fn set_bits(mask: u32) -> Seq<int> {
    set_bits_below(mask, CODEC_CHANNELS as nat)
}

/// Number of ones in the binary representation of `bits`.
pub open spec fn count_of_ones(bits: nat) -> nat
    decreases bits,
{
    if bits == 0 {
        0
    } else {
        bits % 2 + count_of_ones(bits / 2)
    }
}

/// Specifies `u32::count_ones`, which counts the ones in the binary representation of a number.
pub assume_specification[ u32::count_ones ](bits: u32) -> (count: u32)
    ensures
        count == count_of_ones(bits as nat),
;

/// Number of channels of the audio, where the codec knows its channels.
pub fn channel_count(params: &CodecParameters) -> (count: Option<u32>)
    ensures
        count is Some <==> params.channels is Some,
        count is Some ==> count->0 == count_of_ones(params.channels->0@ as nat),
{
    match params.channels {
        Some(channels) => Some(channels.bits().count_ones()),
        None => None,
    }
}

/// Calls `symphonia::core::audio::Channels::iter`, which hands out the channels of a set one by
/// one, lowest bit first, each as the mask that has its bit alone.
#[verifier::external_body]
fn channel_masks(bits: u32) -> (masks: Vec<u32>)
    requires
        bits <= ALL_CHANNELS,
    ensures
        masks@ == set_bits(bits).map_values(|i: int| channel_mask(i)),
{
    symphonia::core::audio::Channels::from_bits_truncate(bits).iter().map(|c| c.bits()).collect()
}

/// The loudspeaker that each bit of the codec's mask stands for, lowest bit first.
pub open spec fn positions_by_bit() -> Seq<Position> {
    seq![
        Position::FL,
        Position::FR,
        Position::FC,
        Position::LFE,
        Position::RL,
        Position::RR,
        Position::FLC,
        Position::FRC,
        Position::RC,
        Position::SL,
        Position::SR,
        Position::TC,
        Position::TFL,
        Position::TFC,
        Position::TFR,
        Position::TRL,
        Position::TRC,
        Position::TRR,
        Position::RLC,
        Position::RRC,
        Position::FLW,
        Position::FRW,
        Position::FLH,
        Position::FCH,
        Position::FRH,
        Position::LFE2,
    ]
}

/// The channel positions of audio with the given mask of channels: the loudspeakers of the
/// channels in it, lowest bit first, and `Unknown` in every place after them.
pub open spec fn positions_of(mask: u32) -> Seq<Position> {
    let bits = set_bits(mask);
    Seq::new(
        MAX_CHANNELS as nat,
        |k: int|
            if k < bits.len() {
                positions_by_bit()[bits[k]]
            } else {
                Position::Unknown
            },
    )
}

/// The server's name for the encoding of the samples. Where the codec does not know it, samples
/// are decoded to 32-bit floating point numbers.
pub open spec fn format_of(sample_format: Option<SampleFormat>) -> AudioFormat {
    match sample_format {
        Some(SampleFormat::U8) => AudioFormat::U8,
        Some(SampleFormat::U16) => AudioFormat::U16,
        Some(SampleFormat::U24) => AudioFormat::U24,
        Some(SampleFormat::U32) => AudioFormat::U32,
        Some(SampleFormat::S8) => AudioFormat::S8,
        Some(SampleFormat::S16) => AudioFormat::S16,
        Some(SampleFormat::S24) => AudioFormat::S24,
        Some(SampleFormat::S32) => AudioFormat::S32,
        Some(SampleFormat::F32) => AudioFormat::F32LE,
        Some(SampleFormat::F64) => AudioFormat::F64LE,
        None => AudioFormat::F32LE,
    }
}

proof fn lemma_channel_masks()
    ensures
        channel_mask(0) == 0x0000_0001,
        channel_mask(1) == 0x0000_0002,
        channel_mask(2) == 0x0000_0004,
        channel_mask(3) == 0x0000_0008,
        channel_mask(4) == 0x0000_0010,
        channel_mask(5) == 0x0000_0020,
        channel_mask(6) == 0x0000_0040,
        channel_mask(7) == 0x0000_0080,
        channel_mask(8) == 0x0000_0100,
        channel_mask(9) == 0x0000_0200,
        channel_mask(10) == 0x0000_0400,
        channel_mask(11) == 0x0000_0800,
        channel_mask(12) == 0x0000_1000,
        channel_mask(13) == 0x0000_2000,
        channel_mask(14) == 0x0000_4000,
        channel_mask(15) == 0x0000_8000,
        channel_mask(16) == 0x0001_0000,
        channel_mask(17) == 0x0002_0000,
        channel_mask(18) == 0x0004_0000,
        channel_mask(19) == 0x0008_0000,
        channel_mask(20) == 0x0010_0000,
        channel_mask(21) == 0x0020_0000,
        channel_mask(22) == 0x0040_0000,
        channel_mask(23) == 0x0080_0000,
        channel_mask(24) == 0x0100_0000,
        channel_mask(25) == 0x0200_0000,
{
    assert(1u32 << 0u32 == 0x0000_0001
        && 1u32 << 1u32 == 0x0000_0002
        && 1u32 << 2u32 == 0x0000_0004
        && 1u32 << 3u32 == 0x0000_0008
        && 1u32 << 4u32 == 0x0000_0010
        && 1u32 << 5u32 == 0x0000_0020
        && 1u32 << 6u32 == 0x0000_0040
        && 1u32 << 7u32 == 0x0000_0080
        && 1u32 << 8u32 == 0x0000_0100
        && 1u32 << 9u32 == 0x0000_0200
        && 1u32 << 10u32 == 0x0000_0400
        && 1u32 << 11u32 == 0x0000_0800
        && 1u32 << 12u32 == 0x0000_1000
        && 1u32 << 13u32 == 0x0000_2000
        && 1u32 << 14u32 == 0x0000_4000
        && 1u32 << 15u32 == 0x0000_8000
        && 1u32 << 16u32 == 0x0001_0000
        && 1u32 << 17u32 == 0x0002_0000
        && 1u32 << 18u32 == 0x0004_0000
        && 1u32 << 19u32 == 0x0008_0000
        && 1u32 << 20u32 == 0x0010_0000
        && 1u32 << 21u32 == 0x0020_0000
        && 1u32 << 22u32 == 0x0040_0000
        && 1u32 << 23u32 == 0x0080_0000
        && 1u32 << 24u32 == 0x0100_0000
        && 1u32 << 25u32 == 0x0200_0000) by (bit_vector);
}

/// The loudspeaker of the channel whose bit alone is set in `mask`.
pub fn channel_position(mask: u32) -> (position: Position)
    ensures
        forall|i: int|
            0 <= i < CODEC_CHANNELS && mask == #[trigger] channel_mask(i) ==> position
                == positions_by_bit()[i],
        (forall|i: int| 0 <= i < CODEC_CHANNELS ==> mask != #[trigger] channel_mask(i))
            ==> position == Position::Unknown,
{
    proof {
        lemma_channel_masks();
    }
    match mask {
        0x0000_0001 => Position::FL,
        0x0000_0002 => Position::FR,
        0x0000_0004 => Position::FC,
        0x0000_0008 => Position::LFE,
        0x0000_0010 => Position::RL,
        0x0000_0020 => Position::RR,
        0x0000_0040 => Position::FLC,
        0x0000_0080 => Position::FRC,
        0x0000_0100 => Position::RC,
        0x0000_0200 => Position::SL,
        0x0000_0400 => Position::SR,
        0x0000_0800 => Position::TC,
        0x0000_1000 => Position::TFL,
        0x0000_2000 => Position::TFC,
        0x0000_4000 => Position::TFR,
        0x0000_8000 => Position::TRL,
        0x0001_0000 => Position::TRC,
        0x0002_0000 => Position::TRR,
        0x0004_0000 => Position::RLC,
        0x0008_0000 => Position::RRC,
        0x0010_0000 => Position::FLW,
        0x0020_0000 => Position::FRW,
        0x0040_0000 => Position::FLH,
        0x0080_0000 => Position::FCH,
        0x0100_0000 => Position::FRH,
        0x0200_0000 => Position::LFE2,
        _ => Position::Unknown,
    }
}

/// A description of raw audio for the server.
#[derive(Debug, Clone, Copy, PartialEq, Eq)]
pub struct AudioInfoRaw {
    pub format: AudioFormat,
    pub rate: u32,
    pub channels: u32,
    pub position: [Position; 64],
}

/// Why the audio cannot be described.
#[derive(Debug, Clone, Copy, PartialEq, Eq, Structural)]
pub enum AudioInfoError {
    /// The codec does not know the sample rate.
    MissingSampleRate,
    /// The codec does not know the channels.
    MissingChannels,
}

/// Whether a description tells the server of the audio that a codec decodes.
pub open spec fn describes(info: AudioInfoRaw, params: CodecParameters) -> bool {
    &&& info.format == format_of(params.sample_format)
    &&& Some(info.rate) == params.sample_rate
    &&& params.channels is Some
    &&& info.channels == count_of_ones(params.channels->0@ as nat)
    &&& info.position@ == positions_of(params.channels->0@)
}

/// Describes to the server the audio that a codec decodes.
pub fn audio_info_from_codec_parameters(params: &CodecParameters) -> (info: Result<
    AudioInfoRaw,
    AudioInfoError,
>)
    ensures
        info is Ok <==> params.sample_rate is Some && params.channels is Some,
        info is Ok ==> describes(info->Ok_0, *params),
        params.sample_rate is None ==> info == Err::<AudioInfoRaw, AudioInfoError>(
            AudioInfoError::MissingSampleRate,
        ),
        params.sample_rate is Some && params.channels is None ==> info == Err::<
            AudioInfoRaw,
            AudioInfoError,
        >(AudioInfoError::MissingChannels),
{
    let format = match params.sample_format {
        Some(SampleFormat::U8) => AudioFormat::U8,
        Some(SampleFormat::U16) => AudioFormat::U16,
        Some(SampleFormat::U24) => AudioFormat::U24,
        Some(SampleFormat::U32) => AudioFormat::U32,
        Some(SampleFormat::S8) => AudioFormat::S8,
        Some(SampleFormat::S16) => AudioFormat::S16,
        Some(SampleFormat::S24) => AudioFormat::S24,
        Some(SampleFormat::S32) => AudioFormat::S32,
        Some(SampleFormat::F32) => AudioFormat::F32LE,
        Some(SampleFormat::F64) => AudioFormat::F64LE,
        None => AudioFormat::F32LE,
    };
    let rate: u32 = match params.sample_rate {
        Some(rate) => rate,
        None => return Err(AudioInfoError::MissingSampleRate),
    };
    let channels = match params.channels {
        Some(channels) => channels,
        None => return Err(AudioInfoError::MissingChannels),
    };
    let mask = channels.bits();
    let num_channels = mask.count_ones();
    let mut position = [Position::Unknown;64];
    let masks = channel_masks(mask);
    let ghost bits = set_bits(mask);
    proof {
        lemma_set_bits_ascend(mask, CODEC_CHANNELS as nat);
    }
    let mut k: usize = 0;
    while k < masks.len()
        invariant
            k <= masks.len() == bits.len() <= CODEC_CHANNELS,
            bits == set_bits(mask),
            forall|j: int| 0 <= j < bits.len() ==> 0 <= #[trigger] bits[j] < CODEC_CHANNELS,
            masks@ == bits.map_values(|i: int| channel_mask(i)),
            forall|j: int| 0 <= j < k ==> #[trigger] position@[j] == positions_by_bit()[bits[j]],
            forall|j: int| k <= j < MAX_CHANNELS ==> #[trigger] position@[j] == Position::Unknown,
        decreases masks.len() - k,
    {
        assert(masks@[k as int] == channel_mask(bits[k as int]));
        position[k] = channel_position(masks[k]);
        k += 1;
    }
    assert(position@ =~= positions_of(mask));
    Ok(AudioInfoRaw { format, rate, channels: num_channels, position })
}

proof fn lemma_set_bits_step(mask: u32, n: nat)
    requires
        n > 0,
    ensures
        set_bits_below(mask, n) == if mask & channel_mask(n - 1) != 0 {
            set_bits_below(mask, (n - 1) as nat).push(n - 1)
        } else {
            set_bits_below(mask, (n - 1) as nat)
        },
{
    reveal(Seq::filter);
    assert(Seq::new(n, |i: int| i).drop_last() =~= Seq::new((n - 1) as nat, |i: int| i));
}

proof fn lemma_set_bits_ascend(mask: u32, n: nat)
    ensures
        set_bits_below(mask, n).len() <= n,
        forall|k: int|
            0 <= k < set_bits_below(mask, n).len() ==> 0 <= #[trigger] set_bits_below(mask, n)[k]
                < n,
        forall|j: int, k: int|
            0 <= j < k < set_bits_below(mask, n).len() ==> #[trigger] set_bits_below(mask, n)[j]
                < #[trigger] set_bits_below(mask, n)[k],
    decreases n,
{
    if n > 0 {
        lemma_set_bits_step(mask, n);
        lemma_set_bits_ascend(mask, (n - 1) as nat);
    } else {
        reveal(Seq::filter);
    }
}

proof fn lemma_set_bits_count(mask: u32, n: nat)
    requires
        n <= CODEC_CHANNELS,
    ensures
        set_bits_below(mask, n).len() + count_of_ones((mask >> (n as u32)) as nat)
            == count_of_ones(mask as nat),
    decreases n,
{
    if n == 0 {
        reveal(Seq::filter);
        assert(mask >> 0u32 == mask) by (bit_vector);
    } else {
        lemma_set_bits_step(mask, n);
        lemma_set_bits_count(mask, (n - 1) as nat);
        let shift = (n - 1) as u32;
        let next = n as u32;
        assert(mask >> next == (mask >> shift) / 2 && ((mask >> shift) % 2 == 1 <==> mask & (1u32
            << shift) != 0)) by (bit_vector)
            requires
                shift < 26,
                next == shift + 1,
        ;
    }
}

/// The number of channels that the server is told of is the number of channel positions that it
/// is told of.
pub proof fn law_one_position_per_channel(mask: u32)
    requires
        mask <= ALL_CHANNELS,
    ensures
        set_bits(mask).len() == count_of_ones(mask as nat),
        forall|k: int|
            0 <= k < MAX_CHANNELS ==> (#[trigger] positions_of(mask)[k] != Position::Unknown <==> k
                < count_of_ones(mask as nat)),
{
    lemma_set_bits_count(mask, CODEC_CHANNELS as nat);
    lemma_set_bits_ascend(mask, CODEC_CHANNELS as nat);
    assert(mask >> 26u32 == 0) by (bit_vector)
        requires
            mask <= 0x03ff_ffff,
    ;
}

/// No two channels are given the same position.
pub proof fn law_positions_distinct(mask: u32, j: int, k: int)
    requires
        mask <= ALL_CHANNELS,
        0 <= j < k < count_of_ones(mask as nat),
    ensures
        positions_of(mask)[j] != positions_of(mask)[k],
{
    law_one_position_per_channel(mask);
    lemma_set_bits_ascend(mask, CODEC_CHANNELS as nat);
    let bits = set_bits(mask);
    assert(bits[j] < bits[k]);
}

proof fn lemma_bit_among_set_bits(mask: u32, i: nat, n: nat)
    requires
        i < n,
        mask & channel_mask(i as int) != 0,
    ensures
        set_bits_below(mask, i).len() < set_bits_below(mask, n).len(),
        set_bits_below(mask, n)[set_bits_below(mask, i).len() as int] == i,
    decreases n,
{
    lemma_set_bits_step(mask, n);
    if i < n - 1 {
        lemma_bit_among_set_bits(mask, i, (n - 1) as nat);
    }
}

/// The server is told of the channels from the lowest bit up: where bit `i` is set in the mask and
/// `k` of the bits below it are (all the bits that are set, less those from `i` on), position `k` is
/// the loudspeaker of bit `i`.
pub proof fn law_positions_follow_bits(mask: u32, i: u32, k: nat)
    requires
        mask <= ALL_CHANNELS,
        i < CODEC_CHANNELS,
        mask & (1u32 << i) != 0,
        k + count_of_ones((mask >> i) as nat) == count_of_ones(mask as nat),
    ensures
        k < count_of_ones(mask as nat),
        positions_of(mask)[k as int] == positions_by_bit()[i as int],
{
    lemma_set_bits_count(mask, i as nat);
    lemma_bit_among_set_bits(mask, i as nat, CODEC_CHANNELS as nat);
    lemma_set_bits_ascend(mask, CODEC_CHANNELS as nat);
    law_one_position_per_channel(mask);
}

/// The loudspeaker of a lower bit comes before that of a higher one.
pub proof fn law_positions_keep_the_order_of_bits(mask: u32, i: u32, j: u32, k: nat, l: nat)
    requires
        mask <= ALL_CHANNELS,
        i < j < CODEC_CHANNELS,
        mask & (1u32 << i) != 0,
        mask & (1u32 << j) != 0,
        k < count_of_ones(mask as nat),
        l < count_of_ones(mask as nat),
        positions_of(mask)[k as int] == positions_by_bit()[i as int],
        positions_of(mask)[l as int] == positions_by_bit()[j as int],
    ensures
        k < l,
{
    law_one_position_per_channel(mask);
    lemma_set_bits_ascend(mask, CODEC_CHANNELS as nat);
    lemma_bit_among_set_bits(mask, i as nat, CODEC_CHANNELS as nat);
    lemma_bit_among_set_bits(mask, j as nat, CODEC_CHANNELS as nat);
    let bits = set_bits(mask);
    assert(bits[k as int] == i as int);
    assert(bits[l as int] == j as int);
    if l < k {
        assert(bits[l as int] < bits[k as int]);
    }
}

/// Whatever the audio, its description gives the rate that the codec knows, the encoding by its own
/// name, as many channels as the codec has, and no loudspeaker beyond them.
pub proof fn law_description_says_what_the_codec_says(info: AudioInfoRaw, params: CodecParameters)
    requires
        describes(info, params),
        params.channels->0@ <= ALL_CHANNELS,
    ensures
        params.sample_rate == Some(info.rate),
        params.sample_format is None ==> info.format == AudioFormat::F32LE,
        params.sample_format == Some(SampleFormat::U8) ==> info.format == AudioFormat::U8,
        params.sample_format == Some(SampleFormat::U16) ==> info.format == AudioFormat::U16,
        params.sample_format == Some(SampleFormat::U24) ==> info.format == AudioFormat::U24,
        params.sample_format == Some(SampleFormat::U32) ==> info.format == AudioFormat::U32,
        params.sample_format == Some(SampleFormat::S8) ==> info.format == AudioFormat::S8,
        params.sample_format == Some(SampleFormat::S16) ==> info.format == AudioFormat::S16,
        params.sample_format == Some(SampleFormat::S24) ==> info.format == AudioFormat::S24,
        params.sample_format == Some(SampleFormat::S32) ==> info.format == AudioFormat::S32,
        params.sample_format == Some(SampleFormat::F32) ==> info.format == AudioFormat::F32LE,
        params.sample_format == Some(SampleFormat::F64) ==> info.format == AudioFormat::F64LE,
        params.channels is Some,
        info.channels == count_of_ones(params.channels->0@ as nat),
        forall|l: int|
            info.channels <= l < MAX_CHANNELS ==> #[trigger] info.position@[l] == Position::Unknown,
{
    let mask = params.channels->0@;
    law_one_position_per_channel(mask);
    assert forall|l: int| info.channels <= l < MAX_CHANNELS implies #[trigger] info.position@[l]
        == Position::Unknown by {
        assert(positions_of(mask)[l] == Position::Unknown);
    }
}

/// Whatever the audio, its description gives the loudspeaker of each channel from the lowest bit up:
/// where the codec has bit `i` and `k` bits below it, position `k` is the loudspeaker of bit `i`.
pub proof fn law_description_gives_loudspeakers_in_order(
    info: AudioInfoRaw,
    params: CodecParameters,
    i: u32,
    k: nat,
)
    requires
        describes(info, params),
        params.channels->0@ <= ALL_CHANNELS,
        i < CODEC_CHANNELS,
        params.channels->0@ & (1u32 << i) != 0,
        k + count_of_ones((params.channels->0@ >> i) as nat) == count_of_ones(
            params.channels->0@ as nat,
        ),
    ensures
        k < info.channels,
        info.position@[k as int] == positions_by_bit()[i as int],
{
    law_positions_follow_bits(params.channels->0@, i, k);
}

/// The description of audio depends on what the codec says of it, and on nothing else.
pub proof fn law_description_is_determined(
    info: AudioInfoRaw,
    other: AudioInfoRaw,
    params: CodecParameters,
)
    requires
        describes(info, params),
        describes(other, params),
    ensures
        info.format == other.format,
        info.rate == other.rate,
        info.channels == other.channels,
        info.position@ == other.position@,
{
}

/// Each channel has a bit of its own, and is in a mask if and only if that bit is set in it.
pub proof fn law_each_channel_has_its_bit(mask: u32, i: u32)
    requires
        i < CODEC_CHANNELS,
    ensures
        channel_mask(i as int) == 1u32 << i,
        set_bits(mask).contains(i as int) <==> mask & (1u32 << i) != 0,
{
    lemma_set_bits_ascend(mask, CODEC_CHANNELS as nat);
    if mask & (1u32 << i) != 0 {
        lemma_bit_among_set_bits(mask, i as nat, CODEC_CHANNELS as nat);
    }
}

} // verus!
