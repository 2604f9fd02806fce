//! The course of a run: what to do next, given what has been done so far.
use crate::audio::{
    audio_info_from_codec_parameters, channel_count, count_of_ones, describes, AudioInfoError,
    AudioInfoRaw, CodecParameters,
};
use crate::cli_args::Args;
use crate::graph::{
    default_metadata_object, default_metadata_objects, find_source_node, first,
    law_default_metadata_is_first_with_name, law_no_default_metadata_without_name,
    law_no_source_without_name, law_source_is_first_node_with_name, nodes_named, ObjectType,
    ObjectView, PwObject,
};
use crate::linking::Link;
use crate::metadata::{select_audio_source_name, selected_source, DefaultMetadata};
use crate::plan::{
    enumerates, fed_by, is_wanted, law_nodes_to_connect_to_are_fed, law_planned_iff_wanted,
    nodes_to_connect_to, plan_links_to_nodes, planned_links,
};
use crate::properties::{decimal, law_number_read_back, number_in, u32_to_string};
use vstd::prelude::*;

verus! {

/// The properties that a stream is made with.
#[derive(Debug)]
pub struct StreamProperties {
    pub media_type: String,
    pub media_category: String,
    pub media_role: String,
    pub audio_channels: String,
}

/// Whether the properties are those of a stream that plays music on some number of channels.
pub open spec fn plays_music(props: StreamProperties, num_channels: u32) -> bool {
    &&& props.media_type@ == "Audio"@
    &&& props.media_category@ == "Playback"@
    &&& props.media_role@ == "Music"@
    &&& props.audio_channels@ == decimal(num_channels as nat)
}

/// The properties that the stream is made with.
pub fn stream_properties(num_channels: u32) -> (props: StreamProperties)
    ensures
        plays_music(props, num_channels),
{
    StreamProperties {
        media_type: "Audio".to_owned(),
        media_category: "Playback".to_owned(),
        media_role: "Music".to_owned(),
        audio_channels: u32_to_string(num_channels),
    }
}

/// Why a run fails.
#[derive(Debug)]
pub enum RunError {
    /// The codec does not know the channels.
    MissingChannelData,
    /// The audio cannot be described to the server.
    AudioInfo(AudioInfoError),
    /// The server has no default metadata.
    NoDefaultMetadata,
    /// The default metadata names no source.
    NoDefaultSource,
    /// The server has no node with the name of the source.
    SourceNotFound(String),
}

/// What a user is told of an error.
pub open spec fn message_of(error: RunError) -> Seq<char> {
    match error {
        RunError::MissingChannelData => "Missing audio channel data in codec parameters"@,
        RunError::AudioInfo(AudioInfoError::MissingSampleRate) =>
            "Audio sample rate not found in codec parameters"@,
        RunError::AudioInfo(AudioInfoError::MissingChannels) =>
            "Audio channel data not found in codec parameters"@,
        RunError::NoDefaultMetadata => "Could not get default metadata on pipewire server"@,
        RunError::NoDefaultSource =>
            "Pipewire metadata object does not contain any default audio source"@,
        RunError::SourceNotFound(name) => "Could not find audio source node with name `"@ + name@
            + "`"@,
    }
}

impl RunError {
    /// What a user is told of the error.
    pub fn message(&self) -> (message: String)
        ensures
            message@ == message_of(*self),
    {
        match self {
            RunError::MissingChannelData => {
                "Missing audio channel data in codec parameters".to_owned()
            },
            RunError::AudioInfo(AudioInfoError::MissingSampleRate) => {
                "Audio sample rate not found in codec parameters".to_owned()
            },
            RunError::AudioInfo(AudioInfoError::MissingChannels) => {
                "Audio channel data not found in codec parameters".to_owned()
            },
            RunError::NoDefaultMetadata => {
                "Could not get default metadata on pipewire server".to_owned()
            },
            RunError::NoDefaultSource => {
                "Pipewire metadata object does not contain any default audio source".to_owned()
            },
            RunError::SourceNotFound(name) => {
                let mut message: String = "Could not find audio source node with name `".to_owned();
                message.append(name.as_str());
                message.append("`");
                message
            },
        }
    }
}

/// How far a run has got, and what it still needs to know of what came before.
#[derive(Debug)]
pub enum Stage {
    /// The audio file is being opened.
    Decoding,
    /// The connection to the server is being made.
    Connecting { params: CodecParameters },
    /// The stream is being made.
    CreatingStream { params: CodecParameters, num_channels: u32 },
    /// The stream is being connected.
    ConnectingStream { num_channels: u32 },
    /// The objects on the server are being collected.
    CollectingObjects { num_channels: u32 },
    /// The default metadata is being read.
    ReadingMetadata { num_channels: u32, objects: Vec<PwObject> },
    /// The server is being asked for the number of the stream's node.
    AskingStreamNode { num_channels: u32, objects: Vec<PwObject>, node_ids: Vec<u32> },
    /// The links are being made.
    CreatingLinks { num_channels: u32 },
    /// The audio is being played.
    Playing,
    /// The run is over.
    Finished,
    /// The run has failed.
    Failed,
}

/// A run of the program.
#[derive(Debug)]
pub struct Session {
    /// The name of the source to use, if the user gave one.
    pub audio_source_name: Option<String>,
    pub stage: Stage,
}

/// Something that has been done.
#[derive(Debug)]
pub enum Event {
    FileDecoded(CodecParameters),
    Connected,
    StreamCreated,
    StreamConnected,
    ObjectsCollected(Vec<PwObject>),
    MetadataRead(DefaultMetadata),
    StreamNode(u32),
    LinksCreated,
    PlaybackEnded,
}

/// Something to do.
#[derive(Debug)]
pub enum Action {
    /// Open the audio file at a path and find out how it is encoded.
    DecodeFile(String),
    /// Connect to the server.
    Connect,
    /// Make the stream.
    CreateStream(StreamProperties),
    /// Connect the stream as one that carries the described audio.
    ConnectStream(AudioInfoRaw),
    /// Collect the objects on the server, once the stream is running.
    CollectObjects,
    /// Read the metadata object with the given number.
    ReadMetadata(u32),
    /// Ask for the number of the stream's node.
    AskStreamNode,
    /// Make links, one after another.
    CreateLinks(Vec<Link>),
    /// Play the audio.
    Play { num_channels: u32 },
    /// Give up.
    Fail(RunError),
    /// There is nothing left to do.
    Finish,
}

/// What follows once the name of the source is known: the nodes that it is linked to are found,
/// or the run fails for want of such a node.
pub open spec fn uses_source(
    name: Seq<char>,
    num_channels: u32,
    objects: Vec<PwObject>,
    stage: Stage,
    action: Action,
) -> bool {
    match first(objects.deep_view(), nodes_named(name)) {
        None => {
            &&& stage == Stage::Failed
            &&& action matches Action::Fail(RunError::SourceNotFound(missing)) && missing@ == name
        },
        Some(source) => {
            &&& stage matches Stage::AskingStreamNode {
                num_channels: n,
                objects: kept,
                node_ids,
            } && n == num_channels && kept == objects && enumerates(
                node_ids@,
                fed_by(objects.deep_view(), source.id),
            )
            &&& action == Action::AskStreamNode
        },
    }
}

/// What follows once the name of the source is known.
fn use_source(name: &String, num_channels: u32, objects: Vec<PwObject>) -> (next: (Stage, Action))
    ensures
        uses_source(name@, num_channels, objects, next.0, next.1),
{
    match find_source_node(objects.as_slice(), name.as_str()) {
        None => (Stage::Failed, Action::Fail(RunError::SourceNotFound(name.clone()))),
        Some(source) => {
            let node_ids = nodes_to_connect_to(objects.as_slice(), source);
            (Stage::AskingStreamNode { num_channels, objects, node_ids }, Action::AskStreamNode)
        },
    }
}

/// What a run does when something has been done: the stage it goes to, and the action it takes.
/// Something that the stage does not wait for changes nothing and asks for nothing.
pub open spec fn steps_to(
    audio_source_name: Option<Seq<char>>,
    before: Stage,
    event: Event,
    after: Stage,
    action: Option<Action>,
) -> bool {
    match (before, event) {
        (Stage::Decoding, Event::FileDecoded(params)) => {
            &&& after == Stage::Connecting { params }
            &&& action == Some(Action::Connect)
        },
        (Stage::Connecting { params }, Event::Connected) => match params.channels {
            None => {
                &&& after == Stage::Failed
                &&& action == Some(Action::Fail(RunError::MissingChannelData))
            },
            Some(channels) => {
                &&& after matches Stage::CreatingStream { params: kept, num_channels } && kept
                    == params && num_channels == count_of_ones(channels@ as nat) && (
                action matches Some(Action::CreateStream(props)) && plays_music(props, num_channels))
            },
        },
        (Stage::CreatingStream { params, num_channels }, Event::StreamCreated) => {
            if params.sample_rate is None {
                &&& after == Stage::Failed
                &&& action == Some(
                    Action::Fail(RunError::AudioInfo(AudioInfoError::MissingSampleRate)),
                )
            } else if params.channels is None {
                &&& after == Stage::Failed
                &&& action == Some(
                    Action::Fail(RunError::AudioInfo(AudioInfoError::MissingChannels)),
                )
            } else {
                &&& after == Stage::ConnectingStream { num_channels }
                &&& action matches Some(Action::ConnectStream(info)) && describes(info, params)
            }
        },
        (Stage::ConnectingStream { num_channels }, Event::StreamConnected) => {
            &&& after == Stage::CollectingObjects { num_channels }
            &&& action == Some(Action::CollectObjects)
        },
        (Stage::CollectingObjects { num_channels }, Event::ObjectsCollected(objects)) => {
            match audio_source_name {
                Some(name) => action is Some && uses_source(
                    name,
                    num_channels,
                    objects,
                    after,
                    action->0,
                ),
                None => match first(objects.deep_view(), default_metadata_objects()) {
                    None => {
                        &&& after == Stage::Failed
                        &&& action == Some(Action::Fail(RunError::NoDefaultMetadata))
                    },
                    Some(metadata) => {
                        &&& after == Stage::ReadingMetadata { num_channels, objects }
                        &&& action == Some(Action::ReadMetadata(metadata.id))
                    },
                },
            }
        },
        (Stage::ReadingMetadata { num_channels, objects }, Event::MetadataRead(metadata)) => {
            match selected_source(metadata@) {
                None => {
                    &&& after == Stage::Failed
                    &&& action == Some(Action::Fail(RunError::NoDefaultSource))
                },
                Some(name) => action is Some && uses_source(
                    name,
                    num_channels,
                    objects,
                    after,
                    action->0,
                ),
            }
        },
        (
            Stage::AskingStreamNode { num_channels, objects, node_ids },
            Event::StreamNode(stream_node_id),
        ) => {
            &&& after == Stage::CreatingLinks { num_channels }
            &&& action matches Some(Action::CreateLinks(links)) && links@ == planned_links(
                objects.deep_view(),
                node_ids@,
                stream_node_id,
            )
        },
        (Stage::CreatingLinks { num_channels }, Event::LinksCreated) => {
            &&& after == Stage::Playing
            &&& action == Some(Action::Play { num_channels })
        },
        (Stage::Playing, Event::PlaybackEnded) => {
            &&& after == Stage::Finished
            &&& action == Some(Action::Finish)
        },
        _ => after == before && action is None,
    }
}

impl Session {
    /// Begins a run. The first thing to do is to open the audio file.
    pub fn start(args: Args) -> (begun: (Session, Action))
        ensures
            begun.0.audio_source_name == args.audio_source_name,
            begun.0.stage == Stage::Decoding,
            begun.1 == Action::DecodeFile(args.file_path),
    {
        (
            Session { audio_source_name: args.audio_source_name, stage: Stage::Decoding },
            Action::DecodeFile(args.file_path),
        )
    }

    /// Goes on with a run after something has been done, and says what to do next. Something that
    /// the run does not wait for changes nothing and asks for nothing.
    pub fn step(self, event: Event) -> (next: (Session, Option<Action>))
        ensures
            next.0.audio_source_name == self.audio_source_name,
            steps_to(
                self.audio_source_name.deep_view(),
                self.stage,
                event,
                next.0.stage,
                next.1,
            ),
    {
        let Session { audio_source_name, stage } = self;
        let (stage, action) = match (stage, event) {
            (Stage::Decoding, Event::FileDecoded(params)) => {
                (Stage::Connecting { params }, Some(Action::Connect))
            },
            (Stage::Connecting { params }, Event::Connected) => match channel_count(&params) {
                None => (Stage::Failed, Some(Action::Fail(RunError::MissingChannelData))),
                Some(num_channels) => (
                    Stage::CreatingStream { params, num_channels },
                    Some(Action::CreateStream(stream_properties(num_channels))),
                ),
            },
            (Stage::CreatingStream { params, num_channels }, Event::StreamCreated) => {
                match audio_info_from_codec_parameters(&params) {
                    Err(error) => (Stage::Failed, Some(Action::Fail(RunError::AudioInfo(error)))),
                    Ok(info) => (
                        Stage::ConnectingStream { num_channels },
                        Some(Action::ConnectStream(info)),
                    ),
                }
            },
            (Stage::ConnectingStream { num_channels }, Event::StreamConnected) => {
                (Stage::CollectingObjects { num_channels }, Some(Action::CollectObjects))
            },
            (Stage::CollectingObjects { num_channels }, Event::ObjectsCollected(objects)) => {
                match &audio_source_name {
                    Some(name) => {
                        let (stage, action) = use_source(name, num_channels, objects);
                        (stage, Some(action))
                    },
                    None => match default_metadata_object(objects.as_slice()) {
                        None => (Stage::Failed, Some(Action::Fail(RunError::NoDefaultMetadata))),
                        Some(metadata) => {
                            let id = metadata.id;
                            (
                                Stage::ReadingMetadata { num_channels, objects },
                                Some(Action::ReadMetadata(id)),
                            )
                        },
                    },
                }
            },
            (Stage::ReadingMetadata { num_channels, objects }, Event::MetadataRead(metadata)) => {
                match select_audio_source_name(&metadata) {
                    None => (Stage::Failed, Some(Action::Fail(RunError::NoDefaultSource))),
                    Some(name) => {
                        let (stage, action) = use_source(name, num_channels, objects);
                        (stage, Some(action))
                    },
                }
            },
            (
                Stage::AskingStreamNode { num_channels, objects, node_ids },
                Event::StreamNode(stream_node_id),
            ) => {
                let links = plan_links_to_nodes(
                    objects.as_slice(),
                    node_ids.as_slice(),
                    stream_node_id,
                );
                (Stage::CreatingLinks { num_channels }, Some(Action::CreateLinks(links)))
            },
            (Stage::CreatingLinks { num_channels }, Event::LinksCreated) => {
                (Stage::Playing, Some(Action::Play { num_channels }))
            },
            (Stage::Playing, Event::PlaybackEnded) => (Stage::Finished, Some(Action::Finish)),
            (stage, _) => (stage, None),
        };
        (Session { audio_source_name, stage }, action)
    }
}

/// How many stages a run has behind it at most.
pub open spec fn rank(stage: Stage) -> nat {
    match stage {
        Stage::Decoding => 0,
        Stage::Connecting { .. } => 1,
        Stage::CreatingStream { .. } => 2,
        Stage::ConnectingStream { .. } => 3,
        Stage::CollectingObjects { .. } => 4,
        Stage::ReadingMetadata { .. } => 5,
        Stage::AskingStreamNode { .. } => 6,
        Stage::CreatingLinks { .. } => 7,
        Stage::Playing => 8,
        Stage::Finished => 9,
        Stage::Failed => 10,
    }
}

/// A run never goes back: whenever it asks for something it has moved on to a later stage, and
/// whenever it asks for nothing it has stayed where it was.
pub proof fn law_run_moves_on(
    audio_source_name: Option<Seq<char>>,
    before: Stage,
    event: Event,
    after: Stage,
    action: Option<Action>,
)
    requires
        steps_to(audio_source_name, before, event, after, action),
    ensures
        action is Some ==> rank(before) < rank(after),
        action is None ==> after == before,
{
}

/// A run that is over or has failed asks for nothing any more.
pub proof fn law_end_is_final(
    audio_source_name: Option<Seq<char>>,
    before: Stage,
    event: Event,
    after: Stage,
    action: Option<Action>,
)
    requires
        before is Finished || before is Failed,
        steps_to(audio_source_name, before, event, after, action),
    ensures
        after == before,
        action is None,
{
}

/// Where the user names the source, the default metadata is not read.
pub proof fn law_named_source_needs_no_metadata(
    name: Seq<char>,
    before: Stage,
    event: Event,
    after: Stage,
    action: Option<Action>,
)
    requires
        steps_to(Some(name), before, event, after, action),
    ensures
        !(action matches Some(Action::ReadMetadata(_))),
        after is ReadingMetadata ==> before is ReadingMetadata,
{
}

/// Whether stages follow one another in a run from its beginning, with what was done and what was
/// asked for at each step.
pub open spec fn is_run(
    audio_source_name: Option<Seq<char>>,
    stages: Seq<Stage>,
    events: Seq<Event>,
    actions: Seq<Option<Action>>,
) -> bool {
    &&& stages.len() == events.len() + 1
    &&& actions.len() == events.len()
    &&& stages[0] == Stage::Decoding
    &&& forall|i: int|
        #![trigger events[i]]
        0 <= i < events.len() ==> steps_to(
            audio_source_name,
            stages[i],
            events[i],
            stages[i + 1],
            actions[i],
        )
}

proof fn lemma_stream_created(
    audio_source_name: Option<Seq<char>>,
    stages: Seq<Stage>,
    events: Seq<Event>,
    actions: Seq<Option<Action>>,
    k: int,
) -> (j: int)
    requires
        is_run(audio_source_name, stages, events, actions),
        0 <= k < stages.len(),
        stages[k] is CreatingStream,
    ensures
        0 <= j < k,
        actions[j] matches Some(Action::CreateStream(_)),
    decreases k,
{
    let event = events[k - 1];
    if stages[k - 1] is CreatingStream {
        lemma_stream_created(audio_source_name, stages, events, actions, k - 1)
    } else {
        k - 1
    }
}

proof fn lemma_stream_connected(
    audio_source_name: Option<Seq<char>>,
    stages: Seq<Stage>,
    events: Seq<Event>,
    actions: Seq<Option<Action>>,
    k: int,
) -> (j: int)
    requires
        is_run(audio_source_name, stages, events, actions),
        0 <= k < stages.len(),
        stages[k] is ConnectingStream,
    ensures
        0 <= j < k,
        stages[j] is CreatingStream,
        actions[j] matches Some(Action::ConnectStream(_)),
    decreases k,
{
    let event = events[k - 1];
    if stages[k - 1] is ConnectingStream {
        lemma_stream_connected(audio_source_name, stages, events, actions, k - 1)
    } else {
        k - 1
    }
}

/// The stream is made, and then connected, before the objects on the server are collected. Else
/// its ports would not be among them.
pub proof fn law_stream_comes_before_objects(
    audio_source_name: Option<Seq<char>>,
    stages: Seq<Stage>,
    events: Seq<Event>,
    actions: Seq<Option<Action>>,
    k: int,
)
    requires
        is_run(audio_source_name, stages, events, actions),
        0 <= k < actions.len(),
        actions[k] == Some(Action::CollectObjects),
    ensures
        exists|i: int, j: int|
            0 <= i < j < k && (#[trigger] actions[i] matches Some(Action::CreateStream(_))) && (
            #[trigger] actions[j] matches Some(Action::ConnectStream(_))),
{
    let event = events[k];
    assert(stages[k] is ConnectingStream);
    let j = lemma_stream_connected(audio_source_name, stages, events, actions, k);
    let i = lemma_stream_created(audio_source_name, stages, events, actions, j);
    assert(actions[i] matches Some(Action::CreateStream(_)));
    assert(actions[j] matches Some(Action::ConnectStream(_)));
}

/// Once the source is known, the links that are made are those from ports of the stream to input
/// ports with a matching channel of the nodes that the source is linked to, and no others.
pub proof fn law_stream_goes_where_source_goes(
    audio_source_name: Option<Seq<char>>,
    name: Seq<char>,
    num_channels: u32,
    objects: Vec<PwObject>,
    found: Stage,
    stream_node_id: u32,
    after: Stage,
    links: Vec<Link>,
    link: Link,
)
    requires
        uses_source(name, num_channels, objects, found, Action::AskStreamNode),
        steps_to(
            audio_source_name,
            found,
            Event::StreamNode(stream_node_id),
            after,
            Some(Action::CreateLinks(links)),
        ),
    ensures
        first(objects.deep_view(), nodes_named(name)) is Some,
        links@.contains(link) <==> is_wanted(
            objects.deep_view(),
            fed_by(
                objects.deep_view(),
                first(objects.deep_view(), nodes_named(name))->0.id,
            ),
            stream_node_id,
            link,
        ),
{
    if let Stage::AskingStreamNode { node_ids, .. } = found {
        law_planned_iff_wanted(objects.deep_view(), node_ids@, stream_node_id, link);
    }
}

/// Whether `name` is the name of the source that a run uses at step `k`: the one that the user
/// gave, or else the one that the default metadata named when it was read.
pub open spec fn is_source_name(
    audio_source_name: Option<Seq<char>>,
    stages: Seq<Stage>,
    events: Seq<Event>,
    k: int,
    name: Seq<char>,
) -> bool {
    match audio_source_name {
        Some(given) => name == given,
        None => exists|m: int|
            #![trigger events[m]]
            0 <= m < k && stages[m] is ReadingMetadata && (events[m] matches Event::MetadataRead(
                metadata,
            ) && selected_source(metadata@) == Some(name)),
    }
}

/// Whether `objects` are those that a run collected before step `k`.
pub open spec fn are_collected(
    stages: Seq<Stage>,
    events: Seq<Event>,
    k: int,
    objects: Vec<PwObject>,
) -> bool {
    exists|i: int|
        #![trigger events[i]]
        0 <= i < k && stages[i] is CollectingObjects && events[i] == Event::ObjectsCollected(
            objects,
        )
}

/// Whether `links` are those from the stream to where the source of the given name goes: from ports
/// of the stream to input ports with a matching channel of the nodes that the source is linked to,
/// and no others.
pub open spec fn go_where_source_goes(
    links: Seq<Link>,
    objects: Seq<ObjectView>,
    name: Seq<char>,
    stream_node_id: u32,
) -> bool {
    let source = first(objects, nodes_named(name));
    &&& source is Some
    &&& forall|link: Link| #[trigger]
        links.contains(link) <==> is_wanted(
            objects,
            fed_by(objects, source->0.id),
            stream_node_id,
            link,
        )
}

proof fn lemma_objects_collected(
    audio_source_name: Option<Seq<char>>,
    stages: Seq<Stage>,
    events: Seq<Event>,
    actions: Seq<Option<Action>>,
    k: int,
)
    requires
        is_run(audio_source_name, stages, events, actions),
        0 <= k < stages.len(),
        stages[k] is ReadingMetadata,
    ensures
        audio_source_name is None,
        are_collected(stages, events, k, stages[k]->ReadingMetadata_objects),
    decreases k,
{
    let event = events[k - 1];
    if stages[k - 1] is ReadingMetadata {
        lemma_objects_collected(audio_source_name, stages, events, actions, k - 1);
        let objects = stages[k]->ReadingMetadata_objects;
        let i = choose|i: int|
            #![trigger events[i]]
            0 <= i < k - 1 && stages[i] is CollectingObjects && events[i]
                == Event::ObjectsCollected(objects);
        assert(events[i] == Event::ObjectsCollected(objects));
    }
}

proof fn lemma_source_known(
    audio_source_name: Option<Seq<char>>,
    stages: Seq<Stage>,
    events: Seq<Event>,
    actions: Seq<Option<Action>>,
    k: int,
) -> (name: Seq<char>)
    requires
        is_run(audio_source_name, stages, events, actions),
        0 <= k < stages.len(),
        stages[k] is AskingStreamNode,
    ensures
        is_source_name(audio_source_name, stages, events, k, name),
        are_collected(stages, events, k, stages[k]->AskingStreamNode_objects),
        uses_source(
            name,
            stages[k]->AskingStreamNode_num_channels,
            stages[k]->AskingStreamNode_objects,
            stages[k],
            Action::AskStreamNode,
        ),
    decreases k,
{
    let event = events[k - 1];
    let objects = stages[k]->AskingStreamNode_objects;
    if stages[k - 1] is AskingStreamNode {
        let name = lemma_source_known(audio_source_name, stages, events, actions, k - 1);
        let i = choose|i: int|
            #![trigger events[i]]
            0 <= i < k - 1 && stages[i] is CollectingObjects && events[i]
                == Event::ObjectsCollected(objects);
        assert(events[i] == Event::ObjectsCollected(objects));
        name
    } else if stages[k - 1] is ReadingMetadata {
        lemma_objects_collected(audio_source_name, stages, events, actions, k - 1);
        let i = choose|i: int|
            #![trigger events[i]]
            0 <= i < k - 1 && stages[i] is CollectingObjects && events[i]
                == Event::ObjectsCollected(objects);
        assert(events[i] == Event::ObjectsCollected(objects));
        selected_source(event->MetadataRead_0@)->0
    } else {
        audio_source_name->0
    }
}

/// Whatever happens in a run, the links that it makes go from the stream to where the source goes.
/// The source is the one that the user named, or else the one that the default metadata names, and
/// where it goes is read off the objects that were collected.
pub proof fn law_run_links_stream_to_where_source_goes(
    audio_source_name: Option<Seq<char>>,
    stages: Seq<Stage>,
    events: Seq<Event>,
    actions: Seq<Option<Action>>,
    k: int,
    links: Vec<Link>,
)
    requires
        is_run(audio_source_name, stages, events, actions),
        0 <= k < actions.len(),
        actions[k] == Some(Action::CreateLinks(links)),
    ensures
        events[k] is StreamNode,
        exists|name: Seq<char>, objects: Vec<PwObject>| #[trigger]
            is_source_name(audio_source_name, stages, events, k, name) && #[trigger] are_collected(
                stages,
                events,
                k,
                objects,
            ) && go_where_source_goes(
                links@,
                objects.deep_view(),
                name,
                events[k]->StreamNode_0,
            ),
{
    let event = events[k];
    assert(stages[k] is AskingStreamNode);
    let name = lemma_source_known(audio_source_name, stages, events, actions, k);
    let objects = stages[k]->AskingStreamNode_objects;
    let stream_node_id = event->StreamNode_0;
    assert forall|link: Link| #[trigger] links@.contains(link) <==> is_wanted(
        objects.deep_view(),
        fed_by(objects.deep_view(), first(objects.deep_view(), nodes_named(name))->0.id),
        stream_node_id,
        link,
    ) by {
        law_stream_goes_where_source_goes(
            audio_source_name,
            name,
            stages[k]->AskingStreamNode_num_channels,
            objects,
            stages[k],
            stream_node_id,
            stages[k + 1],
            links,
            link,
        );
    }
    assert(go_where_source_goes(links@, objects.deep_view(), name, stream_node_id));
}

/// The number of channels that a stage keeps in mind.
pub open spec fn channels_of_stage(stage: Stage) -> Option<u32> {
    match stage {
        Stage::CreatingStream { num_channels, .. } => Some(num_channels),
        Stage::ConnectingStream { num_channels } => Some(num_channels),
        Stage::CollectingObjects { num_channels } => Some(num_channels),
        Stage::ReadingMetadata { num_channels, .. } => Some(num_channels),
        Stage::AskingStreamNode { num_channels, .. } => Some(num_channels),
        Stage::CreatingLinks { num_channels } => Some(num_channels),
        _ => None,
    }
}

/// Whether a run opened an audio file before step `k` whose codec knows its channels, and they are
/// `num_channels` many.
pub open spec fn is_channel_count_of_file(
    stages: Seq<Stage>,
    events: Seq<Event>,
    k: int,
    num_channels: u32,
) -> bool {
    exists|i: int|
        #![trigger events[i]]
        0 <= i < k && stages[i] is Decoding && (events[i] matches Event::FileDecoded(params)
            && params.channels is Some && num_channels == count_of_ones(
            params.channels->0@ as nat,
        ))
}

proof fn lemma_file_opened(
    audio_source_name: Option<Seq<char>>,
    stages: Seq<Stage>,
    events: Seq<Event>,
    actions: Seq<Option<Action>>,
    k: int,
) -> (i: int)
    requires
        is_run(audio_source_name, stages, events, actions),
        0 <= k < stages.len(),
        stages[k] is Connecting,
    ensures
        0 <= i < k,
        stages[i] is Decoding,
        events[i] == Event::FileDecoded(stages[k]->Connecting_params),
    decreases k,
{
    let event = events[k - 1];
    if stages[k - 1] is Connecting {
        lemma_file_opened(audio_source_name, stages, events, actions, k - 1)
    } else {
        k - 1
    }
}

proof fn lemma_channels_kept(
    audio_source_name: Option<Seq<char>>,
    stages: Seq<Stage>,
    events: Seq<Event>,
    actions: Seq<Option<Action>>,
    k: int,
)
    requires
        is_run(audio_source_name, stages, events, actions),
        0 <= k < stages.len(),
        channels_of_stage(stages[k]) is Some,
    ensures
        is_channel_count_of_file(stages, events, k, channels_of_stage(stages[k])->0),
    decreases k,
{
    let event = events[k - 1];
    let num_channels = channels_of_stage(stages[k])->0;
    if stages[k - 1] is Connecting {
        let i = lemma_file_opened(audio_source_name, stages, events, actions, k - 1);
        assert(events[i] is FileDecoded);
    } else {
        lemma_channels_kept(audio_source_name, stages, events, actions, k - 1);
        let i = choose|i: int|
            #![trigger events[i]]
            0 <= i < k - 1 && stages[i] is Decoding && (events[i] matches Event::FileDecoded(params)
                && params.channels is Some && num_channels == count_of_ones(
                params.channels->0@ as nat,
            ));
        assert(events[i] is FileDecoded);
    }
}

/// The audio is played with as many channels as the audio file has.
pub proof fn law_channels_of_file_are_played(
    audio_source_name: Option<Seq<char>>,
    stages: Seq<Stage>,
    events: Seq<Event>,
    actions: Seq<Option<Action>>,
    k: int,
    num_channels: u32,
)
    requires
        is_run(audio_source_name, stages, events, actions),
        0 <= k < actions.len(),
        actions[k] == Some(Action::Play { num_channels }),
    ensures
        is_channel_count_of_file(stages, events, k, num_channels),
{
    let event = events[k];
    assert(stages[k] is CreatingLinks);
    lemma_channels_kept(audio_source_name, stages, events, actions, k);
}

/// The state of a stream.
#[derive(Debug)]
pub enum StreamState {
    Error(String),
    Unconnected,
    Connecting,
    Paused,
    Streaming,
}

/// Whether a stream has just become active, so that its ports have been announced.
pub fn has_become_active(before: &StreamState, now: &StreamState) -> (active: bool)
    ensures
        active == (before is Paused && now is Streaming),
{
    match (before, now) {
        (StreamState::Paused, StreamState::Streaming) => true,
        _ => false,
    }
}

/// Something counts if and only if it is what the stage waits for. Then, and only then, there is
/// something to do next.
pub proof fn law_only_what_is_awaited_counts(
    audio_source_name: Option<Seq<char>>,
    before: Stage,
    event: Event,
    after: Stage,
    action: Option<Action>,
)
    requires
        steps_to(audio_source_name, before, event, after, action),
    ensures
        action is Some <==> (before is Decoding && event is FileDecoded) || (before is Connecting
            && event is Connected) || (before is CreatingStream && event is StreamCreated) || (
        before is ConnectingStream && event is StreamConnected) || (before is CollectingObjects
            && event is ObjectsCollected) || (before is ReadingMetadata && event is MetadataRead) || (
        before is AskingStreamNode && event is StreamNode) || (before is CreatingLinks
            && event is LinksCreated) || (before is Playing && event is PlaybackEnded),
        action is None ==> after == before,
        action matches Some(Action::Fail(_)) <==> action is Some && after is Failed,
{
}

/// Whatever the audio file, the server is connected to once it has been opened.
pub proof fn law_file_then_connection(
    audio_source_name: Option<Seq<char>>,
    params: CodecParameters,
    after: Stage,
    action: Option<Action>,
)
    requires
        steps_to(audio_source_name, Stage::Decoding, Event::FileDecoded(params), after, action),
    ensures
        action == Some(Action::Connect),
        after == (Stage::Connecting { params }),
{
}

/// Once the server is connected to, a stream is made for as many channels as the file has. A run
/// fails here if and only if the channels are not known.
pub proof fn law_connection_then_stream(
    audio_source_name: Option<Seq<char>>,
    params: CodecParameters,
    after: Stage,
    action: Option<Action>,
)
    requires
        steps_to(audio_source_name, Stage::Connecting { params }, Event::Connected, after, action),
    ensures
        params.channels is None ==> action == Some(Action::Fail(RunError::MissingChannelData)),
        params.channels is Some ==> (action matches Some(Action::CreateStream(props))
            && props.media_type@ == "Audio"@ && props.media_category@ == "Playback"@
            && props.media_role@ == "Music"@ && number_in(props.audio_channels@) is Some && number_in(
            props.audio_channels@,
        )->0 == count_of_ones(params.channels->0@ as nat)),
        params.channels is Some ==> (after matches Stage::CreatingStream { params: kept, num_channels }
            && kept == params && num_channels == count_of_ones(params.channels->0@ as nat)),
{
    if let Stage::CreatingStream { num_channels, .. } = after {
        law_number_read_back(num_channels);
    }
}

/// The properties of a stream say that it plays music, and their number of channels is read back.
pub proof fn law_stream_says_its_channels(props: StreamProperties, num_channels: u32)
    requires
        plays_music(props, num_channels),
    ensures
        props.media_type@ == "Audio"@,
        props.media_category@ == "Playback"@,
        props.media_role@ == "Music"@,
        number_in(props.audio_channels@) == Some(num_channels),
{
    law_number_read_back(num_channels);
}

/// Once the stream has been made, it is connected with a description of the file's audio. A run
/// fails here if and only if the rate or the channels are not known, and says which, the rate
/// first.
pub proof fn law_stream_is_connected_with_description(
    audio_source_name: Option<Seq<char>>,
    params: CodecParameters,
    num_channels: u32,
    after: Stage,
    action: Option<Action>,
)
    requires
        steps_to(
            audio_source_name,
            Stage::CreatingStream { params, num_channels },
            Event::StreamCreated,
            after,
            action,
        ),
    ensures
        params.sample_rate is None ==> action == Some(
            Action::Fail(RunError::AudioInfo(AudioInfoError::MissingSampleRate)),
        ),
        params.sample_rate is Some && params.channels is None ==> action == Some(
            Action::Fail(RunError::AudioInfo(AudioInfoError::MissingChannels)),
        ),
        params.sample_rate is Some && params.channels is Some ==> (action matches Some(
            Action::ConnectStream(info),
        ) && describes(info, params)),
        params.sample_rate is Some && params.channels is Some ==> after == (
        Stage::ConnectingStream { num_channels }),
{
}

/// Once the stream has been connected, the objects on the server are collected.
pub proof fn law_stream_then_objects(
    audio_source_name: Option<Seq<char>>,
    num_channels: u32,
    after: Stage,
    action: Option<Action>,
)
    requires
        steps_to(
            audio_source_name,
            Stage::ConnectingStream { num_channels },
            Event::StreamConnected,
            after,
            action,
        ),
    ensures
        action == Some(Action::CollectObjects),
        after == (Stage::CollectingObjects { num_channels }),
{
}

/// Where the first node with the name of the source stands at place `s` among the objects, the run
/// goes on with the nodes that links carry its sound to, every one of them and no other.
pub proof fn law_source_is_used(
    name: Seq<char>,
    num_channels: u32,
    objects: Vec<PwObject>,
    stage: Stage,
    action: Action,
    s: int,
)
    requires
        uses_source(name, num_channels, objects, stage, action),
        0 <= s < objects.deep_view().len(),
        objects.deep_view()[s].type_ == ObjectType::Node,
        objects.deep_view()[s].text("node.name"@) == Some(name),
        forall|j: int|
            0 <= j < s ==> (#[trigger] objects.deep_view()[j]).type_ != ObjectType::Node
                || objects.deep_view()[j].text("node.name"@) != Some(name),
    ensures
        action == Action::AskStreamNode,
        stage is AskingStreamNode,
        stage->AskingStreamNode_num_channels == num_channels,
        stage->AskingStreamNode_objects == objects,
        forall|fed_id: u32| #[trigger]
            stage->AskingStreamNode_node_ids@.contains(fed_id) <==> exists|l: int|
                0 <= l < objects.deep_view().len() && (#[trigger] objects.deep_view()[l]).type_
                    == ObjectType::Link && objects.deep_view()[l].number("link.output.node"@) == Some(
                    objects.deep_view()[s].id,
                ) && objects.deep_view()[l].number("link.input.node"@) == Some(fed_id),
        stage->AskingStreamNode_node_ids@.no_duplicates(),
{
    let all = objects.deep_view();
    law_source_is_first_node_with_name(all, name, s);
    let node_ids = stage->AskingStreamNode_node_ids@;
    assert forall|fed_id: u32| #[trigger] node_ids.contains(fed_id) <==> exists|l: int|
        0 <= l < all.len() && (#[trigger] all[l]).type_ == ObjectType::Link && all[l].number(
            "link.output.node"@,
        ) == Some(all[s].id) && all[l].number("link.input.node"@) == Some(fed_id) by {
        law_nodes_to_connect_to_are_fed(all, all[s].id, node_ids, fed_id);
    }
}

/// Where no node has the name of the source, the run fails and gives that name.
pub proof fn law_missing_source_is_named(
    name: Seq<char>,
    num_channels: u32,
    objects: Vec<PwObject>,
    stage: Stage,
    action: Action,
)
    requires
        uses_source(name, num_channels, objects, stage, action),
        forall|j: int|
            0 <= j < objects.deep_view().len() ==> (#[trigger] objects.deep_view()[j]).type_
                != ObjectType::Node || objects.deep_view()[j].text("node.name"@) != Some(name),
    ensures
        stage == Stage::Failed,
        action matches Action::Fail(RunError::SourceNotFound(missing)) && missing@ == name,
{
    law_no_source_without_name(objects.deep_view(), name);
}

/// A source that the user names is the one that is used, whatever the default metadata says.
pub proof fn law_named_source_is_used(
    name: Seq<char>,
    num_channels: u32,
    objects: Vec<PwObject>,
    after: Stage,
    action: Option<Action>,
)
    requires
        steps_to(
            Some(name),
            Stage::CollectingObjects { num_channels },
            Event::ObjectsCollected(objects),
            after,
            action,
        ),
    ensures
        action is Some,
        uses_source(name, num_channels, objects, after, action->0),
{
}

/// Where the user names no source, the default metadata is read: the first metadata with the name
/// `default`, here at place `m` among the objects.
pub proof fn law_default_metadata_is_read(
    num_channels: u32,
    objects: Vec<PwObject>,
    after: Stage,
    action: Option<Action>,
    m: int,
)
    requires
        steps_to(
            None,
            Stage::CollectingObjects { num_channels },
            Event::ObjectsCollected(objects),
            after,
            action,
        ),
        0 <= m < objects.deep_view().len(),
        objects.deep_view()[m].type_ == ObjectType::Metadata,
        objects.deep_view()[m].text("metadata.name"@) == Some("default"@),
        forall|j: int|
            0 <= j < m ==> (#[trigger] objects.deep_view()[j]).type_ != ObjectType::Metadata
                || objects.deep_view()[j].text("metadata.name"@) != Some("default"@),
    ensures
        action == Some(Action::ReadMetadata(objects.deep_view()[m].id)),
        after == (Stage::ReadingMetadata { num_channels, objects }),
{
    law_default_metadata_is_first_with_name(objects.deep_view(), m);
}

/// Where the user names no source and there is no default metadata, the run fails.
pub proof fn law_missing_default_metadata_fails(
    num_channels: u32,
    objects: Vec<PwObject>,
    after: Stage,
    action: Option<Action>,
)
    requires
        steps_to(
            None,
            Stage::CollectingObjects { num_channels },
            Event::ObjectsCollected(objects),
            after,
            action,
        ),
        forall|j: int|
            0 <= j < objects.deep_view().len() ==> (#[trigger] objects.deep_view()[j]).type_
                != ObjectType::Metadata || objects.deep_view()[j].text("metadata.name"@) != Some(
                "default"@,
            ),
    ensures
        action == Some(Action::Fail(RunError::NoDefaultMetadata)),
{
    law_no_default_metadata_without_name(objects.deep_view());
}

/// The source that is used by default is the default one, and the configured one where there is no
/// default one. Where there is neither, the run fails, whatever sinks there are.
pub proof fn law_default_source_is_taken(
    audio_source_name: Option<Seq<char>>,
    num_channels: u32,
    objects: Vec<PwObject>,
    metadata: DefaultMetadata,
    after: Stage,
    action: Option<Action>,
)
    requires
        steps_to(
            audio_source_name,
            Stage::ReadingMetadata { num_channels, objects },
            Event::MetadataRead(metadata),
            after,
            action,
        ),
    ensures
        action is Some,
        metadata.default_audio_source_name is Some ==> uses_source(
            metadata.default_audio_source_name->0@,
            num_channels,
            objects,
            after,
            action->0,
        ),
        metadata.default_audio_source_name is None
            && metadata.default_configured_audio_source_name is Some ==> uses_source(
            metadata.default_configured_audio_source_name->0@,
            num_channels,
            objects,
            after,
            action->0,
        ),
        metadata.default_audio_source_name is None
            && metadata.default_configured_audio_source_name is None ==> action == Some(
            Action::Fail(RunError::NoDefaultSource),
        ),
{
}

/// Once the number of the stream's node is known, the links from it to the nodes that were found are
/// made.
pub proof fn law_links_are_made_to_nodes_found(
    audio_source_name: Option<Seq<char>>,
    num_channels: u32,
    objects: Vec<PwObject>,
    node_ids: Vec<u32>,
    stream_node_id: u32,
    after: Stage,
    action: Option<Action>,
)
    requires
        steps_to(
            audio_source_name,
            Stage::AskingStreamNode { num_channels, objects, node_ids },
            Event::StreamNode(stream_node_id),
            after,
            action,
        ),
    ensures
        action matches Some(Action::CreateLinks(links)) && links@ == planned_links(
            objects.deep_view(),
            node_ids@,
            stream_node_id,
        ),
        after == (Stage::CreatingLinks { num_channels }),
{
}

/// Whenever the links have been made, the audio is played, whatever the number of channels, and with
/// that number.
pub proof fn law_links_then_play(
    audio_source_name: Option<Seq<char>>,
    num_channels: u32,
    after: Stage,
    action: Option<Action>,
)
    requires
        steps_to(
            audio_source_name,
            Stage::CreatingLinks { num_channels },
            Event::LinksCreated,
            after,
            action,
        ),
    ensures
        action == Some(Action::Play { num_channels }),
        after == Stage::Playing,
{
}

/// A run is over once the audio has been played, and not before: it asks for nothing while the audio
/// is being played.
pub proof fn law_end_of_playback_ends_run(
    audio_source_name: Option<Seq<char>>,
    event: Event,
    after: Stage,
    action: Option<Action>,
)
    requires
        steps_to(audio_source_name, Stage::Playing, event, after, action),
    ensures
        event is PlaybackEnded ==> action == Some(Action::Finish) && after == Stage::Finished,
        event !is PlaybackEnded ==> action is None && after == Stage::Playing,
{
}

proof fn lemma_playing_was_asked_for(
    audio_source_name: Option<Seq<char>>,
    stages: Seq<Stage>,
    events: Seq<Event>,
    actions: Seq<Option<Action>>,
    k: int,
) -> (j: int)
    requires
        is_run(audio_source_name, stages, events, actions),
        0 <= k < stages.len(),
        stages[k] is Playing,
    ensures
        0 <= j < k,
        actions[j] matches Some(Action::Play { .. }),
    decreases k,
{
    let event = events[k - 1];
    if stages[k - 1] is Playing {
        lemma_playing_was_asked_for(audio_source_name, stages, events, actions, k - 1)
    } else {
        k - 1
    }
}

/// A run only finishes after it has played.
pub proof fn law_run_finishes_only_after_playing(
    audio_source_name: Option<Seq<char>>,
    stages: Seq<Stage>,
    events: Seq<Event>,
    actions: Seq<Option<Action>>,
    k: int,
)
    requires
        is_run(audio_source_name, stages, events, actions),
        0 <= k < actions.len(),
        actions[k] == Some(Action::Finish),
    ensures
        exists|j: int| 0 <= j < k && (#[trigger] actions[j] matches Some(Action::Play { .. })),
        events[k] is PlaybackEnded,
{
    let event = events[k];
    assert(stages[k] is Playing);
    let j = lemma_playing_was_asked_for(audio_source_name, stages, events, actions, k);
    assert(actions[j] matches Some(Action::Play { .. }));
}

proof fn lemma_links_were_asked_for(
    audio_source_name: Option<Seq<char>>,
    stages: Seq<Stage>,
    events: Seq<Event>,
    actions: Seq<Option<Action>>,
    k: int,
) -> (j: int)
    requires
        is_run(audio_source_name, stages, events, actions),
        0 <= k < stages.len(),
        stages[k] is CreatingLinks,
    ensures
        0 <= j < k,
        actions[j] matches Some(Action::CreateLinks(_)),
    decreases k,
{
    let event = events[k - 1];
    if stages[k - 1] is CreatingLinks {
        lemma_links_were_asked_for(audio_source_name, stages, events, actions, k - 1)
    } else {
        k - 1
    }
}

/// A run only plays after it has made its links.
pub proof fn law_run_plays_only_after_linking(
    audio_source_name: Option<Seq<char>>,
    stages: Seq<Stage>,
    events: Seq<Event>,
    actions: Seq<Option<Action>>,
    k: int,
)
    requires
        is_run(audio_source_name, stages, events, actions),
        0 <= k < actions.len(),
        actions[k] matches Some(Action::Play { .. }),
    ensures
        exists|j: int| 0 <= j < k && (#[trigger] actions[j] matches Some(Action::CreateLinks(_))),
        events[k] is LinksCreated,
{
    let event = events[k];
    assert(stages[k] is CreatingLinks);
    let j = lemma_links_were_asked_for(audio_source_name, stages, events, actions, k);
    assert(actions[j] matches Some(Action::CreateLinks(_)));
}

/// A run begins by opening the file, and each step takes up where the one before left off.
pub proof fn law_run_is_made_of_steps(
    audio_source_name: Option<Seq<char>>,
    stages: Seq<Stage>,
    events: Seq<Event>,
    actions: Seq<Option<Action>>,
    k: int,
)
    requires
        is_run(audio_source_name, stages, events, actions),
        0 <= k < events.len(),
    ensures
        stages[0] == Stage::Decoding,
        steps_to(audio_source_name, stages[k], events[k], stages[k + 1], actions[k]),
{
    let event = events[k];
}

/// A user who is told that the source is missing is told its name, and two messages are the same
/// only where the names are.
pub proof fn law_message_names_missing_source(name: String, other: String)
    ensures
        message_of(RunError::SourceNotFound(name)) == "Could not find audio source node with name `"@
            + name@ + "`"@,
        message_of(RunError::SourceNotFound(name)) == message_of(RunError::SourceNotFound(other))
            ==> name@ == other@,
{
    let front = "Could not find audio source node with name `"@;
    let back = "`"@;
    if message_of(RunError::SourceNotFound(name)) == message_of(RunError::SourceNotFound(other)) {
        assert((front + name@ + back).len() == (front + other@ + back).len());
        assert(name@ =~= other@) by {
            assert forall|i: int| 0 <= i < name@.len() implies name@[i] == other@[i] by {
                assert((front + name@ + back)[front.len() + i] == name@[i]);
                assert((front + other@ + back)[front.len() + i] == other@[i]);
            }
        }
    }
}

} // verus!
