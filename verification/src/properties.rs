//! Properties of objects on the server: text under text, some of it numbers.
use vstd::prelude::*;

verus! {

/// One property: a key and its value.
#[derive(Debug)]
pub struct Property {
    pub key: String,
    pub value: String,
}

impl View for Property {
    type V = (Seq<char>, Seq<char>);

    open spec fn view(&self) -> (Seq<char>, Seq<char>) {
        (self.key@, self.value@)
    }
}

impl Property {
    pub fn new(key: &str, value: &str) -> (property: Property)
        ensures
            property@ == (key@, value@),
    {
        Property { key: key.to_owned(), value: value.to_owned() }
    }
}

/// A dictionary of properties. Where a key occurs twice, the first one counts.
#[derive(Debug)]
pub struct Properties {
    pub entries: Vec<Property>,
}

impl View for Properties {
    type V = Seq<(Seq<char>, Seq<char>)>;

    open spec fn view(&self) -> Seq<(Seq<char>, Seq<char>)> {
        self.entries@.map_values(|property: Property| property@)
    }
}

/// The value under a key: that of the first property with the key.
pub open spec fn lookup(properties: Seq<(Seq<char>, Seq<char>)>, key: Seq<char>) -> Option<Seq<char>>
    decreases properties.len(),
{
    if properties.len() == 0 {
        None
    } else if properties[0].0 == key {
        Some(properties[0].1)
    } else {
        lookup(properties.drop_first(), key)
    }
}

/// Whether a text is one or more digits and nothing else.
pub open spec fn is_digits(text: Seq<char>) -> bool {
    &&& text.len() > 0
    &&& forall|i: int| 0 <= i < text.len() ==> '0' <= #[trigger] text[i] <= '9'
}

/// The number that a text of digits stands for.
pub open spec fn digits_value(text: Seq<char>) -> nat
    decreases text.len(),
{
    if text.len() == 0 {
        0
    } else {
        10 * digits_value(text.drop_last()) + (text.last() as nat - '0' as nat) as nat
    }
}

/// The number that a text stands for, where it is digits, with or without a plus sign before
/// them, and the number fits into 32 bits.
pub open spec fn number_in(text: Seq<char>) -> Option<u32> {
    let digits = if text.len() > 0 && text[0] == '+' {
        text.skip(1)
    } else {
        text
    };
    if is_digits(digits) && digits_value(digits) <= u32::MAX {
        Some(digits_value(digits) as u32)
    } else {
        None
    }
}

/// A number in decimal digits, without leading zeros.
pub open spec fn decimal(number: nat) -> Seq<char>
    decreases number,
{
    let digit = ('0' as nat + number % 10) as char;
    if number < 10 {
        seq![digit]
    } else {
        decimal(number / 10).push(digit)
    }
}

/// Calls `str::parse` for `u32`, which takes digits with an optional plus sign before them, and
/// nothing else. It fails where there are no digits and where the number does not fit.
#[verifier::external_body]
fn parse_u32(text: &str) -> (number: Option<u32>)
    ensures
        number == number_in(text@),
{
    text.parse::<u32>().ok()
}

/// Calls `ToString::to_string` for `u32`, which writes a number in decimal digits.
#[verifier::external_body]
pub(crate) fn u32_to_string(number: u32) -> (text: String)
    ensures
        text@ == decimal(number as nat),
{
    number.to_string()
}

/// Whether two texts are the same.
pub(crate) fn same_text(left: &String, right: &str) -> (same: bool)
    ensures
        same == (left@ == right@),
{
    *left == right.to_owned()
}

/// A value that is not a number.
#[derive(Debug)]
pub struct ParseValueError {
    pub value: String,
}

impl Properties {
    /// The value under a key.
    pub fn get(&self, key: &str) -> (value: Option<&String>)
        ensures
            match value {
                Some(value) => lookup(self@, key@) == Some(value@),
                None => lookup(self@, key@) is None,
            },
    {
        let mut i: usize = 0;
        assert(self@.skip(0) =~= self@);
        while i < self.entries.len()
            invariant
                i <= self.entries.len(),
                lookup(self@, key@) == lookup(self@.skip(i as int), key@),
            decreases self.entries.len() - i,
        {
            let property = &self.entries[i];
            assert(self@.skip(i as int)[0] == property@);
            if same_text(&property.key, key) {
                return Some(&property.value);
            }
            assert(self@.skip(i as int).drop_first() =~= self@.skip(i + 1));
            i += 1;
        }
        None
    }

    /// The number under a key.
    pub fn parse(&self, key: &str) -> (number: Option<Result<u32, ParseValueError>>)
        ensures
            match lookup(self@, key@) {
                None => number is None,
                Some(value) => match number_in(value) {
                    Some(n) => number == Some(Ok::<u32, ParseValueError>(n)),
                    None => number matches Some(Err(error)) && error.value@ == value,
                },
            },
    {
        match self.get(key) {
            None => None,
            Some(value) => match parse_u32(value.as_str()) {
                Some(n) => Some(Ok(n)),
                None => Some(Err(ParseValueError { value: value.clone() })),
            },
        }
    }
}

proof fn lemma_decimal(number: nat)
    ensures
        is_digits(decimal(number)),
        digits_value(decimal(number)) == number,
    decreases number,
{
    reveal_with_fuel(digits_value, 2);
    if number >= 10 {
        lemma_decimal(number / 10);
        let digit = ('0' as nat + number % 10) as char;
        assert(decimal(number).drop_last() =~= decimal(number / 10));
        assert(decimal(number).last() == digit);
    } else {
        assert(decimal(number).drop_last() =~= Seq::<char>::empty());
    }
}

/// A number that was written as text is read back as the same number.
pub proof fn law_number_read_back(number: u32)
    ensures
        number_in(decimal(number as nat)) == Some(number),
{
    lemma_decimal(number as nat);
    assert('0' <= decimal(number as nat)[0]);
}

/// The value under a key is that of the first property with the key, whatever comes after it.
pub proof fn law_first_property_counts(
    properties: Seq<(Seq<char>, Seq<char>)>,
    key: Seq<char>,
    i: int,
)
    requires
        0 <= i < properties.len(),
        properties[i].0 == key,
        forall|j: int| 0 <= j < i ==> (#[trigger] properties[j]).0 != key,
    ensures
        lookup(properties, key) == Some(properties[i].1),
    decreases properties.len(),
{
    if i > 0 {
        assert(properties[0].0 != key);
        let rest = properties.drop_first();
        assert forall|j: int| 0 <= j < i - 1 implies (#[trigger] rest[j]).0 != key by {
            assert(properties[j + 1].0 != key);
        }
        law_first_property_counts(rest, key, i - 1);
    }
}

/// There is no value under a key that no property has.
pub proof fn law_absent_key_has_no_value(properties: Seq<(Seq<char>, Seq<char>)>, key: Seq<char>)
    requires
        forall|j: int| 0 <= j < properties.len() ==> (#[trigger] properties[j]).0 != key,
    ensures
        lookup(properties, key) is None,
    decreases properties.len(),
{
    if properties.len() > 0 {
        let rest = properties.drop_first();
        assert(properties[0].0 != key);
        assert forall|j: int| 0 <= j < rest.len() implies (#[trigger] rest[j]).0 != key by {
            assert(properties[j + 1].0 != key);
        }
        law_absent_key_has_no_value(rest, key);
    }
}

/// The view of a dictionary is its keys and values, in their order.
pub proof fn law_view_of_properties(properties: Properties)
    ensures
        properties@.len() == properties.entries@.len(),
        forall|i: int|
            0 <= i < properties.entries@.len() ==> (#[trigger] properties@[i]).0
                == properties.entries@[i].key@ && properties@[i].1 == properties.entries@[i].value@,
{
}

/// Digits stand for the number that they make up, as long as it fits into 32 bits, and so they do
/// with a plus sign before them.
pub proof fn law_digits_are_a_number(digits: Seq<char>)
    requires
        digits.len() > 0,
        forall|i: int| 0 <= i < digits.len() ==> '0' <= #[trigger] digits[i] <= '9',
    ensures
        digits_value(digits) <= u32::MAX ==> number_in(digits) == Some(digits_value(digits) as u32)
            && number_in(seq!['+'] + digits) == Some(digits_value(digits) as u32),
        digits_value(digits) > u32::MAX ==> number_in(digits) is None && number_in(
            seq!['+'] + digits,
        ) is None,
{
    assert('0' <= digits[0]);
    assert((seq!['+'] + digits).skip(1) =~= digits);
}

/// A text that stands for a number has digits alone, but for a plus sign in the first place.
pub proof fn law_nothing_but_digits_is_a_number(text: Seq<char>)
    requires
        number_in(text) is Some,
    ensures
        text.len() > 0,
        text[0] == '+' || '0' <= text[0] <= '9',
        text[0] == '+' ==> text.len() > 1,
        forall|i: int| 0 < i < text.len() ==> '0' <= #[trigger] text[i] <= '9',
{
    if text[0] == '+' {
        assert forall|i: int| 0 < i < text.len() implies '0' <= #[trigger] text[i] <= '9' by {
            assert(text.skip(1)[i - 1] == text[i]);
        }
    }
}

/// One more digit makes ten times the number and the digit.
pub proof fn law_digit_by_digit(text: Seq<char>, digit: nat)
    requires
        digit < 10,
    ensures
        digits_value(Seq::empty()) == 0,
        digits_value(text.push(('0' as nat + digit) as char)) == 10 * digits_value(text) + digit,
{
    assert(text.push(('0' as nat + digit) as char).drop_last() =~= text);
}

} // verus!
