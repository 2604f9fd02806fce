//! The names of the default devices, as the server's metadata gives them.
use crate::properties::same_text;
use vstd::prelude::*;

verus! {

/// The names of the default devices that are known.
#[derive(Debug)]
pub struct DefaultMetadata {
    pub default_audio_source_name: Option<String>,
    pub default_configured_audio_source_name: Option<String>,
    pub default_audio_sink_name: Option<String>,
    pub default_configured_audio_sink_name: Option<String>,
}

/// The contents of a `DefaultMetadata`.
#[verifier::ext_equal]
pub struct DefaultNames {
    pub audio_source: Option<Seq<char>>,
    pub configured_audio_source: Option<Seq<char>>,
    pub audio_sink: Option<Seq<char>>,
    pub configured_audio_sink: Option<Seq<char>>,
}

impl View for DefaultMetadata {
    type V = DefaultNames;

    open spec fn view(&self) -> DefaultNames {
        DefaultNames {
            audio_source: self.default_audio_source_name.deep_view(),
            configured_audio_source: self.default_configured_audio_source_name.deep_view(),
            audio_sink: self.default_audio_sink_name.deep_view(),
            configured_audio_sink: self.default_configured_audio_sink_name.deep_view(),
        }
    }
}

impl Default for DefaultMetadata {
    fn default() -> (metadata: DefaultMetadata)
        ensures
            metadata@ == (DefaultNames {
                audio_source: None,
                configured_audio_source: None,
                audio_sink: None,
                configured_audio_sink: None,
            }),
    {
        DefaultMetadata {
            default_audio_source_name: None,
            default_configured_audio_source_name: None,
            default_audio_sink_name: None,
            default_configured_audio_sink_name: None,
        }
    }
}

/// The name of the source to use: the default one, or else the configured one.
pub open spec fn selected_source(names: DefaultNames) -> Option<Seq<char>> {
    if names.audio_source is Some {
        names.audio_source
    } else {
        names.configured_audio_source
    }
}

/// The name of the source to use: the default one, or else the configured one.
pub fn select_audio_source_name(metadata: &DefaultMetadata) -> (name: Option<&String>)
    ensures
        name.deep_view() == selected_source(metadata@),
{
    match &metadata.default_audio_source_name {
        Some(name) => Some(name),
        None => match &metadata.default_configured_audio_source_name {
            Some(name) => Some(name),
            None => None,
        },
    }
}

/// The names after a name has been given under a key. Keys other than the four change nothing.
pub open spec fn recorded(names: DefaultNames, key: Seq<char>, name: Seq<char>) -> DefaultNames {
    if key == "default.configured.audio.sink"@ {
        DefaultNames { configured_audio_sink: Some(name), ..names }
    } else if key == "default.configured.audio.source"@ {
        DefaultNames { configured_audio_source: Some(name), ..names }
    } else if key == "default.audio.sink"@ {
        DefaultNames { audio_sink: Some(name), ..names }
    } else if key == "default.audio.source"@ {
        DefaultNames { audio_source: Some(name), ..names }
    } else {
        names
    }
}

/// Takes note of the name that is given under a key.
pub fn record_default_name(metadata: &mut DefaultMetadata, key: &str, name: String)
    ensures
        final(metadata)@ == recorded(old(metadata)@, key@, name@),
{
    let key: String = key.to_owned();
    if same_text(&key, "default.configured.audio.sink") {
        metadata.default_configured_audio_sink_name = Some(name);
    } else if same_text(&key, "default.configured.audio.source") {
        metadata.default_configured_audio_source_name = Some(name);
    } else if same_text(&key, "default.audio.sink") {
        metadata.default_audio_sink_name = Some(name);
    } else if same_text(&key, "default.audio.source") {
        metadata.default_audio_source_name = Some(name);
    }
}

/// What became of a property of the metadata.
#[derive(Debug, Clone, Copy, PartialEq, Eq, Structural)]
pub enum PropertyUpdate {
    /// The property has no key or no value, and is passed over.
    Incomplete,
    /// The value is not JSON.
    Malformed,
    /// The value has no name in it, and is passed over.
    NameMissing,
    /// The name in the value is not text, and the value is passed over.
    NameNotText,
    /// The name has been taken note of, if the key is one that matters.
    Taken,
}

/// A JSON value.
#[verifier::external_type_specification]
#[verifier::external_body]
pub struct ExJsonValue(serde_json::Value);

/// Why a text is not JSON.
#[verifier::external_type_specification]
#[verifier::external_body]
pub struct ExJsonError(serde_json::Error);

/// What a JSON value holds under each key: the text there, or `None` where it is something other
/// than text. A value that is not an object holds nothing.
pub uninterp spec fn json_members(value: serde_json::Value) -> Map<Seq<char>, Option<Seq<char>>>;

/// The text that a JSON value is, where it is text.
pub uninterp spec fn json_text(value: serde_json::Value) -> Option<Seq<char>>;

/// What the JSON value that a text stands for holds under each key, where the text is JSON.
pub uninterp spec fn parsed_members(text: Seq<char>) -> Option<Map<Seq<char>, Option<Seq<char>>>>;

/// Calls `serde_json::from_str`, which reads a JSON value. Whether a text is JSON, and what it
/// holds, is a function of the text alone.
#[verifier::external_body]
fn parse_json(text: &str) -> (value: Result<serde_json::Value, serde_json::Error>)
    ensures
        value is Ok <==> parsed_members(text@) is Some,
        value is Ok ==> json_members(value->Ok_0) == parsed_members(text@)->0,
{
    serde_json::from_str(text)
}

/// Calls `serde_json::Value::get`, which looks up what an object holds under a key. In a value
/// that is not an object it finds nothing.
#[verifier::external_body]
fn json_get<'a>(value: &'a serde_json::Value, key: &str) -> (member: Option<&'a serde_json::Value>)
    ensures
        member is Some <==> json_members(*value).contains_key(key@),
        member is Some ==> json_text(*member->0) == json_members(*value)[key@],
{
    value.get(key)
}

/// Calls `serde_json::Value::as_str`, which gives the text that a value is, where it is text.
#[verifier::external_body]
fn json_as_str(value: &serde_json::Value) -> (text: Option<&str>)
    ensures
        text is Some <==> json_text(*value) is Some,
        text is Some ==> text->0@ == json_text(*value)->0,
{
    value.as_str()
}

/// What becomes of a property with a key, and of the names that are known, by the name in its
/// value: none, one that is not text, or a text.
pub open spec fn update_by_name(
    names: DefaultNames,
    key: Seq<char>,
    name: Option<Option<Seq<char>>>,
) -> (DefaultNames, PropertyUpdate) {
    match name {
        None => (names, PropertyUpdate::NameMissing),
        Some(None) => (names, PropertyUpdate::NameNotText),
        Some(Some(name)) => (recorded(names, key, name), PropertyUpdate::Taken),
    }
}

/// Takes note of the name in the value of a property, which is none, one that is not text, or a
/// text.
pub fn update_from_name(
    metadata: &mut DefaultMetadata,
    key: &str,
    name: Option<Option<&str>>,
) -> (update: PropertyUpdate)
    ensures
        (final(metadata)@, update) == update_by_name(old(metadata)@, key@, name.deep_view()),
{
    match name {
        None => PropertyUpdate::NameMissing,
        Some(None) => PropertyUpdate::NameNotText,
        Some(Some(name)) => {
            record_default_name(metadata, key, name.to_owned());
            PropertyUpdate::Taken
        },
    }
}

/// What becomes of a property, and of the names that are known.
pub open spec fn update_by_property(
    names: DefaultNames,
    key: Option<Seq<char>>,
    value: Option<Seq<char>>,
) -> (DefaultNames, PropertyUpdate) {
    match (key, value) {
        (Some(key), Some(value)) => match parsed_members(value) {
            None => (names, PropertyUpdate::Malformed),
            Some(members) => update_by_name(
                names,
                key,
                if members.contains_key("name"@) {
                    Some(members["name"@])
                } else {
                    None
                },
            ),
        },
        _ => (names, PropertyUpdate::Incomplete),
    }
}

/// Takes note of a property of the metadata. Its value is a JSON object that holds a name.
pub fn update_from_property(
    metadata: &mut DefaultMetadata,
    key: Option<&str>,
    value: Option<&str>,
) -> (update: PropertyUpdate)
    ensures
        (final(metadata)@, update) == update_by_property(
            old(metadata)@,
            key.deep_view(),
            value.deep_view(),
        ),
{
    match (key, value) {
        (Some(key), Some(value)) => match parse_json(value) {
            Err(_) => PropertyUpdate::Malformed,
            Ok(value) => {
                let name = match json_get(&value, "name") {
                    None => None,
                    Some(member) => Some(json_as_str(member)),
                };
                update_from_name(metadata, key, name)
            },
        },
        _ => PropertyUpdate::Incomplete,
    }
}

proof fn lemma_keys_differ()
    ensures
        "default.configured.audio.sink"@ != "default.configured.audio.source"@,
        "default.configured.audio.sink"@ != "default.audio.sink"@,
        "default.configured.audio.sink"@ != "default.audio.source"@,
        "default.configured.audio.source"@ != "default.audio.sink"@,
        "default.configured.audio.source"@ != "default.audio.source"@,
        "default.audio.sink"@ != "default.audio.source"@,
{
    reveal_strlit("default.configured.audio.sink");
    reveal_strlit("default.configured.audio.source");
    reveal_strlit("default.audio.sink");
    reveal_strlit("default.audio.source");
    assert("default.configured.audio.sink"@.len() == 29);
    assert("default.configured.audio.source"@.len() == 31);
    assert("default.audio.sink"@.len() == 18);
    assert("default.audio.source"@.len() == 20);
}

/// Once the default source has been named, it is the source to use.
pub proof fn law_default_source_is_used(names: DefaultNames, name: Seq<char>)
    ensures
        selected_source(recorded(names, "default.audio.source"@, name)) == Some(name),
{
    lemma_keys_differ();
}

/// The configured source is the source to use as long as no default source has been named.
pub proof fn law_configured_source_is_fallback(names: DefaultNames, name: Seq<char>)
    ensures
        selected_source(recorded(names, "default.configured.audio.source"@, name)) == if names.audio_source is Some {
            names.audio_source
        } else {
            Some(name)
        },
{
    lemma_keys_differ();
}

/// Names under any other key have no bearing on the source to use.
pub proof fn law_other_keys_leave_source(names: DefaultNames, key: Seq<char>, name: Seq<char>)
    requires
        key != "default.audio.source"@,
        key != "default.configured.audio.source"@,
    ensures
        selected_source(recorded(names, key, name)) == selected_source(names),
{
}

/// Names under different keys can come in either order.
pub proof fn law_order_of_keys_is_irrelevant(
    names: DefaultNames,
    key: Seq<char>,
    name: Seq<char>,
    other_key: Seq<char>,
    other_name: Seq<char>,
)
    requires
        key != other_key,
    ensures
        recorded(recorded(names, key, name), other_key, other_name) == recorded(
            recorded(names, other_key, other_name),
            key,
            name,
        ),
{
}

/// The view of the names that are known is those names.
pub proof fn law_view_of_default_metadata(metadata: DefaultMetadata)
    ensures
        metadata@.audio_source == match metadata.default_audio_source_name {
            Some(name) => Some(name@),
            None => None,
        },
        metadata@.configured_audio_source == match metadata.default_configured_audio_source_name {
            Some(name) => Some(name@),
            None => None,
        },
        metadata@.audio_sink == match metadata.default_audio_sink_name {
            Some(name) => Some(name@),
            None => None,
        },
        metadata@.configured_audio_sink == match metadata.default_configured_audio_sink_name {
            Some(name) => Some(name@),
            None => None,
        },
{
}

/// The source to use is the default one wherever it is known, and the configured one wherever only
/// that is known. There is none where neither is known, whatever is known of sinks.
pub proof fn law_source_to_use(names: DefaultNames)
    ensures
        names.audio_source is Some ==> selected_source(names) == names.audio_source,
        names.audio_source is None ==> selected_source(names) == names.configured_audio_source,
{
}

/// A property of the metadata whose value has a text under `name` gives that text to the device that
/// its key names, and leaves the other devices as they were. The source to use follows: the
/// default source takes over, the configured one only where there is no default source, and sinks
/// and all other keys leave it as it was.
pub proof fn law_property_names_its_device(
    names: DefaultNames,
    key: Seq<char>,
    value: Seq<char>,
    name: Seq<char>,
)
    requires
        parsed_members(value) is Some,
        parsed_members(value)->0.contains_key("name"@),
        parsed_members(value)->0["name"@] == Some(name),
    ensures
        ({
            let (after, update) = update_by_property(names, Some(key), Some(value));
            &&& update == PropertyUpdate::Taken
            &&& after.audio_source == if key == "default.audio.source"@ {
                Some(name)
            } else {
                names.audio_source
            }
            &&& after.configured_audio_source == if key == "default.configured.audio.source"@ {
                Some(name)
            } else {
                names.configured_audio_source
            }
            &&& after.audio_sink == if key == "default.audio.sink"@ {
                Some(name)
            } else {
                names.audio_sink
            }
            &&& after.configured_audio_sink == if key == "default.configured.audio.sink"@ {
                Some(name)
            } else {
                names.configured_audio_sink
            }
            &&& key == "default.audio.source"@ ==> selected_source(after) == Some(name)
            &&& key == "default.configured.audio.source"@ ==> selected_source(after)
                == if names.audio_source is Some {
                names.audio_source
            } else {
                Some(name)
            }
            &&& key != "default.audio.source"@ && key != "default.configured.audio.source"@
                ==> selected_source(after) == selected_source(names)
        }),
{
    lemma_keys_differ();
}

/// A property that has no key or no value, whose value is not JSON, or whose value has no text under
/// `name`, leaves every name as it was. What became of it says which.
pub proof fn law_unusable_property_changes_nothing(
    names: DefaultNames,
    key: Option<Seq<char>>,
    value: Option<Seq<char>>,
)
    ensures
        ({
            let (after, update) = update_by_property(names, key, value);
            let members = parsed_members(value->0);
            &&& update == PropertyUpdate::Incomplete <==> key is None || value is None
            &&& update == PropertyUpdate::Malformed <==> key is Some && value is Some && members is None
            &&& update == PropertyUpdate::NameMissing <==> key is Some && value is Some
                && members is Some && !members->0.contains_key("name"@)
            &&& update == PropertyUpdate::NameNotText <==> key is Some && value is Some
                && members is Some && members->0.contains_key("name"@) && members->0["name"@] is None
            &&& update != PropertyUpdate::Taken ==> after == names
        }),
{
}

/// The name in the value of a property, once it has been read, has the same effect: a text goes to
/// the device that the key names, anything else to none.
pub proof fn law_name_goes_to_its_device(
    names: DefaultNames,
    key: Seq<char>,
    name: Option<Option<Seq<char>>>,
)
    ensures
        ({
            let (after, update) = update_by_name(names, key, name);
            let named = name is Some && name->0 is Some;
            &&& update == PropertyUpdate::NameMissing <==> name is None
            &&& update == PropertyUpdate::NameNotText <==> name is Some && name->0 is None
            &&& update == PropertyUpdate::Taken <==> named
            &&& after.audio_source == if named && key == "default.audio.source"@ {
                name->0
            } else {
                names.audio_source
            }
            &&& after.configured_audio_source == if named && key
                == "default.configured.audio.source"@ {
                name->0
            } else {
                names.configured_audio_source
            }
            &&& after.audio_sink == if named && key == "default.audio.sink"@ {
                name->0
            } else {
                names.audio_sink
            }
            &&& after.configured_audio_sink == if named && key == "default.configured.audio.sink"@ {
                name->0
            } else {
                names.configured_audio_sink
            }
        }),
{
    lemma_keys_differ();
}

/// A name that is taken note of goes to the device that the key names, and to no other.
pub proof fn law_recorded_name_goes_to_its_device(
    names: DefaultNames,
    key: Seq<char>,
    name: Seq<char>,
)
    ensures
        ({
            let after = recorded(names, key, name);
            &&& after.audio_source == if key == "default.audio.source"@ {
                Some(name)
            } else {
                names.audio_source
            }
            &&& after.configured_audio_source == if key == "default.configured.audio.source"@ {
                Some(name)
            } else {
                names.configured_audio_source
            }
            &&& after.audio_sink == if key == "default.audio.sink"@ {
                Some(name)
            } else {
                names.audio_sink
            }
            &&& after.configured_audio_sink == if key == "default.configured.audio.sink"@ {
                Some(name)
            } else {
                names.configured_audio_sink
            }
        }),
{
    lemma_keys_differ();
}

} // verus!
