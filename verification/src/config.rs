//! The two options that the retrieval core reads from the configuration.
use crate::error::RagError;
use vstd::prelude::*;

verus! {

/// How texts are cut into windows.
#[derive(Clone, Copy, Debug, PartialEq, Eq, Structural)]
pub struct Config {
    /// Words in a window.
    pub chunk_size: usize,
    /// Words between the starts of two neighbouring windows; the option is
    /// named `overlap` in the configuration.
    pub stride: usize,
}

/// `serde_yaml::Value`, a parsed YAML document: a collection of values
/// under keys, read only through `entry` and `unsigned`.
#[verifier::external_type_specification]
#[verifier::external_body]
pub struct ExYamlValue(serde_yaml::Value);

/// `serde_yaml::Error`, why a text is no YAML; it is carried, never looked
/// into.
#[verifier::external_type_specification]
#[verifier::external_body]
pub struct ExYamlError(serde_yaml::Error);

/// What `serde_yaml::from_str` reads from `text`, as far as the library
/// looks at it: the unsigned integers that the document holds under string
/// keys, or `None` where the text is no YAML document.
pub uninterp spec fn yaml_unsigned_entries(text: Seq<char>) -> Option<Map<Seq<char>, u64>>;

/// `serde_yaml::from_str` at `serde_yaml::Value`: the document that `text`
/// holds, or why it holds none. The claim is that both depend on the text
/// alone: whether there is a document, and what unsigned integers it holds
/// under string keys.
#[verifier::external_body]
fn parse_document(text: &str) -> (r: Result<serde_yaml::Value, serde_yaml::Error>)
    ensures
        match r {
            Ok(document) => yaml_unsigned_entries(text@) == Some(unsigned_entries(document)),
            Err(_) => yaml_unsigned_entries(text@) is None,
        },
{
    serde_yaml::from_str::<serde_yaml::Value>(text)
}

/// The unsigned integers that the document holds under string keys: a key
/// is in the map where `serde_yaml::Value::get` finds a value under it and
/// `serde_yaml::Value::as_u64` reads that value as a number, which is then
/// what the map has for the key.
pub uninterp spec fn unsigned_entries(document: serde_yaml::Value) -> Map<Seq<char>, u64>;

/// What `serde_yaml::Value::as_u64` returns of `value`.
pub uninterp spec fn unsigned_content(value: serde_yaml::Value) -> Option<u64>;

/// What `entries` has under `key`, if anything.
pub open spec fn entry_of(entries: Map<Seq<char>, u64>, key: Seq<char>) -> Option<u64> {
    if entries.contains_key(key) {
        Some(entries[key])
    } else {
        None
    }
}

/// `serde_yaml::Value::get` with a string key: the value under `key` where
/// `document` is a mapping that has it. The claim is that of the name
/// `unsigned_entries`: a key without a value is not among the entries, and
/// a value that is found is an unsigned integer exactly where the entries
/// have one under the key, and then that one.
#[verifier::external_body]
fn entry<'a>(document: &'a serde_yaml::Value, key: &str) -> (r: Option<&'a serde_yaml::Value>)
    ensures
        match r {
            Some(value) => unsigned_content(*value) == entry_of(unsigned_entries(*document), key@),
            None => !unsigned_entries(*document).contains_key(key@),
        },
{
    document.get(key)
}

/// `serde_yaml::Value::as_u64`: the number that `value` is, where it is an
/// integer that `u64` can hold. The claim is that the result depends on
/// the value alone.
#[verifier::external_body]
fn unsigned(value: &serde_yaml::Value) -> (r: Option<u64>)
    ensures
        r == unsigned_content(*value),
{
    value.as_u64()
}

/// `n` as a count of words, the largest count where `n` is beyond it. No
/// text has more words than that, so the windows are those that `n` asks
/// for.
pub open spec fn word_count(n: u64) -> usize {
    if n <= usize::MAX {
        n as usize
    } else {
        usize::MAX
    }
}

/// The configuration with the options as they were read, `None` standing
/// for an option that is absent or no unsigned integer: both must be there
/// and positive, and nothing stands in for one that is not.
pub open spec fn config_of(chunk_size: Option<u64>, overlap: Option<u64>) -> Result<
    Config,
    RagError,
> {
    match (chunk_size, overlap) {
        (Some(c), Some(s)) if c > 0 && s > 0 => Ok(
            Config { chunk_size: word_count(c), stride: word_count(s) },
        ),
        _ => Err(RagError::ConfigMissingField),
    }
}

impl Config {
    /// Both options are positive.
    pub open spec fn valid(&self) -> bool {
        self.chunk_size > 0 && self.stride > 0
    }

    /// The configuration with the options as they were read: `None` for an
    /// option that is absent or no unsigned integer. Both must be there and
    /// positive.
    pub fn from_fields(chunk_size: Option<u64>, overlap: Option<u64>) -> (r: Result<
        Config,
        RagError,
    >)
        ensures
            r == config_of(chunk_size, overlap),
            r matches Ok(config) ==> config.valid(),
    {
        match (chunk_size, overlap) {
            (Some(c), Some(s)) => {
                if c > 0 && s > 0 {
                    Ok(Config { chunk_size: to_word_count(c), stride: to_word_count(s) })
                } else {
                    Err(RagError::ConfigMissingField)
                }
            },
            _ => Err(RagError::ConfigMissingField),
        }
    }

    /// The configuration that the YAML document `text` holds under the keys
    /// `chunk_size` and `overlap`. A text that is no YAML holds neither.
    pub fn from_yaml(text: &str) -> (r: Result<Config, RagError>)
        ensures
            r == match yaml_unsigned_entries(text@) {
                Some(entries) => config_of(
                    entry_of(entries, "chunk_size"@),
                    entry_of(entries, "overlap"@),
                ),
                None => Err(RagError::ConfigMissingField),
            },
            r matches Ok(config) ==> config.valid(),
    {
        match parse_document(text) {
            Ok(document) => {
                let chunk_size = Self::field(&document, "chunk_size");
                let overlap = Self::field(&document, "overlap");
                Self::from_fields(chunk_size, overlap)
            },
            Err(_) => Err(RagError::ConfigMissingField),
        }
    }

    /// The unsigned integer that `document` holds under `key`; `None` where
    /// it holds nothing under the key, or something else.
    fn field(document: &serde_yaml::Value, key: &str) -> (r: Option<u64>)
        ensures
            r == entry_of(unsigned_entries(*document), key@),
    {
        match entry(document, key) {
            Some(value) => unsigned(value),
            None => None,
        }
    }
}

fn to_word_count(n: u64) -> (count: usize)
    ensures
        count == word_count(n),
{
    if n <= usize::MAX as u64 {
        n as usize
    } else {
        usize::MAX
    }
}

} // verus!
