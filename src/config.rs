use vstd::prelude::*;

use crate::names::{dedup_names, distinct, names_view, unique_names};

verus! {

/// The key of the configuration that lists the process names to watch.
pub const WATCH_KEY: &'static str = "recognised_processes";

#[verifier::external_type_specification]
#[verifier::external_body]
pub struct ExTomlValue(toml::Value);

#[verifier::external_type_specification]
#[verifier::external_body]
pub struct ExTomlError(toml::de::Error);

/// Why a configuration could not be read.
#[derive(Clone, Copy, Debug, PartialEq, Eq, Structural)]
pub enum ConfigError {
    /// The text is not TOML.
    Parse,
    /// The watch key does not hold an array.
    NotAList,
    /// An entry of the watch list is not a string.
    NotText,
}

/// Whether the text is a TOML document.
pub uninterp spec fn toml_parses(text: Seq<char>) -> bool;

/// Relies on toml::from_str: parses the text as a TOML document; whether it
/// succeeds depends on the text alone.
#[verifier::external_body]
fn parse_toml(text: &str) -> (r: Result<toml::Value, toml::de::Error>)
    ensures
        r is Ok == toml_parses(text@),
{
    toml::from_str(text)
}

/// Relies on toml::Value::get: the value stored under `key` in a table.
#[verifier::external_body]
fn toml_get<'a>(v: &'a toml::Value, key: &str) -> (r: Option<&'a toml::Value>) {
    v.get(key)
}

/// Relies on toml::Value::as_array: the items of an array value.
#[verifier::external_body]
fn toml_as_array<'a>(v: &'a toml::Value) -> (r: Option<&'a Vec<toml::Value>>) {
    v.as_array()
}

/// Relies on toml::Value::as_str: the text of a string value.
#[verifier::external_body]
fn toml_as_str<'a>(v: &'a toml::Value) -> (r: Option<&'a str>) {
    v.as_str()
}

/// The texts of the watch-list entries; an entry that is not a string reads
/// as empty.
pub open spec fn entry_texts(entries: Seq<Option<String>>) -> Seq<Seq<char>> {
    entries.map_values(
        |e: Option<String>|
            match e {
                Some(s) => s@,
                None => Seq::<char>::empty(),
            },
    )
}

/// The watch list made of the entries of the configuration's array: each
/// name once, in order of first mention; `NotText` if an entry is not a
/// string.
pub fn names_from_entries(entries: &Vec<Option<String>>) -> (r: Result<Vec<String>, ConfigError>)
    ensures
        (exists|i: int| 0 <= i < entries@.len() && entries@[i] is None) <==> r == Err::<
            Vec<String>,
            ConfigError,
        >(ConfigError::NotText),
        r matches Err(e) ==> e == ConfigError::NotText,
        r matches Ok(v) ==> names_view(v@) == dedup_names(entry_texts(entries@)),
        r matches Ok(v) ==> distinct(names_view(v@)),
{
    let mut texts: Vec<String> = Vec::new();
    let mut i: usize = 0;
    while i < entries.len()
        invariant
            i <= entries@.len(),
            forall|k: int| 0 <= k < i ==> #[trigger] entries@[k] is Some,
            names_view(texts@) == entry_texts(entries@.take(i as int)),
        decreases entries@.len() - i,
    {
        match &entries[i] {
            Some(s) => {
                let ghost before = texts@;
                texts.push(s.clone());
                assert(entry_texts(entries@.take(i + 1 as int)) =~= entry_texts(
                    entries@.take(i as int),
                ).push(s@));
                assert(names_view(texts@) =~= names_view(before).push(s@));
            },
            None => return Err(ConfigError::NotText),
        }
        i += 1;
    }
    assert(entries@.take(i as int) =~= entries@);
    let names = unique_names(&texts);
    Ok(names)
}

/// The process names that the TOML text `text` asks to watch, each once, in
/// the order of their first mention; none when the key is absent.
pub fn watched_processes(text: &str) -> (r: Result<Vec<String>, ConfigError>)
    ensures
        !toml_parses(text@) <==> r == Err::<Vec<String>, ConfigError>(ConfigError::Parse),
        r matches Ok(v) ==> distinct(names_view(v@)),
{
    let doc = match parse_toml(text) {
        Ok(doc) => doc,
        Err(_) => return Err(ConfigError::Parse),
    };
    let entry = match toml_get(&doc, WATCH_KEY) {
        Some(entry) => entry,
        None => return Ok(Vec::new()),
    };
    let items = match toml_as_array(entry) {
        Some(items) => items,
        None => return Err(ConfigError::NotAList),
    };
    let mut entries: Vec<Option<String>> = Vec::new();
    let mut i: usize = 0;
    while i < items.len()
        invariant
            i <= items@.len(),
        decreases items@.len() - i,
    {
        match toml_as_str(&items[i]) {
            Some(s) => entries.push(Some(s.to_string())),
            None => entries.push(None),
        }
        i += 1;
    }
    names_from_entries(&entries)
}

} // verus!
