//! What printing a map with `{:?}` takes from std.
//!
//! Std panics on a map that is continued or ended between a key and its value. Keys and values are
//! only added together here, so no map is ever in that state.
use vstd::prelude::*;

verus! {

/// What std formats a value into.
#[verifier::external_type_specification]
#[verifier::external_body]
pub struct ExFormatter<'a>(std::fmt::Formatter<'a>);

/// The error of std's formatting.
#[verifier::external_type_specification]
#[verifier::external_body]
pub struct ExFmtError(std::fmt::Error);

/// A map that is being formatted.
#[verifier::external_type_specification]
#[verifier::external_body]
pub struct ExDebugMap<'a, 'b: 'a>(std::fmt::DebugMap<'a, 'b>);

/// Starts the text of a map, with std's `Formatter::debug_map`.
///
/// Nothing is said of the text: it goes to a writer that only std sees.
#[verifier::external_body]
pub(crate) fn start_map<'a, 'b>(f: &'a mut std::fmt::Formatter<'b>) -> (r: std::fmt::DebugMap<
    'a,
    'b,
>) {
    f.debug_map()
}

/// Adds a key and its value to the text of a map, with std's `DebugMap::entry`.
///
/// Nothing is said of the text: it goes to a writer that only std sees.
#[verifier::external_body]
pub(crate) fn add_entry<V: std::fmt::Debug>(
    map: &mut std::fmt::DebugMap<'_, '_>,
    key: &String,
    value: &V,
) {
    map.entry(key, value);
}

/// Ends the text of a map, with std's `DebugMap::finish`.
///
/// Nothing is said of the outcome: it is an error exactly where the writer failed.
#[verifier::external_body]
pub(crate) fn finish_map(map: &mut std::fmt::DebugMap<'_, '_>) -> (r: Result<
    (),
    std::fmt::Error,
>) {
    map.finish()
}

} // verus!
