//! Choice of the control surface among the available input ports.

use vstd::prelude::*;

verus! {

/// `pattern` occurs somewhere in `text`.
pub open spec fn contains_text(text: Seq<char>, pattern: Seq<char>) -> bool {
    exists|i: int|
        0 <= i && i + pattern.len() <= text.len() && #[trigger] text.subrange(i, i + pattern.len())
            == pattern
}

/// Relies on `str::contains` with a `&str` pattern: true exactly when the
/// pattern occurs in the text.
#[verifier::external_body]
fn text_contains(text: &str, pattern: &str) -> (r: bool)
    ensures
        r == contains_text(text@, pattern@),
{
    text.contains(pattern)
}

/// The marker that the control surface's port names carry.
pub open spec fn device_marker() -> Seq<char> {
    "LPD8"@
}

/// The port to open: the first whose name carries the device marker.
pub fn select_port(names: &Vec<String>) -> (r: Option<usize>)
    ensures
        match r {
            Some(i) => i < names.len() && contains_text(names[i as int]@, device_marker()) && (
            forall|j: int| 0 <= j < i ==> !contains_text(#[trigger] names[j]@, device_marker())),
            None => forall|j: int|
                0 <= j < names.len() ==> !contains_text(#[trigger] names[j]@, device_marker()),
        },
{
    let mut i: usize = 0;
    while i < names.len()
        invariant
            i <= names.len(),
            forall|j: int| 0 <= j < i ==> !contains_text(#[trigger] names[j]@, device_marker()),
        decreases names.len() - i,
    {
        if text_contains(names[i].as_str(), "LPD8") {
            return Some(i);
        }
        i = i + 1;
    }
    None
}

} // verus!
