//! What the window shell asks of the rules: whether the application comes
//! up without showing its window.

use vstd::prelude::*;
use vstd::string::*;

use crate::text::str_eq;

verus! {

/// The argument that asks for a silent start.
pub open spec fn silent_flag() -> Seq<char> {
    "--silent"@
}

/// Whether one of the arguments asks for a silent start.
pub open spec fn asks_for_silence(args: Seq<Seq<char>>) -> bool {
    exists|i: int| 0 <= i < args.len() && #[trigger] args[i] == silent_flag()
}

/// Computes [`asks_for_silence`].
pub fn has_silent_flag(args: &Vec<String>) -> (asked: bool)
    ensures
        asked == asks_for_silence(args.deep_view()),
{
    let mut at: usize = 0;
    while at < args.len()
        invariant
            at <= args.len(),
            forall|i: int| 0 <= i < at ==> #[trigger] args.deep_view()[i] != silent_flag(),
        decreases args.len() - at,
    {
        assert(args.deep_view()[at as int] == args[at as int]@);
        if str_eq(args[at].as_str(), "--silent") {
            return true;
        }
        at = at + 1;
    }
    false
}

/// Whether the window stays hidden when the application comes up: the
/// arguments ask for silence and the user has the setting at `true`. A
/// setting that is absent counts as off.
pub fn starts_hidden(args: &Vec<String>, silent_start: Option<&str>) -> (hidden: bool)
    ensures
        hidden == (asks_for_silence(args.deep_view()) && match silent_start {
            Some(setting) => setting@ == "true"@,
            None => false,
        }),
{
    if !has_silent_flag(args) {
        return false;
    }
    match silent_start {
        Some(setting) => str_eq(setting, "true"),
        None => false,
    }
}

} // verus!
