//! What the supervisor asks of the clock and of the source of identifiers.

use vstd::prelude::*;
use vstd::string::*;

use crate::environment::{lowered, lowered_text};
use crate::text::str_eq;

verus! {

/// Reads the system clock with `std::time::SystemTime::now` and gives the
/// whole seconds since the Unix epoch, or zero where the clock stands before
/// it. Nothing is promised of the value: it depends on the machine's clock.
#[verifier::external_body]
pub fn current_timestamp() -> (seconds: i64) {
    std::time::SystemTime::now().duration_since(std::time::UNIX_EPOCH).map_or(
        0,
        |elapsed| elapsed.as_secs() as i64,
    )
}

/// Reads the system clock with `std::time::SystemTime::now` and gives the
/// whole milliseconds since the Unix epoch, or zero where the clock stands
/// before it. Nothing is promised of the value: it depends on the machine's
/// clock.
#[verifier::external_body]
pub fn current_timestamp_millis() -> (millis: i64) {
    std::time::SystemTime::now().duration_since(std::time::UNIX_EPOCH).map_or(
        0,
        |elapsed| elapsed.as_millis() as i64,
    )
}

/// Whether `c` is a digit or one of the letters `a` to `f`.
pub open spec fn is_lower_hex(c: char) -> bool {
    ('0' <= c && c <= '9') || ('a' <= c && c <= 'f')
}

/// The shape of an identifier: thirty-six characters, hyphens at the four
/// places where a UUID has them, and hexadecimal digits in lower case
/// everywhere else.
pub open spec fn is_process_id(id: Seq<char>) -> bool {
    &&& id.len() == 36
    &&& forall|i: int|
        0 <= i < 36 ==> if i == 8 || i == 13 || i == 18 || i == 23 {
            #[trigger] id[i] == '-'
        } else {
            is_lower_hex(id[i])
        }
}

/// Draws a random identifier with `uuid::Uuid::new_v4` and writes it with
/// the crate's `Display`, which gives the hyphenated form in lower case. The
/// contract states that shape and nothing of the digits, which are random.
/// The call ends the program where the system has no random bytes to give.
#[verifier::external_body]
pub(crate) fn new_process_id() -> (id: String)
    ensures
        is_process_id(id@),
{
    uuid::Uuid::new_v4().to_string()
}

/// Whether a file of this extension is taken for something to run where
/// the kind of a file is told by its name: `exe`, `bat` and `cmd` are, in
/// any case of their letters.
pub open spec fn is_launchable_extension(extension: Seq<char>) -> bool {
    let low = lowered_text(extension);
    low == "exe"@ || low == "bat"@ || low == "cmd"@
}

/// Computes [`is_launchable_extension`].
pub fn launchable_extension(extension: &str) -> (launchable: bool)
    ensures
        launchable == is_launchable_extension(extension@),
{
    let low = lowered(extension);
    str_eq(low.as_str(), "exe") || str_eq(low.as_str(), "bat") || str_eq(low.as_str(), "cmd")
}

/// Whether a file of this mode is taken for something to run where the
/// kind of a file is told by its permissions: one that its owner, its group
/// or anyone may execute is.
pub fn executable_mode(mode: u32) -> (executable: bool)
    ensures
        executable == (mode & 0o111 != 0),
{
    mode & 0o111 != 0
}

} // verus!
