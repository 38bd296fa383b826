//! The bounded buffer of captured output lines that every process owns.

use vstd::prelude::*;
use vstd::string::*;
use vstd::utf8::*;

use crate::text::{byte_len, utf8_len};

verus! {

/// The most lines one buffer keeps.
pub const MAX_OUTPUT_LINES: usize = 1000;

/// The most bytes of one line that are stored.
pub const MAX_LINE_LENGTH: usize = 4096;

/// The most bytes, by the estimate of [`entry_cost`], one buffer keeps.
pub const MAX_TOTAL_OUTPUT_BYTES: usize = 2 * 1024 * 1024;

/// The bytes charged for each line on top of its two strings.
pub const LINE_OVERHEAD_BYTES: usize = 16;

/// One captured line as the contracts see it.
pub struct OutputEntry {
    pub timestamp: i64,
    pub stream: Seq<char>,
    pub text: Seq<char>,
}

/// What is appended to a line that was cut short.
pub open spec fn truncation_marker() -> Seq<char> {
    "...[truncated]"@
}

/// The largest character boundary of `bytes` that is no greater than `limit`.
pub open spec fn boundary_at_most(bytes: Seq<u8>, limit: int) -> int
    decreases limit,
{
    if limit <= 0 {
        0
    } else if is_char_boundary(bytes, limit) {
        limit
    } else {
        boundary_at_most(bytes, limit - 1)
    }
}

/// The text under which a captured line is stored: the line itself while it
/// has at most [`MAX_LINE_LENGTH`] bytes, otherwise its longest prefix of
/// whole characters within that many bytes, followed by the marker.
pub open spec fn stored_text(line: Seq<char>) -> Seq<char> {
    let bytes = encode_utf8(line);
    if bytes.len() <= MAX_LINE_LENGTH {
        line
    } else {
        decode_utf8(bytes.subrange(0, boundary_at_most(bytes, MAX_LINE_LENGTH as int)))
            + truncation_marker()
    }
}

/// The entry that a captured line becomes.
pub open spec fn stored_entry(timestamp: i64, stream: Seq<char>, line: Seq<char>) -> OutputEntry {
    OutputEntry { timestamp, stream, text: stored_text(line) }
}

/// The bytes that one entry counts for.
pub open spec fn entry_cost(entry: OutputEntry) -> nat {
    utf8_len(entry.text) + utf8_len(entry.stream) + LINE_OVERHEAD_BYTES as nat
}

/// The bytes that a sequence of entries counts for.
pub open spec fn total_cost(entries: Seq<OutputEntry>) -> nat
    decreases entries.len(),
{
    if entries.len() == 0 {
        0
    } else {
        entry_cost(entries[0]) + total_cost(entries.drop_first())
    }
}

/// Both caps hold of `entries`.
pub open spec fn within_caps(entries: Seq<OutputEntry>) -> bool {
    entries.len() <= MAX_OUTPUT_LINES && total_cost(entries) <= MAX_TOTAL_OUTPUT_BYTES
}

/// What is left of `entries` once the oldest have been dropped, one by one,
/// until both caps hold.
pub open spec fn retained(entries: Seq<OutputEntry>) -> Seq<OutputEntry>
    decreases entries.len(),
{
    if entries.len() == 0 || within_caps(entries) {
        entries
    } else {
        retained(entries.drop_first())
    }
}

/// The entry that a stored line stands for.
pub open spec fn entry_of(line: (i64, String, String)) -> OutputEntry {
    OutputEntry { timestamp: line.0, stream: line.1@, text: line.2@ }
}

/// The entries that a vector of stored lines stands for.
pub open spec fn entries_of(lines: Seq<(i64, String, String)>) -> Seq<OutputEntry> {
    lines.map_values(|line: (i64, String, String)| entry_of(line))
}

/// An entry at the end adds its cost to the cost of the whole.
pub proof fn lemma_total_cost_push(entries: Seq<OutputEntry>, entry: OutputEntry)
    ensures
        total_cost(entries.push(entry)) == total_cost(entries) + entry_cost(entry),
    decreases entries.len(),
{
    if entries.len() == 0 {
        assert(entries.push(entry).drop_first() =~= Seq::<OutputEntry>::empty());
        assert(total_cost(entries.push(entry).drop_first()) == 0);
    } else {
        assert(entries.push(entry).drop_first() =~= entries.drop_first().push(entry));
        lemma_total_cost_push(entries.drop_first(), entry);
    }
}

/// An entry that alone passes the byte cap is not retained, and nothing
/// before it is.
pub proof fn lemma_retained_drops_oversized(entries: Seq<OutputEntry>, entry: OutputEntry)
    requires
        entry_cost(entry) > MAX_TOTAL_OUTPUT_BYTES,
    ensures
        retained(entries.push(entry)) == Seq::<OutputEntry>::empty(),
    decreases entries.len(),
{
    let all = entries.push(entry);
    lemma_total_cost_push(entries, entry);
    assert(!within_caps(all));
    if entries.len() == 0 {
        assert(all.drop_first() =~= Seq::<OutputEntry>::empty());
        assert(retained(all.drop_first()) == Seq::<OutputEntry>::empty());
    } else {
        assert(all.drop_first() =~= entries.drop_first().push(entry));
        lemma_retained_drops_oversized(entries.drop_first(), entry);
    }
}

/// Cuts a line that is too long, as [`stored_text`] says.
fn store_line(line: String) -> (stored: String)
    ensures
        stored@ == stored_text(line@),
{
    broadcast use {encode_utf8_valid_utf8, encode_utf8_decode_utf8};

    if byte_len(line.as_str()) <= MAX_LINE_LENGTH {
        return line;
    }
    let text: &str = line.as_str();
    let ghost bytes = text.spec_bytes();
    let mut cut: usize = MAX_LINE_LENGTH;
    while !text.is_char_boundary(cut)
        invariant
            cut <= MAX_LINE_LENGTH,
            bytes == text.spec_bytes(),
            valid_utf8(bytes),
            boundary_at_most(bytes, cut as int) == boundary_at_most(bytes, MAX_LINE_LENGTH as int),
        decreases cut,
    {
        cut = cut - 1;
    }
    let (head, _tail) = text.split_at(cut);
    let mut kept: String = head.to_owned();
    kept.append("...[truncated]");
    proof {
        assert(boundary_at_most(bytes, cut as int) == cut);
        assert(encode_utf8(head@) == bytes.subrange(0, cut as int));
        assert(decode_utf8(encode_utf8(head@)) == head@);
    }
    kept
}

/// The bytes that a line with this stream kind and this text counts for, or
/// `None` where the sum does not fit.
fn line_cost(stream: &String, text: &String) -> (cost: Option<usize>)
    ensures
        match cost {
            Some(bytes) => bytes == utf8_len(text@) + utf8_len(stream@) + LINE_OVERHEAD_BYTES,
            None => utf8_len(text@) + utf8_len(stream@) + LINE_OVERHEAD_BYTES > usize::MAX,
        },
{
    let text_len: usize = byte_len(text.as_str());
    let stream_len: usize = byte_len(stream.as_str());
    match text_len.checked_add(stream_len) {
        Some(both) => both.checked_add(LINE_OVERHEAD_BYTES),
        None => None,
    }
}

/// What is retained is within both caps and is the longest run of the
/// newest entries that is: every run of the newest entries that is within
/// both caps is no longer.
pub proof fn law_retained_is_newest_suffix(entries: Seq<OutputEntry>)
    ensures
        within_caps(retained(entries)),
        retained(entries).len() <= MAX_OUTPUT_LINES,
        total_cost(retained(entries)) <= MAX_TOTAL_OUTPUT_BYTES,
        retained(entries).len() <= entries.len(),
        retained(entries) == entries.skip(entries.len() - retained(entries).len()),
        forall|k: int|
            0 <= k <= entries.len() && within_caps(#[trigger] entries.skip(k)) ==> entries.len()
                - k <= retained(entries).len(),
    decreases entries.len(),
{
    if entries.len() == 0 || within_caps(entries) {
        assert(entries.skip(0) =~= entries);
    } else {
        let rest = entries.drop_first();
        law_retained_is_newest_suffix(rest);
        let kept = retained(rest);
        assert(rest.skip(rest.len() - kept.len()) =~= entries.skip(entries.len() - kept.len()));
        assert forall|k: int|
            0 <= k <= entries.len() && within_caps(#[trigger] entries.skip(k)) implies entries.len()
            - k <= kept.len() by {
            if k == 0 {
                assert(entries.skip(0) =~= entries);
            } else {
                assert(entries.skip(k) =~= rest.skip(k - 1));
            }
        }
    }
}

/// Dropping the oldest entries before an append does not change what is
/// retained after it.
pub proof fn lemma_retained_push(entries: Seq<OutputEntry>, entry: OutputEntry)
    ensures
        retained(retained(entries).push(entry)) == retained(entries.push(entry)),
    decreases entries.len(),
{
    if entries.len() == 0 || within_caps(entries) {
    } else {
        let rest = entries.drop_first();
        lemma_total_cost_push(entries, entry);
        assert(!within_caps(entries.push(entry)));
        assert(entries.push(entry).drop_first() =~= rest.push(entry));
        lemma_retained_push(rest, entry);
    }
}

/// What a buffer holds after each of `appended` was appended to `start`, one
/// after the other.
pub open spec fn after_appends(start: Seq<OutputEntry>, appended: Seq<OutputEntry>) -> Seq<
    OutputEntry,
>
    decreases appended.len(),
{
    if appended.len() == 0 {
        start
    } else {
        retained(after_appends(start, appended.drop_last()).push(appended.last()))
    }
}

/// After any sequence of appends, a buffer holds what is retained of
/// everything it ever held: the newest entries, as many as fit both caps.
pub proof fn law_appends_keep_newest(start: Seq<OutputEntry>, appended: Seq<OutputEntry>)
    requires
        within_caps(start),
    ensures
        after_appends(start, appended) == retained(start + appended),
        within_caps(after_appends(start, appended)),
    decreases appended.len(),
{
    law_retained_is_newest_suffix(start + appended);
    if appended.len() == 0 {
        assert(start + appended =~= start);
    } else {
        let earlier = appended.drop_last();
        law_appends_keep_newest(start, earlier);
        lemma_retained_push(start + earlier, appended.last());
        assert((start + earlier).push(appended.last()) =~= start + appended);
    }
}

/// A line of at most [`MAX_LINE_LENGTH`] bytes is stored as it is.
pub proof fn law_short_line_is_verbatim(line: Seq<char>)
    requires
        utf8_len(line) <= MAX_LINE_LENGTH,
    ensures
        stored_text(line) == line,
{
}

/// [`boundary_at_most`] gives a character boundary within the limit.
pub proof fn lemma_boundary_at_most(bytes: Seq<u8>, limit: int)
    requires
        valid_utf8(bytes),
        0 <= limit,
    ensures
        0 <= boundary_at_most(bytes, limit) <= limit,
        is_char_boundary(bytes, boundary_at_most(bytes, limit)),
    decreases limit,
{
    if limit > 0 && !is_char_boundary(bytes, limit) {
        lemma_boundary_at_most(bytes, limit - 1);
    }
}

/// A line of more than [`MAX_LINE_LENGTH`] bytes is stored as a proper
/// beginning of itself that has at most that many bytes, followed by the
/// marker.
pub proof fn law_long_line_is_cut(line: Seq<char>)
    requires
        utf8_len(line) > MAX_LINE_LENGTH,
    ensures
        exists|kept: int|
            0 <= kept < line.len() && utf8_len(#[trigger] line.take(kept)) <= MAX_LINE_LENGTH
                && stored_text(line) == line.take(kept) + truncation_marker(),
{
    broadcast use {encode_utf8_valid_utf8, encode_utf8_decode_utf8};

    let bytes = encode_utf8(line);
    let cut = boundary_at_most(bytes, MAX_LINE_LENGTH as int);
    lemma_boundary_at_most(bytes, MAX_LINE_LENGTH as int);
    let head = bytes.subrange(0, cut);
    let tail = bytes.subrange(cut, bytes.len() as int);
    valid_utf8_split(bytes, cut);
    decode_utf8_split(bytes, cut);
    decode_utf8_encode_utf8(head);
    decode_utf8_encode_utf8(tail);
    let front = decode_utf8(head);
    assert(line =~= front + decode_utf8(tail));
    assert(line.take(front.len() as int) =~= front);
    assert(encode_utf8(front) == head);
    if front.len() == line.len() {
        assert(decode_utf8(tail).len() == 0);
        assert(encode_utf8(decode_utf8(tail)) =~= Seq::<u8>::empty());
        assert(tail.len() == 0);
    }
    assert(utf8_len(line.take(front.len() as int)) <= MAX_LINE_LENGTH);
}

/// The captured output of one process.
pub struct ProcessOutput {
    lines: Vec<(i64, String, String)>,
    total_bytes: usize,
}

impl View for ProcessOutput {
    type V = Seq<OutputEntry>;

    closed spec fn view(&self) -> Seq<OutputEntry> {
        entries_of(self.lines@)
    }
}

impl Default for ProcessOutput {
    /// An empty buffer.
    fn default() -> (output: Self)
        ensures
            output.wf(),
            output@ == Seq::<OutputEntry>::empty(),
    {
        ProcessOutput::new()
    }
}

impl ProcessOutput {
    /// The buffer is within both caps and its running size is the cost of
    /// what it holds.
    pub closed spec fn wf(&self) -> bool {
        &&& within_caps(self@)
        &&& self.total_bytes == total_cost(self@)
    }

    /// An empty buffer.
    pub fn new() -> (output: Self)
        ensures
            output.wf(),
            output@ == Seq::<OutputEntry>::empty(),
    {
        let output = ProcessOutput { lines: Vec::new(), total_bytes: 0 };
        assert(output@ =~= Seq::<OutputEntry>::empty());
        output
    }

    /// Empties the buffer.
    pub fn clear(&mut self)
        ensures
            final(self).wf(),
            final(self)@ == Seq::<OutputEntry>::empty(),
    {
        self.lines.clear();
        self.total_bytes = 0;
        assert(self@ =~= Seq::<OutputEntry>::empty());
    }

    /// Drops the oldest line.
    fn evict_oldest(&mut self)
        requires
            old(self).lines.len() > 0,
            old(self).total_bytes == total_cost(old(self)@),
        ensures
            final(self)@ == old(self)@.drop_first(),
            final(self).total_bytes == total_cost(final(self)@),
    {
        let oldest = &self.lines[0];
        let oldest_cost: usize = byte_len(oldest.2.as_str()) + byte_len(oldest.1.as_str())
            + LINE_OVERHEAD_BYTES;
        self.total_bytes = self.total_bytes - oldest_cost;
        self.lines.remove(0);
        assert(self@ =~= old(self)@.drop_first());
    }

    /// Appends one captured line. A line of more than [`MAX_LINE_LENGTH`]
    /// bytes is cut and marked; then the oldest lines leave until both caps
    /// hold again.
    pub fn push_line(&mut self, timestamp: i64, output_type: String, line: String)
        requires
            old(self).wf(),
        ensures
            final(self).wf(),
            final(self)@ == retained(
                old(self)@.push(stored_entry(timestamp, output_type@, line@)),
            ),
    {
        let ghost entry = stored_entry(timestamp, output_type@, line@);
        let ghost all = old(self)@.push(entry);
        let stored = store_line(line);
        let grown: Option<usize> = match line_cost(&output_type, &stored) {
            Some(cost) => self.total_bytes.checked_add(cost),
            None => None,
        };
        proof {
            lemma_total_cost_push(old(self)@, entry);
        }
        match grown {
            None => {
                proof {
                    lemma_retained_drops_oversized(old(self)@, entry);
                }
                self.lines.clear();
                self.total_bytes = 0;
                assert(self@ =~= Seq::<OutputEntry>::empty());
            },
            Some(total) => {
                self.lines.push((timestamp, output_type, stored));
                self.total_bytes = total;
                assert(self@ =~= all);
                while self.lines.len() > MAX_OUTPUT_LINES
                    invariant
                        self.total_bytes == total_cost(self@),
                        retained(self@) == retained(all),
                    decreases self.lines.len(),
                {
                    self.evict_oldest();
                }
                while self.total_bytes > MAX_TOTAL_OUTPUT_BYTES && self.lines.len() > 0
                    invariant
                        self.lines.len() <= MAX_OUTPUT_LINES,
                        self.total_bytes == total_cost(self@),
                        retained(self@) == retained(all),
                    decreases self.lines.len(),
                {
                    self.evict_oldest();
                }
            },
        }
    }

    /// The number of lines held.
    pub fn len(&self) -> (len: usize)
        ensures
            len == self@.len(),
    {
        self.lines.len()
    }

    /// Whether no line is held.
    pub fn is_empty(&self) -> (empty: bool)
        ensures
            empty == (self@.len() == 0),
    {
        self.lines.len() == 0
    }

    /// The bytes that the lines held count for.
    pub fn total_bytes(&self) -> (bytes: usize)
        requires
            self.wf(),
        ensures
            bytes == total_cost(self@),
    {
        self.total_bytes
    }

    /// The lines held, oldest first: time, stream kind and text of each.
    pub fn lines(&self) -> (lines: &Vec<(i64, String, String)>)
        ensures
            entries_of(lines@) == self@,
    {
        &self.lines
    }
}

} // verus!
