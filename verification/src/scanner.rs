//! Incremental log tailer.
//!
//! A [`FileScanner`] tracks how much of a growing, append-only log file has
//! been consumed. The caller reads the newly appended bytes and hands them
//! in; the scanner splits them into lines, classifies each complete line,
//! and carries a trailing partial line over to the next read so that no
//! event is emitted for a fragment and no bytes are lost at a read boundary.

use vstd::prelude::*;
use crate::classify::{classify, classify_spec, LogEvent};

verus! {

/// The line separator byte.
pub const NEWLINE: u8 = 10;

/// Errors of the tailer itself.
#[derive(Clone, Copy, Debug, PartialEq, Eq, Structural)]
pub enum TailError {
    /// The file is shorter than the bytes already consumed: it shrank, which
    /// an append-only tailer does not support.
    TailInvariantViolation,
    /// Fewer bytes could be read than the file length promised; the missing
    /// bytes stay pending for the next wake-up.
    ShortRead,
}

/// The bytes after the last line separator: a partial line that must not be
/// classified yet.
pub open spec fn trailing_fragment(b: Seq<u8>) -> Seq<u8>
    decreases b.len(),
{
    if b.len() == 0 {
        Seq::empty()
    } else if b.last() == NEWLINE {
        Seq::empty()
    } else {
        trailing_fragment(b.drop_last()).push(b.last())
    }
}

/// The complete lines of `b`, in order: each run of bytes ended by a line
/// separator, without the separator itself.
pub open spec fn complete_lines(b: Seq<u8>) -> Seq<Seq<u8>>
    decreases b.len(),
{
    if b.len() == 0 {
        Seq::empty()
    } else if b.last() == NEWLINE {
        complete_lines(b.drop_last()).push(trailing_fragment(b.drop_last()))
    } else {
        complete_lines(b.drop_last())
    }
}

/// The classified lines, in order: each complete line that carries an event,
/// paired with its bytes. Lines carrying no event are dropped.
pub open spec fn classified_of(lines: Seq<Seq<u8>>) -> Seq<(LogEvent, Seq<u8>)>
    decreases lines.len(),
{
    if lines.len() == 0 {
        Seq::empty()
    } else {
        let rest = classified_of(lines.drop_last());
        match classify_spec(lines.last()) {
            Some(e) => rest.push((e, lines.last())),
            None => rest,
        }
    }
}

/// The events carried by the complete lines of a byte sequence.
pub open spec fn events_of(b: Seq<u8>) -> Seq<(LogEvent, Seq<u8>)> {
    classified_of(complete_lines(b))
}

/// A classified line: the event it carries and its bytes, kept as a
/// diagnostic payload.
pub struct ClassifiedLine {
    pub event: LogEvent,
    pub line: Vec<u8>,
}

impl View for ClassifiedLine {
    type V = (LogEvent, Seq<u8>);

    open spec fn view(&self) -> (LogEvent, Seq<u8>) {
        (self.event, self.line@)
    }
}

/// Read-offset tracker for one append-only log file.
pub struct FileScanner {
    /// Exclusive upper bound of the bytes already consumed.
    pub last_byte_read: u64,
    /// Trailing partial line of the previous read, to be prefixed onto the
    /// next one.
    pub carry: Vec<u8>,
}

impl FileScanner {
    /// A scanner starting at the file's current length, so that pre-existing
    /// content is never replayed.
    pub fn create(initial_len: u64) -> (s: FileScanner)
        ensures
            s.last_byte_read == initial_len,
            s.carry@ == Seq::<u8>::empty(),
    {
        FileScanner { last_byte_read: initial_len, carry: Vec::new() }
    }

    /// Plan the next read for a file that now has `file_len` bytes: the
    /// number of newly appended bytes, counted from the consumed offset.
    ///
    /// A file shorter than the consumed offset has shrunk; that fails with
    /// [`TailError::TailInvariantViolation`], and the scanner resets to the
    /// new length (dropping the stale carried fragment) so that later
    /// wake-ups do not fail again. Content before the new length is then
    /// permanently skipped.
    pub fn prepare_read(&mut self, file_len: u64) -> (r: Result<u64, TailError>)
        ensures
            old(self).last_byte_read <= file_len ==> {
                &&& r == Ok::<u64, TailError>((file_len - old(self).last_byte_read) as u64)
                &&& *final(self) == *old(self)
            },
            old(self).last_byte_read > file_len ==> {
                &&& r == Err::<u64, TailError>(TailError::TailInvariantViolation)
                &&& final(self).last_byte_read == file_len
                &&& final(self).carry@ == Seq::<u8>::empty()
            },
    {
        if file_len < self.last_byte_read {
            self.last_byte_read = file_len;
            self.carry = Vec::new();
            Err(TailError::TailInvariantViolation)
        } else {
            Ok(file_len - self.last_byte_read)
        }
    }

    /// Consume the bytes newly appended up to `file_len`: prefix the carried
    /// fragment, split on line separators, classify each complete line, and
    /// keep the trailing fragment for the next read.
    ///
    /// Exactly the complete lines of the carried fragment plus the delta are
    /// classified; the fragment after the last separator is emitted for no
    /// event and becomes the new carry.
    pub fn handle_event(&mut self, delta: Vec<u8>, file_len: u64) -> (events: Vec<ClassifiedLine>)
        requires
            old(self).last_byte_read + delta@.len() == file_len,
            old(self).carry@.len() + delta@.len() <= usize::MAX,
        ensures
            final(self).last_byte_read == file_len,
            final(self).carry@ == trailing_fragment(old(self).carry@ + delta@),
            events@.map_values(|c: ClassifiedLine| c@) == events_of(old(self).carry@ + delta@),
    {
        let ghost combined: Seq<u8> = old(self).carry@ + delta@;
        let mut delta = delta;
        let mut buf: Vec<u8> = Vec::new();
        buf.append(&mut self.carry);
        buf.append(&mut delta);
        assert(buf@ == combined);

        let mut events: Vec<ClassifiedLine> = Vec::new();
        let mut start: usize = 0;
        let mut i: usize = 0;
        assert(combined.take(0) =~= Seq::<u8>::empty());
        assert(combined.subrange(0, 0) =~= Seq::<u8>::empty());
        assert(events@.map_values(|c: ClassifiedLine| c@) =~= Seq::<(LogEvent, Seq<u8>)>::empty());
        while i < buf.len()
            invariant
                buf@ == combined,
                0 <= start <= i <= buf@.len(),
                trailing_fragment(combined.take(i as int)) == combined.subrange(
                    start as int,
                    i as int,
                ),
                events@.map_values(|c: ClassifiedLine| c@) == classified_of(
                    complete_lines(combined.take(i as int)),
                ),
            decreases buf@.len() - i,
        {
            proof {
                assert(combined.take(i + 1).drop_last() =~= combined.take(i as int));
                assert(combined.take(i + 1).last() == combined[i as int]);
            }
            if buf[i] == NEWLINE {
                let line_slice: &[u8] = vstd::slice::slice_subrange(buf.as_slice(), start, i);
                assert(line_slice@ == trailing_fragment(combined.take(i as int)));
                proof {
                    assert(complete_lines(combined.take(i + 1)) == complete_lines(
                        combined.take(i as int),
                    ).push(trailing_fragment(combined.take(i as int))));
                    assert(complete_lines(combined.take(i + 1)).drop_last() =~= complete_lines(
                        combined.take(i as int),
                    ));
                }
                match classify(line_slice) {
                    Some(e) => {
                        let owned_line: Vec<u8> = vstd::slice::slice_to_vec(line_slice);
                        let ghost before = events@;
                        events.push(ClassifiedLine { event: e, line: owned_line });
                        proof {
                            assert(events@.map_values(|c: ClassifiedLine| c@) =~= before.map_values(
                                |c: ClassifiedLine| c@,
                            ).push((e, line_slice@)));
                        }
                    },
                    None => {
                    },
                }
                start = i + 1;
                proof {
                    assert(trailing_fragment(combined.take(i + 1)) =~= combined.subrange(
                        i + 1,
                        i + 1,
                    ));
                }
            } else {
                proof {
                    assert(trailing_fragment(combined.take(i + 1)) =~= combined.subrange(
                        start as int,
                        i + 1,
                    ));
                }
            }
            i = i + 1;
        }
        assert(combined.take(buf@.len() as int) =~= combined);
        let tail: &[u8] = vstd::slice::slice_subrange(buf.as_slice(), start, buf.len());
        self.carry = vstd::slice::slice_to_vec(tail);
        self.last_byte_read = file_len;
        events
    }
}

/// The bytes read by a run of wake-ups: the file content between each pair
/// of consecutive read offsets, in order.
pub open spec fn reads_concat(file: Seq<u8>, offsets: Seq<int>) -> Seq<u8>
    decreases offsets.len(),
{
    if offsets.len() <= 1 {
        Seq::empty()
    } else {
        reads_concat(file, offsets.drop_last()) + file.subrange(
            offsets[offsets.len() - 2],
            offsets[offsets.len() - 1],
        )
    }
}

/// Idempotent offset advancement: across repeated reads at non-decreasing
/// offsets — as [`FileScanner::prepare_read`] plans them while the file only
/// grows — the bytes read concatenate to exactly the appended byte range:
/// none dropped, none read twice.
pub proof fn lemma_reads_concatenate(file: Seq<u8>, offsets: Seq<int>)
    requires
        offsets.len() >= 1,
        forall|a: int, b: int| 0 <= a <= b < offsets.len() ==> offsets[a] <= offsets[b],
        0 <= offsets[0],
        offsets.last() <= file.len(),
    ensures
        reads_concat(file, offsets) == file.subrange(offsets[0], offsets.last()),
    decreases offsets.len(),
{
    if offsets.len() == 1 {
        assert(reads_concat(file, offsets) =~= file.subrange(offsets[0], offsets.last()));
    } else {
        let shorter = offsets.drop_last();
        assert forall|a: int, b: int| 0 <= a <= b < shorter.len() implies shorter[a]
            <= shorter[b] by {
            assert(shorter[a] == offsets[a] && shorter[b] == offsets[b]);
        }
        assert(shorter.last() == offsets[offsets.len() - 2] <= offsets.last());
        lemma_reads_concatenate(file, shorter);
        assert(reads_concat(file, offsets) =~= file.subrange(offsets[0], offsets.last()));
    }
}

/// The complete lines of a byte sequence, each closed again by the line
/// separator, in order.
pub open spec fn join_lines(lines: Seq<Seq<u8>>) -> Seq<u8>
    decreases lines.len(),
{
    if lines.len() == 0 {
        Seq::empty()
    } else {
        join_lines(lines.drop_last()) + lines.last() + seq![NEWLINE]
    }
}

/// Line splitting loses no byte: the complete lines, each closed by a
/// separator, followed by the trailing fragment, reassemble the input. So a
/// delta ending mid-line leaves that fragment's bytes in the carry, to be
/// classified once its line is complete.
pub proof fn lemma_lines_reassemble(b: Seq<u8>)
    ensures
        join_lines(complete_lines(b)) + trailing_fragment(b) == b,
    decreases b.len(),
{
    if b.len() == 0 {
        assert(join_lines(complete_lines(b)) + trailing_fragment(b) =~= b);
    } else {
        let shorter = b.drop_last();
        lemma_lines_reassemble(shorter);
        if b.last() == NEWLINE {
            assert(complete_lines(b) == complete_lines(shorter).push(trailing_fragment(shorter)));
            assert(complete_lines(b).drop_last() =~= complete_lines(shorter));
            assert(join_lines(complete_lines(b)) =~= shorter + seq![NEWLINE]);
            assert(shorter + seq![NEWLINE] =~= b);
            assert(b + trailing_fragment(b) =~= b);
        } else {
            assert(trailing_fragment(b) == trailing_fragment(shorter).push(b.last()));
            assert(join_lines(complete_lines(b)) + trailing_fragment(b) =~= (join_lines(
                complete_lines(shorter),
            ) + trailing_fragment(shorter)).push(b.last()));
            assert(shorter.push(b.last()) =~= b);
        }
    }
}

} // verus!
