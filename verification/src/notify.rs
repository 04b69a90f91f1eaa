//! Which output of a watched command is worth an event.

use crate::model::{first_items, lemma_filter_push};
use crate::outside::{compile, from_utf8_lossy, is_match, pattern_matches, regex_source, utf8_lossy};
use crate::text::{trim_line_end, without_line_end};
use crate::watch_error::WatchError;
use vstd::prelude::*;
use vstd::slice::slice_subrange;
use vstd::utf8::encode_utf8;

verus! {

/// The most output that one event carries.
pub const MAX_EVENT_BYTES: usize = 16384;

/// The longest pattern that is compiled, in bytes.
pub const MAX_PATTERN_BYTES: usize = 4096;

/// What a watcher reports.
#[derive(Debug, Clone, Copy, PartialEq, Eq, Structural)]
pub enum NotifyOn {
    Output,
    Match,
    Exit,
    /// An agent subject that is alive and waiting on the parent. An agent
    /// watcher only: a command has no such state.
    Attention,
}

impl Default for NotifyOn {
    fn default() -> (res: NotifyOn)
        ensures
            res == NotifyOn::Output,
    {
        NotifyOn::Output
    }
}

/// Selects the output of a command that is worth an event.
pub struct NotificationFilter {
    pub mode: NotifyOn,
    pub pattern: Option<regex::Regex>,
    /// The line that has not ended yet.
    pub line: Vec<u8>,
}

/// Where the piece of a chunk that starts at `start` ends: behind a line feed,
/// after as many bytes as an event carries, or with the chunk.
pub open spec fn piece_end(chunk: Seq<u8>, start: int, end: int) -> int
    decreases chunk.len() - end,
{
    if end >= chunk.len() || end > start && chunk[end - 1] == 10 || end - start
        >= MAX_EVENT_BYTES {
        end
    } else {
        piece_end(chunk, start, end + 1)
    }
}

/// The lines that a piece of output completes, and the line that is then open.
/// A line that would grow beyond what an event carries is cut before the piece.
pub open spec fn take_piece(line: Seq<u8>, piece: Seq<u8>) -> (Seq<Seq<u8>>, Seq<u8>) {
    let cut = line.len() + piece.len() > MAX_EVENT_BYTES;
    let before: Seq<Seq<u8>> = if cut {
        seq![line]
    } else {
        seq![]
    };
    let open = if cut {
        piece
    } else {
        line + piece
    };
    if open.len() == MAX_EVENT_BYTES || open.len() > 0 && open.last() == 10 {
        (before.push(open), seq![])
    } else {
        (before, open)
    }
}

/// The lines that a chunk of output completes from `start` on, and the line that
/// is then open.
pub open spec fn feed(line: Seq<u8>, chunk: Seq<u8>, start: int) -> (Seq<Seq<u8>>, Seq<u8>)
    decreases chunk.len() - start,
{
    if start < 0 || start >= chunk.len() {
        (seq![], line)
    } else {
        let end = piece_end(chunk, start, start + 1);
        if end <= start || end > chunk.len() {
            (seq![], line)
        } else {
            let taken = take_piece(line, chunk.subrange(start, end));
            let rest = feed(taken.1, chunk, end);
            (taken.0 + rest.0, rest.1)
        }
    }
}

/// Lines one after the other.
pub open spec fn joined(lines: Seq<Seq<u8>>) -> Seq<u8>
    decreases lines.len(),
{
    if lines.len() == 0 {
        seq![]
    } else {
        joined(lines.drop_last()) + lines.last()
    }
}

/// Selects the lines that a pattern matches. The end of the line is not part of
/// what is matched.
pub open spec fn hits(pattern: Option<Seq<char>>) -> spec_fn(Seq<u8>) -> bool {
    |line: Seq<u8>|
        pattern is Some && pattern_matches(
            pattern->Some_0,
            without_line_end(utf8_lossy(line)),
        )
}

/// Whether output that was collected is more than an event carries.
pub open spec fn overflows(pending: Seq<u8>, added: Seq<u8>) -> bool {
    pending.len() + added.len() > MAX_EVENT_BYTES
}

/// What an event carries of collected output.
pub open spec fn retained(pending: Seq<u8>, added: Seq<u8>) -> Seq<u8> {
    first_items(pending + added, MAX_EVENT_BYTES as nat)
}

/// What a filter holds once it has taken in a chunk of output: the open line, the
/// output that was collected, and whether some was left out.
pub open spec fn after_append(
    mode: NotifyOn,
    source: Option<Seq<char>>,
    state: (Seq<u8>, Seq<u8>, bool),
    chunk: Seq<u8>,
) -> (Seq<u8>, Seq<u8>, bool) {
    let (line, pending, truncated) = state;
    match mode {
        NotifyOn::Exit | NotifyOn::Attention => state,
        NotifyOn::Output => (
            line,
            retained(pending, chunk),
            truncated || overflows(pending, chunk),
        ),
        NotifyOn::Match => {
            let fed = feed(line, chunk, 0);
            let added = joined(fed.0.filter(hits(source)));
            (fed.1, retained(pending, added), truncated || overflows(pending, added))
        },
    }
}

/// A piece is not empty and lies within the chunk.
proof fn lemma_piece_end(chunk: Seq<u8>, start: int, end: int)
    requires
        0 <= start < end <= chunk.len(),
        end - start <= MAX_EVENT_BYTES,
    ensures
        end <= piece_end(chunk, start, end) <= chunk.len(),
        piece_end(chunk, start, end) - start <= MAX_EVENT_BYTES,
    decreases chunk.len() - end,
{
    if end >= chunk.len() || end > start && chunk[end - 1] == 10 || end - start
        >= MAX_EVENT_BYTES {
    } else {
        lemma_piece_end(chunk, start, end + 1);
    }
}

/// Joining more lines joins them behind.
pub proof fn lemma_joined_add(left: Seq<Seq<u8>>, right: Seq<Seq<u8>>)
    ensures
        joined(left + right) == joined(left) + joined(right),
    decreases right.len(),
{
    if right.len() == 0 {
        assert(left + right =~= left);
        assert(joined(left) + joined(right) =~= joined(left));
    } else {
        assert((left + right).drop_last() =~= left + right.drop_last());
        lemma_joined_add(left, right.drop_last());
        assert(joined(left) + joined(right) =~= joined(left) + joined(right.drop_last())
            + right.last());
    }
}

/// Joining one line gives the line.
proof fn lemma_joined_one(line: Seq<u8>)
    ensures
        joined(seq![line]) == line,
{
    assert(seq![line].drop_last() =~= Seq::<Seq<u8>>::empty());
    assert(joined(seq![line].drop_last()) =~= Seq::<u8>::empty());
    assert(joined(seq![line]) =~= line);
}

/// A piece of output loses nothing and keeps lines short.
proof fn lemma_take_piece(line: Seq<u8>, piece: Seq<u8>)
    requires
        line.len() < MAX_EVENT_BYTES,
        0 < piece.len() <= MAX_EVENT_BYTES,
    ensures
        joined(take_piece(line, piece).0) + take_piece(line, piece).1 == line + piece,
        take_piece(line, piece).1.len() < MAX_EVENT_BYTES,
        forall|i: int|
            0 <= i < take_piece(line, piece).0.len() ==> (
            #[trigger] take_piece(line, piece).0[i]).len() <= MAX_EVENT_BYTES,
{
    let cut = line.len() + piece.len() > MAX_EVENT_BYTES;
    let before: Seq<Seq<u8>> = if cut {
        seq![line]
    } else {
        seq![]
    };
    let open = if cut {
        piece
    } else {
        line + piece
    };
    lemma_joined_one(line);
    lemma_joined_one(open);
    assert(joined(seq![]) =~= Seq::<u8>::empty());
    assert(joined(before) + open =~= line + piece);
    if open.len() == MAX_EVENT_BYTES || open.len() > 0 && open.last() == 10 {
        assert(before.push(open) =~= before + seq![open]);
        lemma_joined_add(before, seq![open]);
        assert(joined(before.push(open)) + Seq::<u8>::empty() =~= line + piece);
    }
}

/// Feeding output loses nothing and keeps lines short: the lines that were
/// completed, followed by the line that is open, are the bytes that came in.
pub proof fn law_feed_loses_nothing(line: Seq<u8>, chunk: Seq<u8>, start: int)
    requires
        line.len() < MAX_EVENT_BYTES,
        0 <= start <= chunk.len(),
    ensures
        joined(feed(line, chunk, start).0) + feed(line, chunk, start).1 == line + chunk.skip(start),
        feed(line, chunk, start).1.len() < MAX_EVENT_BYTES,
        forall|i: int|
            0 <= i < feed(line, chunk, start).0.len() ==> (
            #[trigger] feed(line, chunk, start).0[i]).len() <= MAX_EVENT_BYTES,
    decreases chunk.len() - start,
{
    if start >= chunk.len() {
        assert(joined(seq![]) + line =~= line + chunk.skip(start));
    } else {
        lemma_piece_end(chunk, start, start + 1);
        let end = piece_end(chunk, start, start + 1);
        let piece = chunk.subrange(start, end);
        let taken = take_piece(line, piece);
        lemma_take_piece(line, piece);
        let rest = feed(taken.1, chunk, end);
        law_feed_loses_nothing(taken.1, chunk, end);
        lemma_joined_add(taken.0, rest.0);
        assert(joined(taken.0) + joined(rest.0) + rest.1 =~= joined(taken.0) + (joined(rest.0)
            + rest.1));
        assert(joined(taken.0) + (taken.1 + chunk.skip(end)) =~= (joined(taken.0) + taken.1)
            + chunk.skip(end));
        assert(line + piece + chunk.skip(end) =~= line + chunk.skip(start));
    }
}

/// Collecting in turn collects everything.
pub proof fn lemma_retained_twice(pending: Seq<u8>, first: Seq<u8>, second: Seq<u8>)
    ensures
        retained(retained(pending, first), second) == retained(pending, first + second),
        overflows(pending, first) || overflows(retained(pending, first), second) <==> overflows(
            pending,
            first,
        ) || overflows(pending, first + second),
{
    let all = pending + first;
    if all.len() <= MAX_EVENT_BYTES {
        assert(retained(pending, first) == all);
        assert(all + second =~= pending + (first + second));
    } else {
        let kept = all.take(MAX_EVENT_BYTES as int);
        assert((kept + second).take(MAX_EVENT_BYTES as int) =~= kept);
        assert((pending + (first + second)).take(MAX_EVENT_BYTES as int) =~= kept);
        if second.len() == 0 {
            assert(kept + second =~= kept);
        }
    }
}

impl NotificationFilter {
    /// A filter has a pattern exactly where it matches lines, and its open line
    /// is shorter than what an event carries and has not ended.
    pub open spec fn wf(&self) -> bool {
        &&& (self.mode == NotifyOn::Match) == (self.pattern is Some)
        &&& self.line@.len() < MAX_EVENT_BYTES
        &&& unbroken(self.line@, 0, self.line@.len() as int)
    }

    /// The pattern that lines are matched against.
    pub open spec fn source(&self) -> Option<Seq<char>> {
        match self.pattern {
            Some(regex) => Some(regex_source(regex)),
            None => None,
        }
    }

    /// A filter over a pattern that has been compiled, or why there is none.
    pub fn with_compiled(
        mode: NotifyOn,
        compiled: Option<Result<regex::Regex, regex::Error>>,
    ) -> (res: Result<NotificationFilter, WatchError>)
        ensures
            match res {
                Ok(filter) => filter.wf() && filter.mode == mode && filter.line@.len() == 0
                    && match compiled {
                    None => mode != NotifyOn::Match && filter.pattern is None,
                    Some(Ok(regex)) => mode == NotifyOn::Match && filter.pattern == Some(regex),
                    Some(Err(_)) => false,
                },
                Err(error) => if (mode == NotifyOn::Match) != (compiled is Some) {
                    error == WatchError::PatternMode
                } else {
                    error == WatchError::InvalidPattern && compiled is Some && compiled->Some_0 is Err
                },
            },
    {
        if (mode == NotifyOn::Match) != compiled.is_some() {
            return Err(WatchError::PatternMode);
        }
        match compiled {
            None => Ok(NotificationFilter { mode, pattern: None, line: Vec::new() }),
            Some(Ok(regex)) => Ok(
                NotificationFilter { mode, pattern: Some(regex), line: Vec::new() },
            ),
            Some(Err(_)) => Err(WatchError::InvalidPattern),
        }
    }

    /// A filter that reports what a mode asks for. Which patterns compile is for
    /// the regular expressions to say.
    pub fn new(mode: NotifyOn, pattern: Option<&str>) -> (res: Result<
        NotificationFilter,
        WatchError,
    >)
        ensures
            match pattern {
                None => if mode == NotifyOn::Match {
                    res == Err::<NotificationFilter, WatchError>(WatchError::PatternMode)
                } else {
                    res is Ok
                },
                Some(text) => if mode != NotifyOn::Match {
                    res == Err::<NotificationFilter, WatchError>(WatchError::PatternMode)
                } else if encode_utf8(text@).len() > MAX_PATTERN_BYTES {
                    res == Err::<NotificationFilter, WatchError>(WatchError::PatternTooLong)
                } else {
                    res matches Err(error) ==> error == WatchError::InvalidPattern
                },
            },
            res matches Ok(filter) ==> filter.wf() && filter.mode == mode && filter.line@.len() == 0
                && filter.source() == match pattern {
                Some(text) => Some(text@),
                None => None,
            },
    {
        match pattern {
            None => Self::with_compiled(mode, None),
            Some(text) => {
                if mode != NotifyOn::Match {
                    return Err(WatchError::PatternMode);
                }
                if text.as_bytes().len() > MAX_PATTERN_BYTES {
                    return Err(WatchError::PatternTooLong);
                }
                Self::with_compiled(mode, Some(compile(text)))
            },
        }
    }

    /// Collects output, up to what an event carries.
    pub fn retain(bytes: &[u8], pending: &mut Vec<u8>, truncated: &mut bool)
        requires
            old(pending)@.len() <= MAX_EVENT_BYTES,
        ensures
            final(pending)@ == retained(old(pending)@, bytes@),
            *final(truncated) == (*old(truncated) || overflows(old(pending)@, bytes@)),
    {
        let room: usize = MAX_EVENT_BYTES - pending.len();
        let ghost before = pending@;
        if room < bytes.len() {
            let kept = slice_subrange(bytes, 0, room);
            pending.extend_from_slice(kept);
            *truncated = true;
            assert(pending@ =~= retained(before, bytes@));
        } else {
            pending.extend_from_slice(bytes);
            assert(pending@ =~= retained(before, bytes@));
        }
    }

    /// Whether the open line is worth an event.
    fn line_hits(&self) -> (res: bool)
        ensures
            res == hits(self.source())(self.line@),
    {
        match &self.pattern {
            None => false,
            Some(regex) => {
                let line = from_utf8_lossy(self.line.as_slice());
                is_match(regex, trim_line_end(line.as_str()))
            },
        }
    }

    /// Ends the open line: it is collected where the pattern matches it.
    pub fn flush(&mut self, pending: &mut Vec<u8>, truncated: &mut bool)
        requires
            (old(self).mode == NotifyOn::Match) == (old(self).pattern is Some),
            old(pending)@.len() <= MAX_EVENT_BYTES,
        ensures
            final(self).wf(),
            final(self).mode == old(self).mode,
            final(self).pattern == old(self).pattern,
            final(self).line@.len() == 0,
            final(pending)@ == if hits(old(self).source())(old(self).line@) {
                retained(old(pending)@, old(self).line@)
            } else {
                old(pending)@
            },
            *final(truncated) == (*old(truncated) || hits(old(self).source())(old(self).line@)
                && overflows(old(pending)@, old(self).line@)),
    {
        if self.line_hits() {
            Self::retain(self.line.as_slice(), pending, truncated);
        }
        self.line.clear();
    }

    /// Takes one piece of output into the open line, and collects the lines that
    /// it completes where the pattern matches them.
    fn push_piece(&mut self, piece: &[u8], pending: &mut Vec<u8>, truncated: &mut bool)
        requires
            old(self).wf(),
            0 < piece@.len() <= MAX_EVENT_BYTES,
            unbroken(piece@, 0, piece@.len() - 1),
            old(pending)@.len() <= MAX_EVENT_BYTES,
        ensures
            final(self).wf(),
            final(self).mode == old(self).mode,
            final(self).pattern == old(self).pattern,
            final(self).line@ == take_piece(old(self).line@, piece@).1,
            ({
                let added = joined(
                    take_piece(old(self).line@, piece@).0.filter(hits(old(self).source())),
                );
                &&& final(pending)@ == retained(old(pending)@, added)
                &&& *final(truncated) == (*old(truncated) || overflows(old(pending)@, added))
            }),
    {
        let ghost line = self.line@;
        let ghost start = pending@;
        let ghost flagged = *truncated;
        let ghost selected = hits(self.source());
        let ghost cut = line.len() + piece@.len() > MAX_EVENT_BYTES;
        let ghost before: Seq<Seq<u8>> = if cut {
            seq![line]
        } else {
            seq![]
        };
        proof {
            lemma_take_piece(line, piece@);
            lemma_filter_push(Seq::<Seq<u8>>::empty(), line, selected);
            assert(Seq::<Seq<u8>>::empty().push(line) =~= seq![line]);
            lemma_joined_one(line);
            assert(joined(seq![]) =~= Seq::<u8>::empty());
            assert(retained(start, Seq::<u8>::empty()) =~= start);
        }
        if self.line.len() + piece.len() > MAX_EVENT_BYTES {
            self.flush(pending, truncated);
        }
        let ghost kept_before = joined(before.filter(selected));
        proof {
            lemma_joined_nothing(selected);
            assert(before.filter(selected) =~= if cut && selected(line) {
                seq![line]
            } else {
                Seq::<Seq<u8>>::empty()
            });
            assert(kept_before == if cut && selected(line) {
                line
            } else {
                Seq::<u8>::empty()
            });
            assert(pending@ == retained(start, kept_before));
            assert(*truncated == (flagged || overflows(start, kept_before)));
        }
        let ghost middle = pending@;
        self.line.extend_from_slice(piece);
        let ghost open = if cut {
            piece@
        } else {
            line + piece@
        };
        assert(self.line@ =~= open);
        assert(unbroken(open, 0, open.len() - 1)) by {
            assert forall|k: int| 0 <= k < open.len() - 1 implies #[trigger] open[k] != 10 by {
                if cut {
                    assert(piece@[k] != 10);
                } else if k < line.len() {
                    assert(line[k] != 10);
                } else {
                    assert(piece@[k - line.len()] != 10);
                }
            }
        }
        let len: usize = self.line.len();
        if self.line[len - 1] == 10 || len == MAX_EVENT_BYTES {
            proof {
                lemma_filter_push(before, open, selected);
                lemma_joined_push(before.filter(selected), open);
                lemma_retained_twice(start, kept_before, open);
                assert(retained(middle, Seq::<u8>::empty()) =~= middle);
            }
            self.flush(pending, truncated);
        }
    }

    /// Takes in a chunk of output.
    ///
    /// Lines are matched before what was collected is capped, so that a noisy
    /// batch cannot hide a later line that counts.
    pub fn append(&mut self, chunk: &[u8], pending: &mut Vec<u8>, truncated: &mut bool)
        requires
            old(self).wf(),
            old(pending)@.len() <= MAX_EVENT_BYTES,
        ensures
            final(self).wf(),
            final(self).mode == old(self).mode,
            final(self).pattern == old(self).pattern,
            (final(self).line@, final(pending)@, *final(truncated)) == after_append(
                old(self).mode,
                old(self).source(),
                (old(self).line@, old(pending)@, *old(truncated)),
                chunk@,
            ),
    {
        match self.mode {
            NotifyOn::Exit | NotifyOn::Attention => {},
            NotifyOn::Output => Self::retain(chunk, pending, truncated),
            NotifyOn::Match => self.append_lines(chunk, pending, truncated),
        }
    }

    /// Takes in a chunk of output line by line.
    fn append_lines(&mut self, chunk: &[u8], pending: &mut Vec<u8>, truncated: &mut bool)
        requires
            old(self).wf(),
            old(pending)@.len() <= MAX_EVENT_BYTES,
        ensures
            final(self).wf(),
            final(self).mode == old(self).mode,
            final(self).pattern == old(self).pattern,
            ({
                let fed = feed(old(self).line@, chunk@, 0);
                let added = joined(fed.0.filter(hits(old(self).source())));
                final(self).line@ == fed.1 && final(pending)@ == retained(old(pending)@, added)
                    && *final(truncated) == (*old(truncated) || overflows(old(pending)@, added))
            }),
    {
        let ghost fed = feed(self.line@, chunk@, 0);
        let ghost selected = hits(self.source());
        let ghost origin = pending@;
        let ghost flagged = *truncated;
        let ghost mut done: Seq<Seq<u8>> = seq![];
        let mut start: usize = 0;
        proof {
            lemma_joined_nothing(selected);
            assert(retained(origin, Seq::<u8>::empty()) =~= origin);
            assert(done + fed.0 =~= fed.0);
        }
        while start < chunk.len()
            invariant
                start <= chunk@.len(),
                self.wf(),
                self.mode == old(self).mode,
                self.pattern == old(self).pattern,
                selected == hits(self.source()),
                pending@.len() <= MAX_EVENT_BYTES,
                done + feed(self.line@, chunk@, start as int).0 == fed.0,
                feed(self.line@, chunk@, start as int).1 == fed.1,
                pending@ == retained(origin, joined(done.filter(selected))),
                *truncated == (flagged || overflows(origin, joined(done.filter(selected)))),
            decreases chunk@.len() - start,
        {
            let mut end: usize = start + 1;
            proof {
                lemma_piece_end(chunk@, start as int, start + 1);
            }
            while end < chunk.len() && chunk[end - 1] != 10 && end - start < MAX_EVENT_BYTES
                invariant
                    start < end <= chunk@.len(),
                    end - start <= MAX_EVENT_BYTES,
                    piece_end(chunk@, start as int, start + 1) == piece_end(
                        chunk@,
                        start as int,
                        end as int,
                    ),
                decreases chunk@.len() - end,
            {
                end = end + 1;
            }
            let piece = slice_subrange(chunk, start, end);
            proof {
                lemma_piece_unbroken(chunk@, start as int, start + 1);
                assert forall|k: int| 0 <= k < piece@.len() - 1 implies #[trigger] piece@[k]
                    != 10 by {
                    assert(chunk@[start + k] != 10);
                }
            }
            let ghost taken = take_piece(self.line@, piece@);
            let ghost rest = feed(taken.1, chunk@, end as int);
            let ghost kept = joined(done.filter(selected));
            let ghost more = joined(taken.0.filter(selected));
            proof {
                assert((done + taken.0) + rest.0 =~= done + (taken.0 + rest.0));
                Seq::filter_distributes_over_add(done, taken.0, selected);
                lemma_joined_add(done.filter(selected), taken.0.filter(selected));
                lemma_retained_twice(origin, kept, more);
                if overflows(origin, kept) {
                    assert(overflows(origin, kept + more));
                }
            }
            self.push_piece(piece, pending, truncated);
            proof {
                done = done + taken.0;
            }
            start = end;
        }
        assert(done + Seq::<Seq<u8>>::empty() =~= done);
    }
}

/// Joining one more line puts it behind.
proof fn lemma_joined_push(lines: Seq<Seq<u8>>, line: Seq<u8>)
    ensures
        joined(lines.push(line)) == joined(lines) + line,
{
    assert(lines.push(line).drop_last() =~= lines);
}

/// No lines join to nothing.
proof fn lemma_joined_nothing(selected: spec_fn(Seq<u8>) -> bool)
    ensures
        joined(Seq::<Seq<u8>>::empty().filter(selected)) == Seq::<u8>::empty(),
{
    reveal(Seq::filter);
    assert(Seq::<Seq<u8>>::empty().filter(selected) =~= Seq::<Seq<u8>>::empty());
}

/// Whether no line feed stands in a stretch of output.
pub open spec fn unbroken(bytes: Seq<u8>, start: int, end: int) -> bool {
    forall|k: int| start <= k < end ==> #[trigger] bytes[k] != 10
}

/// Whether every line of output is shorter than what an event carries.
pub open spec fn lines_fit(bytes: Seq<u8>) -> bool {
    forall|i: int, j: int|
        0 <= i <= j <= bytes.len() && #[trigger] unbroken(bytes, i, j) ==> j - i < MAX_EVENT_BYTES
}

/// The lines that output completes, each with its line feed, and the line that is
/// then open.
pub open spec fn lines_of(line: Seq<u8>, bytes: Seq<u8>) -> (Seq<Seq<u8>>, Seq<u8>)
    decreases bytes.len(),
{
    if bytes.len() == 0 {
        (seq![], line)
    } else {
        let before = lines_of(line, bytes.drop_last());
        let open = before.1.push(bytes.last());
        if bytes.last() == 10 {
            (before.0.push(open), seq![])
        } else {
            (before.0, open)
        }
    }
}

/// Output in two parts has the lines of both, the second begun where the first
/// left off.
proof fn lemma_lines_of_add(line: Seq<u8>, first: Seq<u8>, second: Seq<u8>)
    ensures
        lines_of(line, first + second) == ({
            let before = lines_of(line, first);
            let after = lines_of(before.1, second);
            (before.0 + after.0, after.1)
        }),
    decreases second.len(),
{
    let before = lines_of(line, first);
    if second.len() == 0 {
        assert(first + second =~= first);
        assert(before.0 + Seq::<Seq<u8>>::empty() =~= before.0);
    } else {
        let front = second.drop_last();
        lemma_lines_of_add(line, first, front);
        assert((first + second).drop_last() =~= first + front);
        let after = lines_of(before.1, front);
        let open = after.1.push(second.last());
        assert((before.0 + after.0).push(open) =~= before.0 + after.0.push(open));
    }
}

/// Output without a line feed completes no line.
proof fn lemma_lines_of_unbroken(line: Seq<u8>, bytes: Seq<u8>)
    requires
        unbroken(bytes, 0, bytes.len() as int),
    ensures
        lines_of(line, bytes) == (Seq::<Seq<u8>>::empty(), line + bytes),
    decreases bytes.len(),
{
    if bytes.len() == 0 {
        assert(line + bytes =~= line);
    } else {
        let front = bytes.drop_last();
        assert(unbroken(front, 0, front.len() as int)) by {
            assert forall|k: int| 0 <= k < front.len() implies #[trigger] front[k] != 10 by {
                assert(bytes[k] != 10);
            }
        }
        lemma_lines_of_unbroken(line, front);
        assert(bytes[bytes.len() - 1] != 10);
        assert((line + front).push(bytes.last()) =~= line + bytes);
    }
}

/// The open line holds no line feed.
proof fn lemma_open_unbroken(line: Seq<u8>, bytes: Seq<u8>)
    requires
        unbroken(line, 0, line.len() as int),
    ensures
        unbroken(lines_of(line, bytes).1, 0, lines_of(line, bytes).1.len() as int),
    decreases bytes.len(),
{
    if bytes.len() > 0 {
        lemma_open_unbroken(line, bytes.drop_last());
    }
}

/// Where lines are short, they are short in every part of the output.
proof fn lemma_part_fits(bytes: Seq<u8>, start: int, end: int)
    requires
        lines_fit(bytes),
        0 <= start <= end <= bytes.len(),
    ensures
        lines_fit(bytes.subrange(start, end)),
{
    let part = bytes.subrange(start, end);
    assert forall|i: int, j: int|
        0 <= i <= j <= part.len() && #[trigger] unbroken(part, i, j) implies j - i
        < MAX_EVENT_BYTES by {
        assert(unbroken(bytes, start + i, start + j)) by {
            assert forall|k: int| start + i <= k < start + j implies #[trigger] bytes[k] != 10 by {
                assert(part[k - start] != 10);
            }
        }
    }
}

/// A piece holds a line feed at its end alone.
proof fn lemma_piece_unbroken(chunk: Seq<u8>, start: int, end: int)
    requires
        0 <= start < end <= chunk.len(),
        end - start <= MAX_EVENT_BYTES,
        unbroken(chunk, start, end - 1),
    ensures
        unbroken(chunk, start, piece_end(chunk, start, end) - 1),
        piece_end(chunk, start, end) == chunk.len() || chunk[piece_end(chunk, start, end) - 1] == 10
            || piece_end(chunk, start, end) - start == MAX_EVENT_BYTES,
    decreases chunk.len() - end,
{
    if end >= chunk.len() || chunk[end - 1] == 10 || end - start >= MAX_EVENT_BYTES {
    } else {
        lemma_piece_unbroken(chunk, start, end + 1);
    }
}

/// Where lines are short, feeding output tells its lines apart.
pub proof fn lemma_feed_tells_lines(line: Seq<u8>, chunk: Seq<u8>, start: int)
    requires
        0 <= start <= chunk.len(),
        unbroken(line, 0, line.len() as int),
        lines_fit(line + chunk.skip(start)),
    ensures
        feed(line, chunk, start) == lines_of(line, chunk.skip(start)),
    decreases chunk.len() - start,
{
    if start < chunk.len() {
        lemma_piece_end(chunk, start, start + 1);
        lemma_piece_unbroken(chunk, start, start + 1);
        let end = piece_end(chunk, start, start + 1);
        let piece = chunk.subrange(start, end);
        let rest = chunk.skip(end);
        let all = line + chunk.skip(start);
        let length = (line.len() + piece.len()) as int;
        assert(piece + rest =~= chunk.skip(start));
        assert forall|k: int| 0 <= k < length - 1 implies #[trigger] all[k] != 10 by {
            if k < line.len() {
                assert(line[k] != 10);
            } else {
                assert(chunk[start + k - line.len()] != 10);
            }
        }
        assert(unbroken(all, 0, length - 1));
        let open = line + piece;
        assert(open.last() == chunk[end - 1]);
        assert(all[length - 1] == chunk[end - 1]);
        if open.last() != 10 {
            assert(unbroken(all, 0, length));
        }
        let taken = take_piece(line, piece);
        let front = piece.drop_last();
        assert forall|k: int| 0 <= k < front.len() implies #[trigger] front[k] != 10 by {
            assert(chunk[start + k] != 10);
        }
        lemma_lines_of_unbroken(line, front);
        assert((line + front).push(piece.last()) =~= open);
        assert(Seq::<Seq<u8>>::empty().push(open) =~= seq![].push(open));
        assert(taken == lines_of(line, piece));
        if open.last() == 10 {
            assert(all.subrange(length, all.len() as int) =~= taken.1 + rest);
            lemma_part_fits(all, length, all.len() as int);
        } else {
            assert(taken.1 + rest =~= all);
            assert(unbroken(open, 0, open.len() as int)) by {
                assert forall|k: int| 0 <= k < open.len() implies #[trigger] open[k] != 10 by {
                    assert(all[k] != 10);
                }
            }
        }
        lemma_feed_tells_lines(taken.1, chunk, end);
        lemma_lines_of_add(line, piece, rest);
    } else {
        assert(chunk.skip(start) =~= Seq::<u8>::empty());
    }
}

/// Taking in one part of output and then another is taking in both, from an open
/// line that has not ended.
proof fn lemma_two_chunks(
    mode: NotifyOn,
    source: Option<Seq<char>>,
    state: (Seq<u8>, Seq<u8>, bool),
    first: Seq<u8>,
    second: Seq<u8>,
)
    requires
        mode == NotifyOn::Match ==> unbroken(state.0, 0, state.0.len() as int) && lines_fit(
            state.0 + (first + second),
        ),
    ensures
        after_append(mode, source, after_append(mode, source, state, first), second)
            == after_append(mode, source, state, first + second),
{
    let (line, pending, truncated) = state;
    if mode == NotifyOn::Output {
        lemma_retained_twice(pending, first, second);
    } else if mode == NotifyOn::Match {
        let selected = hits(source);
        let all = line + (first + second);
        assert(first.skip(0) =~= first);
        assert(second.skip(0) =~= second);
        assert((first + second).skip(0) =~= first + second);
        let middle = (line.len() + first.len()) as int;
        assert(all.subrange(0, middle) =~= line + first);
        lemma_part_fits(all, 0, middle);
        lemma_feed_tells_lines(line, first, 0);
        lemma_open_unbroken(line, first);
        let before = feed(line, first, 0);
        assert(line.len() < MAX_EVENT_BYTES) by {
            assert(unbroken(all, 0, line.len() as int)) by {
                assert forall|k: int| 0 <= k < line.len() implies #[trigger] all[k] != 10 by {
                    assert(line[k] != 10);
                }
            }
        }
        law_feed_loses_nothing(line, first, 0);
        let done = joined(before.0);
        assert(done + before.1 == line + first);
        assert(all.subrange(done.len() as int, all.len() as int) =~= before.1 + second) by {
            assert(all =~= (line + first) + second);
            assert((done + before.1) + second =~= done + (before.1 + second));
        }
        lemma_part_fits(all, done.len() as int, all.len() as int);
        lemma_feed_tells_lines(before.1, second, 0);
        lemma_feed_tells_lines(line, first + second, 0);
        lemma_lines_of_add(line, first, second);
        let after = feed(before.1, second, 0);
        Seq::filter_distributes_over_add(before.0, after.0, selected);
        lemma_joined_add(before.0.filter(selected), after.0.filter(selected));
        let one = joined(before.0.filter(selected));
        let two = joined(after.0.filter(selected));
        lemma_retained_twice(pending, one, two);
    }
}

/// How output is cut into chunks does not matter as long as its lines are shorter
/// than what an event carries: taking in one part and then another leaves the
/// filter, the collected output and whether some was left out as taking in both at
/// once does. Where lines are not matched their length does not matter either.
pub proof fn law_chunks_do_not_matter(
    filter: NotificationFilter,
    pending: Seq<u8>,
    truncated: bool,
    first: Seq<u8>,
    second: Seq<u8>,
)
    requires
        filter.wf(),
        filter.mode == NotifyOn::Match ==> lines_fit(filter.line@ + (first + second)),
    ensures
        ({
            let state = (filter.line@, pending, truncated);
            let once = after_append(filter.mode, filter.source(), state, first);
            after_append(filter.mode, filter.source(), once, second) == after_append(
                filter.mode,
                filter.source(),
                state,
                first + second,
            )
        }),
{
    lemma_two_chunks(
        filter.mode,
        filter.source(),
        (filter.line@, pending, truncated),
        first,
        second,
    );
}

} // verus!
