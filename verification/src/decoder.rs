//! The incremental stream decoder: raw byte chunks from the transport
//! in, ordered text fragments out.
//!
//! Each chunk is split into lines on its own (a line whose bytes span
//! two chunks is truncated at the boundary).  A line is a data line iff
//! it starts with `"data: "`; every other line is ignored without
//! error.  A data line whose payload is the sentinel `"[DONE]"` ends
//! the stream; any other payload is parsed as a frame, and the delta
//! text, when present, is emitted and accumulated.  A malformed frame
//! is skipped silently: stream liveness is preferred over strictness.

use vstd::prelude::*;
use vstd::slice::slice_subrange;
use vstd::string::StringExecFns;

verus! {

/// The bytes of the `"data: "` line prefix.
pub open spec fn data_prefix() -> Seq<u8> {
    seq![100u8, 97u8, 116u8, 97u8, 58u8, 32u8]
}

/// The bytes of the `"[DONE]"` sentinel payload.
pub open spec fn sentinel_bytes() -> Seq<u8> {
    seq![91u8, 68u8, 79u8, 78u8, 69u8, 93u8]
}

/// What parsing one frame payload yields: the delta text of the frame's
/// first candidate, or nothing when the payload is malformed or carries
/// no text.  A function of the payload bytes alone.
pub uninterp spec fn frame_delta(payload: Seq<u8>) -> Option<Seq<char>>;

/// Relies on serde_json (`from_str`, `Value::pointer`, `Value::as_str`):
/// the payload is decoded as text by `String::from_utf8_lossy` (invalid
/// byte sequences replaced, never fatal), parsed as JSON, and the delta
/// text of the first candidate is extracted; `None` when the payload is
/// malformed or carries no text.  Every call is deterministic in the
/// bytes alone.
#[verifier::external_body]
fn parse_frame(payload: &[u8]) -> (r: Option<String>)
    ensures
        (r matches Some(s) ==> frame_delta(payload@) == Some(s@)),
        (r is None ==> frame_delta(payload@) is None),
{
    let text = String::from_utf8_lossy(payload);
    let value: serde_json::Value = match serde_json::from_str(&text) {
        Ok(v) => v,
        Err(_) => return None,
    };
    match value.pointer("/choices/0/delta/content").and_then(|c| c.as_str()) {
        Some(s) => Some(s.to_string()),
        None => None,
    }
}

/// The payload of a data line, present exactly when the line starts
/// with the `"data: "` prefix.
pub open spec fn payload_of(line: Seq<u8>) -> Option<Seq<u8>> {
    if line.len() >= 6 && line.take(6) == data_prefix() {
        Some(line.skip(6))
    } else {
        None
    }
}

/// Index of the first line feed, or the length when there is none.
pub open spec fn line_break(s: Seq<u8>) -> int
    decreases s.len(),
{
    if s.len() == 0 {
        0
    } else if s[0] == 10u8 {
        0
    } else {
        1 + line_break(s.drop_first())
    }
}

/// The first line feed lies within the sequence, nothing before it is a
/// line feed, and it is one when it lies strictly inside.
proof fn lemma_line_break_bounds(s: Seq<u8>)
    ensures
        0 <= line_break(s) <= s.len(),
        forall|j: int| 0 <= j < line_break(s) ==> s[j] != 10u8,
        line_break(s) < s.len() ==> s[line_break(s)] == 10u8,
    decreases s.len(),
{
    if s.len() == 0 {
    } else if s[0] == 10u8 {
    } else {
        lemma_line_break_bounds(s.drop_first());
        assert forall|j: int| 0 <= j < line_break(s) implies s[j] != 10u8 by {
            if j > 0 {
                assert(s.drop_first()[j - 1] != 10u8);
            }
        }
    }
}

/// A position that is preceded by no line feed and is a line feed or
/// the end is the first line break.
proof fn lemma_line_break_is(s: Seq<u8>, k: int)
    requires
        0 <= k <= s.len(),
        forall|j: int| 0 <= j < k ==> s[j] != 10u8,
        k < s.len() ==> s[k] == 10u8,
    ensures
        line_break(s) == k,
    decreases s.len(),
{
    if s.len() == 0 {
    } else if k == 0 {
    } else {
        assert(s[0] != 10u8);
        assert forall|j: int| 0 <= j < k - 1 implies s.drop_first()[j] != 10u8 by {
            assert(s[j + 1] != 10u8);
        }
        if k - 1 < s.drop_first().len() {
            assert(s.drop_first()[k - 1] == s[k]);
        }
        lemma_line_break_is(s.drop_first(), k - 1);
    }
}

/// A line with one trailing carriage return removed, as the standard
/// line splitting does.
pub open spec fn chop_cr(line: Seq<u8>) -> Seq<u8> {
    if line.len() > 0 && line.last() == 13u8 {
        line.drop_last()
    } else {
        line
    }
}

/// The lines of a chunk: split at line feeds, each line feed dropped
/// and one trailing carriage return per line removed; a final line
/// needs no terminator, and a chunk ending in a line feed has no empty
/// line after it.
pub open spec fn split_lines(s: Seq<u8>) -> Seq<Seq<u8>>
    decreases s.len(),
    via split_lines_decreases
{
    if s.len() == 0 {
        Seq::empty()
    } else {
        let i = line_break(s);
        if i == s.len() {
            seq![chop_cr(s)]
        } else {
            seq![chop_cr(s.take(i))] + split_lines(s.skip(i + 1))
        }
    }
}

#[via_fn]
proof fn split_lines_decreases(s: Seq<u8>) {
    if s.len() != 0 {
        lemma_line_break_bounds(s);
    }
}

/// The fragments emitted for a sequence of lines, in order, stopping at
/// the sentinel: one fragment per data line whose frame carries text.
pub open spec fn run_frags(lines: Seq<Seq<u8>>) -> Seq<Seq<char>>
    decreases lines.len(),
{
    if lines.len() == 0 {
        Seq::empty()
    } else {
        match payload_of(lines[0]) {
            Option::None => run_frags(lines.drop_first()),
            Option::Some(p) => {
                if p == sentinel_bytes() {
                    Seq::empty()
                } else {
                    match frame_delta(p) {
                        Option::Some(t) => seq![t] + run_frags(lines.drop_first()),
                        Option::None => run_frags(lines.drop_first()),
                    }
                }
            },
        }
    }
}

/// Whether a sequence of lines reaches the sentinel.
pub open spec fn run_done(lines: Seq<Seq<u8>>) -> bool
    decreases lines.len(),
{
    if lines.len() == 0 {
        false
    } else {
        match payload_of(lines[0]) {
            Option::None => run_done(lines.drop_first()),
            Option::Some(p) => p == sentinel_bytes() || run_done(lines.drop_first()),
        }
    }
}

/// The concatenation of a sequence of fragments.
pub open spec fn concat_frags(fs: Seq<Seq<char>>) -> Seq<char>
    decreases fs.len(),
{
    if fs.len() == 0 {
        Seq::empty()
    } else {
        concat_frags(fs.drop_last()) + fs.last()
    }
}

/// How one leading line contributes to the run over a line sequence.
proof fn lemma_run_step(l: Seq<u8>, rest: Seq<Seq<u8>>)
    ensures
        run_frags(seq![l] + rest) == (match payload_of(l) {
            Option::None => run_frags(rest),
            Option::Some(p) => {
                if p == sentinel_bytes() {
                    Seq::<Seq<char>>::empty()
                } else {
                    match frame_delta(p) {
                        Option::Some(t) => seq![t] + run_frags(rest),
                        Option::None => run_frags(rest),
                    }
                }
            },
        }),
        run_done(seq![l] + rest) == (match payload_of(l) {
            Option::None => run_done(rest),
            Option::Some(p) => p == sentinel_bytes() || run_done(rest),
        }),
{
    let lines = seq![l] + rest;
    assert(lines.len() == 1 + rest.len());
    assert(lines[0] == l);
    assert(lines.drop_first() =~= rest);
}

/// Law: a line that is no data line, or whose frame is malformed or
/// carries no text, contributes nothing and is no failure: the
/// remaining lines alone decide the run.
pub proof fn lemma_line_without_text_is_skipped(l: Seq<u8>, rest: Seq<Seq<u8>>)
    requires
        match payload_of(l) {
            Some(p) => p != sentinel_bytes() && frame_delta(p) is None,
            None => true,
        },
    ensures
        run_frags(seq![l] + rest) == run_frags(rest),
        run_done(seq![l] + rest) == run_done(rest),
{
    lemma_run_step(l, rest);
}

/// Law: a sequence of lines none of which carries the sentinel payload
/// never reports completion; the stream simply ends when its chunks
/// do.
pub proof fn lemma_without_sentinel_not_done(lines: Seq<Seq<u8>>)
    requires
        forall|i: int|
            0 <= i < lines.len() ==> (match payload_of(#[trigger] lines[i]) {
                Some(p) => p != sentinel_bytes(),
                None => true,
            }),
    ensures
        !run_done(lines),
    decreases lines.len(),
{
    if lines.len() > 0 {
        assert(payload_of(lines[0]) matches Some(p) ==> p != sentinel_bytes());
        assert forall|i: int|
            0 <= i < lines.drop_first().len() implies (match payload_of(
            #[trigger] lines.drop_first()[i],
        ) {
            Some(p) => p != sentinel_bytes(),
            None => true,
        }) by {
            assert(lines.drop_first()[i] == lines[i + 1]);
        }
        lemma_without_sentinel_not_done(lines.drop_first());
    }
}

/// Mathematical model of the decoder: whether the sentinel was seen,
/// the fragments emitted so far in order, and the accumulated reply.
pub struct DecoderView {
    pub done: bool,
    pub emitted: Seq<Seq<char>>,
    pub reply: Seq<char>,
}

/// The transient cursor of one in-flight streaming call.  It is fed
/// the raw byte chunks one by one and hands back the text fragments in
/// arrival order; it is discarded when the call completes or fails.
pub struct StreamDecoder {
    done: bool,
    accumulated: String,
    emitted: Ghost<Seq<Seq<char>>>,
}

impl View for StreamDecoder {
    type V = DecoderView;

    closed spec fn view(&self) -> DecoderView {
        DecoderView { done: self.done, emitted: self.emitted@, reply: self.accumulated@ }
    }
}

impl StreamDecoder {
    /// The accumulated reply is always exactly the concatenation of the
    /// fragments emitted so far.
    pub open spec fn wf(&self) -> bool {
        self@.reply == concat_frags(self@.emitted)
    }

    /// A fresh cursor: nothing seen, nothing emitted.
    pub fn new() -> (d: StreamDecoder)
        ensures
            d@.done == false,
            d@.emitted == Seq::<Seq<char>>::empty(),
            d@.reply == Seq::<char>::empty(),
            d.wf(),
    {
        StreamDecoder { done: false, accumulated: String::new(), emitted: Ghost(Seq::empty()) }
    }

    /// Whether the sentinel has been observed.
    pub fn is_done(&self) -> (b: bool)
        ensures
            b == self@.done,
    {
        self.done
    }

    /// The reply accumulated so far.
    pub fn reply(&self) -> (r: &String)
        ensures
            r@ == self@.reply,
    {
        &self.accumulated
    }

    /// Consumes the cursor, yielding the accumulated reply.
    pub fn into_reply(self) -> (r: String)
        ensures
            r@ == self@.reply,
    {
        self.accumulated
    }

    /// Feeds one raw chunk.  The fragments of the chunk's data lines
    /// are returned in arrival order and appended to the accumulated
    /// reply; lines after the sentinel are not read, and a cursor that
    /// has seen the sentinel ignores further chunks.
    pub fn feed_chunk(&mut self, chunk: &[u8]) -> (frags: Vec<String>)
        requires
            old(self).wf(),
        ensures
            final(self).wf(),
            old(self)@.done ==> final(self)@ == old(self)@ && frags@.len() == 0,
            !old(self)@.done ==> ({
                let fs = run_frags(split_lines(chunk@));
                &&& frags.deep_view() == fs
                &&& final(self)@.emitted == old(self)@.emitted + fs
                &&& final(self)@.reply == old(self)@.reply + concat_frags(fs)
                &&& final(self)@.done == run_done(split_lines(chunk@))
            }),
    {
        let mut frags: Vec<String> = Vec::new();
        if self.done {
            return frags;
        }
        let n = chunk.len();
        let ghost all_lines = split_lines(chunk@);
        let mut start: usize = 0;
        proof {
            assert(chunk@.skip(0) =~= chunk@);
            assert(frags.deep_view() =~= Seq::<Seq<char>>::empty());
            assert(frags.deep_view() + run_frags(all_lines) =~= run_frags(all_lines));
            assert(self@.emitted + frags.deep_view() =~= self@.emitted);
            assert(self@.reply + concat_frags(frags.deep_view()) =~= self@.reply);
        }
        while start < n
            invariant
                start <= n,
                n == chunk@.len(),
                old(self).wf(),
                self.wf(),
                self@.done == false,
                old(self)@.done == false,
                all_lines == split_lines(chunk@),
                run_frags(all_lines) == frags.deep_view() + run_frags(
                    split_lines(chunk@.skip(start as int)),
                ),
                run_done(all_lines) == run_done(split_lines(chunk@.skip(start as int))),
                self@.emitted == old(self)@.emitted + frags.deep_view(),
                self@.reply == old(self)@.reply + concat_frags(frags.deep_view()),
            decreases n - start,
        {
            let ghost rest = chunk@.skip(start as int);
            let mut end: usize = start;
            while end < n && chunk[end] != 10u8
                invariant
                    start <= end <= n,
                    n == chunk@.len(),
                    forall|j: int| start <= j < end ==> chunk@[j] != 10u8,
                decreases n - end,
            {
                end = end + 1;
            }
            let mut stop: usize = end;
            if stop > start && chunk[stop - 1] == 13u8 {
                stop = stop - 1;
            }
            let ghost line = chunk@.subrange(start as int, stop as int);
            let ghost next = if end < n {
                end + 1
            } else {
                n as int
            };
            let ghost rest_lines = split_lines(chunk@.skip(next));
            proof {
                assert(rest.len() == n - start);
                assert forall|k: int| 0 <= k < end - start implies rest[k] != 10u8 by {
                    assert(rest[k] == chunk@[k + start]);
                }
                if end < n {
                    assert(rest[end - start] == chunk@[end as int]);
                }
                lemma_line_break_is(rest, end - start);
                // the first line of the remainder is exactly `line`
                if stop < end {
                    assert(chunk@[end - 1] == 13u8);
                }
                if end == n {
                    assert(chunk@.skip(next) =~= Seq::<u8>::empty());
                    assert(rest_lines =~= Seq::<Seq<u8>>::empty());
                    assert(chop_cr(rest) =~= line);
                    assert(split_lines(rest) == seq![line]);
                    assert(seq![line] =~= seq![line] + rest_lines);
                } else {
                    assert(rest.take(end - start) =~= chunk@.subrange(start as int, end as int));
                    assert(chop_cr(rest.take(end - start)) =~= line);
                    assert(rest.skip(end - start + 1) =~= chunk@.skip(next));
                    assert(split_lines(rest) == seq![line] + rest_lines);
                }
                lemma_run_step(line, rest_lines);
            }
            let is_data = is_data_line(chunk, start, stop);
            if is_data {
                let ghost payload_view = line.skip(6);
                proof {
                    assert(payload_view =~= chunk@.subrange(start + 6, stop as int));
                }
                if is_sentinel_payload(chunk, start + 6, stop) {
                    self.done = true;
                    proof {
                        assert(payload_of(line) == Some(payload_view));
                        assert(run_frags(split_lines(rest)) =~= Seq::<Seq<char>>::empty());
                        assert(run_done(split_lines(rest)));
                        assert(frags.deep_view() + Seq::<Seq<char>>::empty() =~= frags.deep_view());
                    }
                    return frags;
                }
                let payload = slice_subrange(chunk, start + 6, stop);
                proof {
                    assert(payload@ == payload_view);
                    assert(payload_view != sentinel_bytes());
                }
                match parse_frame(payload) {
                    Option::Some(text) => {
                        let ghost tview = text@;
                        let ghost old_frags = frags.deep_view();
                        let ghost old_emitted = self.emitted@;
                        self.accumulated.append(text.as_str());
                        proof {
                            self.emitted@ = self.emitted@.push(tview);
                        }
                        frags.push(text);
                        proof {
                            assert(frags.deep_view() =~= old_frags.push(tview));
                            assert(concat_frags(old_frags.push(tview)) == concat_frags(old_frags)
                                + tview) by {
                                assert(old_frags.push(tview).drop_last() =~= old_frags);
                                assert(old_frags.push(tview).last() == tview);
                            };
                            assert(concat_frags(old_emitted.push(tview)) == concat_frags(
                                old_emitted,
                            ) + tview) by {
                                assert(old_emitted.push(tview).drop_last() =~= old_emitted);
                                assert(old_emitted.push(tview).last() == tview);
                            };
                            assert(self@.emitted =~= old(self)@.emitted + frags.deep_view());
                            assert(run_frags(split_lines(rest)) == seq![tview] + run_frags(
                                rest_lines,
                            ));
                            assert(old_frags.push(tview) + run_frags(rest_lines) =~= old_frags + (
                            seq![tview] + run_frags(rest_lines)));
                        }
                    },
                    Option::None => {
                        proof {
                            assert(run_frags(split_lines(rest)) == run_frags(rest_lines));
                            assert(run_done(split_lines(rest)) == run_done(rest_lines));
                        }
                    },
                }
            } else {
                proof {
                    assert(payload_of(line) is None);
                    assert(run_frags(split_lines(rest)) == run_frags(rest_lines));
                    assert(run_done(split_lines(rest)) == run_done(rest_lines));
                }
            }
            if end < n {
                start = end + 1;
            } else {
                start = n;
            }
        }
        proof {
            assert(chunk@.skip(start as int) =~= Seq::<u8>::empty());
            assert(run_frags(split_lines(chunk@.skip(start as int))) =~= Seq::<Seq<char>>::empty());
            assert(frags.deep_view() + Seq::<Seq<char>>::empty() =~= frags.deep_view());
        }
        frags
    }
}

/// Whether the bytes `[start, stop)` form a data line: at least six
/// bytes long and starting with the `"data: "` prefix.
fn is_data_line(chunk: &[u8], start: usize, stop: usize) -> (r: bool)
    requires
        start <= stop <= chunk@.len(),
    ensures
        r == (payload_of(chunk@.subrange(start as int, stop as int)) is Some),
{
    let ghost line = chunk@.subrange(start as int, stop as int);
    if stop - start < 6 {
        return false;
    }
    let r = chunk[start] == 100u8 && chunk[start + 1] == 97u8 && chunk[start + 2] == 116u8
        && chunk[start + 3] == 97u8 && chunk[start + 4] == 58u8 && chunk[start + 5] == 32u8;
    proof {
        if r {
            assert(line.take(6) =~= data_prefix());
        } else {
            assert(line.take(6) != data_prefix()) by {
                if line.take(6) == data_prefix() {
                    assert(line.take(6)[0] == chunk@[start as int]);
                    assert(line.take(6)[1] == chunk@[start + 1]);
                    assert(line.take(6)[2] == chunk@[start + 2]);
                    assert(line.take(6)[3] == chunk@[start + 3]);
                    assert(line.take(6)[4] == chunk@[start + 4]);
                    assert(line.take(6)[5] == chunk@[start + 5]);
                }
            }
        }
    }
    r
}

/// Whether the bytes `[pstart, stop)` are exactly the `"[DONE]"`
/// sentinel.
fn is_sentinel_payload(chunk: &[u8], pstart: usize, stop: usize) -> (r: bool)
    requires
        pstart <= stop <= chunk@.len(),
    ensures
        r == (chunk@.subrange(pstart as int, stop as int) == sentinel_bytes()),
{
    let ghost p = chunk@.subrange(pstart as int, stop as int);
    if stop - pstart != 6 {
        proof {
            assert(p != sentinel_bytes()) by {
                if p == sentinel_bytes() {
                    assert(p.len() == 6);
                }
            }
        }
        return false;
    }
    let r = chunk[pstart] == 91u8 && chunk[pstart + 1] == 68u8 && chunk[pstart + 2] == 79u8
        && chunk[pstart + 3] == 78u8 && chunk[pstart + 4] == 69u8 && chunk[pstart + 5] == 93u8;
    proof {
        if r {
            assert(p =~= sentinel_bytes());
        } else {
            assert(p != sentinel_bytes()) by {
                if p == sentinel_bytes() {
                    assert(p[0] == chunk@[pstart as int]);
                    assert(p[1] == chunk@[pstart + 1]);
                    assert(p[2] == chunk@[pstart + 2]);
                    assert(p[3] == chunk@[pstart + 3]);
                    assert(p[4] == chunk@[pstart + 4]);
                    assert(p[5] == chunk@[pstart + 5]);
                }
            }
        }
    }
    r
}

} // verus!
