//! Framing of the event stream: each frame is a block of text lines; the
//! first line carrying the `data:` prefix holds one JSON-encoded event.
//! The prefix (repeated, as the stream writer may stack it) is stripped and
//! the payload trimmed; a frame without a non-empty payload carries no
//! event.

use vstd::prelude::*;
use crate::chars::{is_space, is_space_char, chars_of, slice_range};
use crate::message::{Message, MessageV, spec_parse_message, parse_message};
use crate::wire::{lit_at, at_lit};

verus! {

/// The end (exclusive) of the line starting at `p`: the first newline at
/// or after it, or the end of the text.
pub open spec fn line_end(v: Seq<char>, p: int) -> int
    decreases v.len() - p when 0 <= p <= v.len()
{
    if p < v.len() && v[p] != '\n' {
        line_end(v, p + 1)
    } else {
        p
    }
}

pub proof fn lemma_line_end(v: Seq<char>, p: int)
    requires
        0 <= p <= v.len(),
    ensures
        p <= line_end(v, p) <= v.len(),
        forall|k: int| p <= k < line_end(v, p) ==> v[k] != '\n',
        line_end(v, p) < v.len() ==> v[line_end(v, p)] == '\n',
    decreases v.len() - p,
{
    if p < v.len() && v[p] != '\n' {
        lemma_line_end(v, p + 1);
    }
}

/// Any newline-free stretch from `p` that stops at a newline or at the end
/// stops exactly at `line_end`.
pub proof fn lemma_line_end_unique(v: Seq<char>, p: int, j: int)
    requires
        0 <= p <= j <= v.len(),
        forall|k: int| p <= k < j ==> v[k] != '\n',
        j == v.len() || v[j] == '\n',
    ensures
        line_end(v, p) == j,
    decreases v.len() - p,
{
    if p < j {
        lemma_line_end_unique(v, p + 1, j);
    }
}

/// One trailing carriage return is not part of the line.
pub open spec fn strip_cr(l: Seq<char>) -> Seq<char> {
    if l.len() > 0 && l.last() == '\r' {
        l.drop_last()
    } else {
        l
    }
}

/// Whether the line carries the `data:` prefix.
pub open spec fn data_prefixed(l: Seq<char>) -> bool {
    l.len() >= 5 && l.subrange(0, 5) == "data:"@
}

/// The line with every leading `data:` prefix removed.
pub open spec fn strip_data(l: Seq<char>) -> Seq<char>
    decreases l.len(),
{
    if data_prefixed(l) {
        strip_data(l.subrange(5, l.len() as int))
    } else {
        l
    }
}

/// The first non-space position in `[p, e)`, or `e`.
pub open spec fn span_to(v: Seq<char>, p: int, e: int) -> int
    decreases e - p when 0 <= p <= e
{
    if p < e && is_space(v[p]) {
        span_to(v, p + 1, e)
    } else {
        p
    }
}

pub proof fn lemma_span_to_unique(v: Seq<char>, p: int, e: int, j: int)
    requires
        0 <= p <= j <= e,
        forall|k: int| p <= k < j ==> is_space(v[k]),
        j == e || !is_space(v[j]),
    ensures
        span_to(v, p, e) == j,
    decreases e - p,
{
    if p < j {
        lemma_span_to_unique(v, p + 1, e, j);
    }
}

/// The end (exclusive) of the text once trailing spaces in `[p, b)` are
/// dropped.
pub open spec fn back_span(v: Seq<char>, p: int, b: int) -> int
    decreases b - p when 0 <= p <= b
{
    if b > p && is_space(v[b - 1]) {
        back_span(v, p, b - 1)
    } else {
        b
    }
}

pub proof fn lemma_back_span_unique(v: Seq<char>, p: int, b: int, j: int)
    requires
        0 <= p <= j <= b,
        forall|k: int| j <= k < b ==> is_space(v[k]),
        j == p || !is_space(v[j - 1]),
    ensures
        back_span(v, p, b) == j,
    decreases b - p,
{
    if b > j {
        assert(is_space(v[b - 1]));
        lemma_back_span_unique(v, p, b - 1, j);
    }
}

/// The text with leading and trailing whitespace removed.
pub open spec fn spec_trim(l: Seq<char>) -> Seq<char> {
    let b = back_span(l, 0, l.len() as int);
    let a = span_to(l, 0, b);
    l.subrange(a, b)
}

/// The first `data:` line of the frame, scanning from `p`, before
/// stripping and trimming.
pub open spec fn spec_find_data(v: Seq<char>, p: int) -> Option<Seq<char>>
    decreases v.len() - p when 0 <= p <= v.len() via spec_find_data_dec
{
    if p >= v.len() {
        None
    } else {
        let e = line_end(v, p);
        let l = strip_cr(v.subrange(p, e));
        if data_prefixed(l) {
            Some(l)
        } else if e >= v.len() {
            None
        } else {
            spec_find_data(v, e + 1)
        }
    }
}

#[via_fn]
proof fn spec_find_data_dec(v: Seq<char>, p: int) {
    if 0 <= p <= v.len() {
        lemma_line_end(v, p);
    }
}

/// The event payload a frame carries: its first `data:` line, with the
/// prefix stripped and the rest trimmed, when that leaves anything.
pub open spec fn spec_extract_data(v: Seq<char>) -> Option<Seq<char>> {
    match spec_find_data(v, 0) {
        Some(l) => {
            let d = spec_trim(strip_data(l));
            if d.len() == 0 {
                None
            } else {
                Some(d)
            }
        },
        None => None,
    }
}

/// Extracts the event payload of one frame. Returns exactly what
/// [`spec_extract_data`] says.
pub fn extract_data(frame: &Vec<char>) -> (r: Option<Vec<char>>)
    ensures
        r matches Some(d) ==> spec_extract_data(frame@) == Some(d@),
        r is None ==> spec_extract_data(frame@) is None,
{
    let n = frame.len();
    let mut p: usize = 0;
    loop
        invariant
            p <= frame@.len(),
            n == frame@.len(),
            spec_find_data(frame@, 0) == spec_find_data(frame@, p as int),
        decreases frame@.len() - p,
    {
        if p >= n {
            return None;
        }
        // find the end of this line
        let mut e: usize = p;
        while e < n && frame[e] != '\n'
            invariant
                p <= e <= n,
                n == frame@.len(),
                forall|k: int| p <= k < e ==> frame@[k] != '\n',
            decreases n - e,
        {
            e = e + 1;
        }
        proof {
            lemma_line_end_unique(frame@, p as int, e as int);
        }
        // drop one trailing carriage return
        let e2: usize = if e > p && frame[e - 1] == '\r' {
            e - 1
        } else {
            e
        };
        let ghost l = strip_cr(frame@.subrange(p as int, e as int));
        proof {
            if e > p && frame@[e - 1] == '\r' {
                assert(frame@.subrange(p as int, e as int).last() == frame@[e - 1]);
                assert(frame@.subrange(p as int, e as int).drop_last() =~= frame@.subrange(
                    p as int,
                    e2 as int,
                ));
            } else if e > p {
                assert(frame@.subrange(p as int, e as int).last() == frame@[e - 1]);
            } else {
                assert(frame@.subrange(p as int, e as int).len() == 0);
            }
            assert(l =~= frame@.subrange(p as int, e2 as int));
        }
        // is it a data: line?
        let is_data: bool = e2 - p >= 5 && at_lit(frame, p, "data:");
        proof {
            reveal_strlit("data:");
            if e2 - p >= 5 {
                assert(l.subrange(0, 5) =~= frame@.subrange(p as int, p + 5));
                if lit_at(frame@, p as int, "data:"@) {
                    assert(data_prefixed(l));
                }
                if data_prefixed(l) {
                    assert(lit_at(frame@, p as int, "data:"@));
                }
            } else {
                assert(l.len() < 5);
            }
            assert(is_data == data_prefixed(l));
        }
        if is_data {
            // strip repeated prefixes
            let mut q: usize = p;
            while e2 - q >= 5 && at_lit(frame, q, "data:")
                invariant
                    p <= q <= e2 <= frame@.len(),
                    strip_data(l) == strip_data(frame@.subrange(q as int, e2 as int)),
                decreases e2 - q,
            {
                proof {
                    reveal_strlit("data:");
                    let cur = frame@.subrange(q as int, e2 as int);
                    assert(cur.subrange(0, 5) =~= frame@.subrange(q as int, q + 5));
                    assert(data_prefixed(cur));
                    assert(cur.subrange(5, cur.len() as int) =~= frame@.subrange(q + 5, e2 as int));
                }
                q = q + 5;
            }
            proof {
                reveal_strlit("data:");
                let cur = frame@.subrange(q as int, e2 as int);
                if data_prefixed(cur) {
                    assert(cur.subrange(0, 5) =~= frame@.subrange(q as int, q + 5));
                    assert(lit_at(frame@, q as int, "data:"@));
                }
                assert(strip_data(l) == cur);
            }
            // trim
            let ghost sd = strip_data(l);
            let mut b: usize = e2;
            while b > q && is_space_char(frame[b - 1])
                invariant
                    q <= b <= e2 <= frame@.len(),
                    forall|k: int| b <= k < e2 ==> is_space(frame@[k]),
                decreases b,
            {
                b = b - 1;
            }
            let mut a: usize = q;
            while a < b && is_space_char(frame[a])
                invariant
                    q <= a <= b,
                    b <= e2 <= frame@.len(),
                    forall|k: int| q <= k < a ==> is_space(frame@[k]),
                decreases b - a,
            {
                a = a + 1;
            }
            proof {
                assert forall|k: int| 0 <= k < sd.len() implies sd[k] == frame@[q + k] by {}
                lemma_back_span_unique(sd, 0, sd.len() as int, b - q);
                lemma_span_to_unique(sd, 0, b - q, a - q);
                assert(spec_trim(sd) =~= frame@.subrange(a as int, b as int));
            }
            if a == b {
                return None;
            }
            let d = slice_range(frame, a, b);
            return Some(d);
        }
        if e >= n {
            return None;
        }
        p = e + 1;
    }
}

/// What one whole frame decodes to: the parse of its payload, nothing when
/// it carries none.
pub open spec fn spec_decode_frame(v: Seq<char>) -> Option<MessageV> {
    match spec_extract_data(v) {
        Some(d) => spec_parse_message(d),
        None => None,
    }
}

/// Decodes one frame of the event stream. A frame without a payload, or
/// with one that is not a canonical event, yields `None` and is dropped by
/// the caller.
pub fn decode_frame(frame: &str) -> (r: Option<Message>)
    ensures
        r matches Some(m) ==> spec_decode_frame(frame@) == Some(m@),
        r is None ==> spec_decode_frame(frame@) is None,
{
    let cs = chars_of(frame);
    match extract_data(&cs) {
        Some(d) => parse_message(&d),
        None => None,
    }
}

} // verus!
