//! The message body on the wire: lines ended by CR LF, closed by a line that
//! holds one dot alone. A body line that starts with a dot travels with one
//! more dot in front, which the reader takes off.

use vstd::prelude::*;

verus! {

/// Carriage return.
pub const CR: u8 = 13;

/// Line feed.
pub const LF: u8 = 10;

/// The terminator character.
pub const DOT: u8 = 46;

/// A line ending starts at `i`.
pub open spec fn crlf_at(s: Seq<u8>, i: int) -> bool {
    0 <= i && i + 1 < s.len() && s[i] == CR && s[i + 1] == LF
}

/// The first index from `i` on where a line ending starts, or -1 if none does.
pub open spec fn line_end(s: Seq<u8>, i: int) -> int
    decreases s.len() - i,
{
    if i < 0 || i + 1 >= s.len() {
        -1
    } else if crlf_at(s, i) {
        i
    } else {
        line_end(s, i + 1)
    }
}

/// `s` starts with the terminator line: a dot, then CR LF.
pub open spec fn starts_with_terminator(s: Seq<u8>) -> bool {
    s.len() >= 3 && s[0] == DOT && s[1] == CR && s[2] == LF
}

/// A received body line with its stuffing dot taken off.
pub open spec fn unstuff(line: Seq<u8>) -> Seq<u8> {
    if line.len() > 0 && line[0] == DOT {
        line.drop_first()
    } else {
        line
    }
}

/// The body lines that the stream `s` carries before its terminator line,
/// unstuffed, or `None` when the stream ends before a terminator line.
pub open spec fn body_lines(s: Seq<u8>) -> Option<Seq<Seq<u8>>>
    decreases s.len() via body_lines_decreases
{
    if starts_with_terminator(s) {
        Some(Seq::empty())
    } else {
        let e = line_end(s, 0);
        if e < 0 {
            None
        } else {
            match body_lines(s.subrange(e + 2, s.len() as int)) {
                Some(rest) => Some(seq![unstuff(s.subrange(0, e))] + rest),
                None => None,
            }
        }
    }
}

#[via_fn]
proof fn body_lines_decreases(s: Seq<u8>) {
    lemma_line_end_bounds(s, 0);
}

/// Lines joined with CR LF between them, with none after the last.
pub open spec fn join_lines(ls: Seq<Seq<u8>>) -> Seq<u8>
    decreases ls.len(),
{
    if ls.len() == 0 {
        Seq::empty()
    } else if ls.len() == 1 {
        ls[0]
    } else {
        join_lines(ls.drop_last()) + seq![CR, LF] + ls.last()
    }
}

/// The body that the stream `s` carries, or `None` when it ends before the
/// terminator line.
pub open spec fn body_spec(s: Seq<u8>) -> Option<Seq<u8>> {
    match body_lines(s) {
        Some(ls) => Some(join_lines(ls)),
        None => None,
    }
}

/// A line that can stand in a body: it holds no CR LF.
pub open spec fn is_body_line(l: Seq<u8>) -> bool {
    forall|i: int| 0 <= i < l.len() ==> !crlf_at(l, i)
}

/// A body line as it travels: with one more dot in front if it starts with one.
pub open spec fn stuff(line: Seq<u8>) -> Seq<u8> {
    if line.len() > 0 && line[0] == DOT {
        seq![DOT] + line
    } else {
        line
    }
}

/// The wire form of body lines: each stuffed and ended by CR LF, then the
/// terminator line.
pub open spec fn wire_body(ls: Seq<Seq<u8>>) -> Seq<u8>
    decreases ls.len(),
{
    if ls.len() == 0 {
        seq![DOT, CR, LF]
    } else {
        stuff(ls[0]) + seq![CR, LF] + wire_body(ls.drop_first())
    }
}

/// `done` in front of what `rest` holds, if it holds anything.
pub open spec fn prepend(done: Seq<Seq<u8>>, rest: Option<Seq<Seq<u8>>>) -> Option<
    Seq<Seq<u8>>,
> {
    match rest {
        Some(r) => Some(done + r),
        None => None,
    }
}

proof fn lemma_line_end_bounds(s: Seq<u8>, i: int)
    ensures
        line_end(s, i) == -1 || (i <= line_end(s, i) && crlf_at(s, line_end(s, i))),
    decreases s.len() - i,
{
    if !(i < 0 || i + 1 >= s.len()) && !crlf_at(s, i) {
        lemma_line_end_bounds(s, i + 1);
    }
}

/// The first line ending from `i` on is at `e` when none starts before it.
proof fn lemma_line_end_found(s: Seq<u8>, i: int, e: int)
    requires
        0 <= i <= e,
        crlf_at(s, e),
        forall|k: int| i <= k < e ==> !crlf_at(s, k),
    ensures
        line_end(s, i) == e,
    decreases e - i,
{
    if i < e {
        lemma_line_end_found(s, i + 1, e);
    }
}

/// No line ending starts at `i` or after it.
proof fn lemma_line_end_none(s: Seq<u8>, i: int)
    requires
        0 <= i,
        forall|k: int| i <= k ==> !crlf_at(s, k),
    ensures
        line_end(s, i) == -1,
    decreases s.len() - i,
{
    if i + 1 < s.len() {
        lemma_line_end_none(s, i + 1);
    }
}

/// Where the first line ending of a suffix of `s` stands.
proof fn lemma_line_end_suffix(s: Seq<u8>, p: int, i: int)
    requires
        0 <= p <= s.len(),
        0 <= i,
    ensures
        line_end(s.subrange(p, s.len() as int), i) == (if line_end(s, p + i) < 0 {
            -1
        } else {
            line_end(s, p + i) - p
        }),
    decreases s.len() - (p + i),
{
    let t = s.subrange(p, s.len() as int);
    if i + 1 < t.len() {
        assert(crlf_at(t, i) == crlf_at(s, p + i));
        if !crlf_at(t, i) {
            lemma_line_end_suffix(s, p, i + 1);
        }
    }
}

/// The shape of a stream that starts with one body line and its line ending:
/// it does not start with the terminator line, and its first line ending is
/// the one after that line.
proof fn lemma_first_line_shape(a: Seq<u8>, w: Seq<u8>)
    requires
        is_body_line(a),
        a != seq![DOT],
    ensures
        ({
            let s = a + seq![CR, LF] + w;
            &&& !starts_with_terminator(s)
            &&& crlf_at(s, a.len() as int)
            &&& forall|k: int| 0 <= k < a.len() ==> !crlf_at(s, k)
            &&& s.subrange(0, a.len() as int) == a
            &&& s.subrange(a.len() as int + 2, s.len() as int) == w
        }),
{
    let s = a + seq![CR, LF] + w;
    assert forall|k: int| 0 <= k < a.len() implies !crlf_at(s, k) by {
        if k + 1 < a.len() {
            assert(!crlf_at(a, k));
        } else {
            assert(s[k + 1] == CR);
        }
    }
    if a.len() == 1 {
        assert(a =~= seq![a[0]]);
    }
    if a.len() >= 3 {
        assert(!crlf_at(a, 1));
    }
    assert(s.subrange(0, a.len() as int) =~= a);
    assert(s.subrange(a.len() as int + 2, s.len() as int) =~= w);
}

/// A body line followed by its line ending, at the front of a stream, is
/// read as that line unstuffed, and reading goes on after it.
proof fn lemma_line_then_rest(a: Seq<u8>, w: Seq<u8>)
    requires
        is_body_line(a),
        a != seq![DOT],
    ensures
        body_lines(a + seq![CR, LF] + w) == prepend(seq![unstuff(a)], body_lines(w)),
{
    let s = a + seq![CR, LF] + w;
    lemma_first_line_shape(a, w);
    lemma_line_end_found(s, 0, a.len() as int);
}

/// Stuffing keeps a body line a body line, never makes it the terminator
/// line, and unstuffing undoes it.
proof fn lemma_stuff_line(l: Seq<u8>)
    requires
        is_body_line(l),
    ensures
        is_body_line(stuff(l)),
        stuff(l) != seq![DOT],
        unstuff(stuff(l)) == l,
{
    let a = stuff(l);
    if l.len() > 0 && l[0] == DOT {
        assert forall|i: int| 0 <= i < a.len() implies !crlf_at(a, i) by {
            if i > 0 {
                assert(!crlf_at(l, i - 1));
            }
        }
        assert(a.len() >= 2);
        assert(a.drop_first() =~= l);
    } else {
        if a =~= seq![DOT] {
            assert(l[0] == DOT);
        }
    }
}

/// A body line that holds the terminator character anywhere but at its
/// start is read back exactly as it is, and the body goes on after it.
pub proof fn lemma_inner_dot_kept(line: Seq<u8>, rest: Seq<u8>)
    requires
        is_body_line(line),
        !(line.len() > 0 && line[0] == DOT),
    ensures
        body_lines(line + seq![CR, LF] + rest) == prepend(seq![line], body_lines(rest)),
{
    if line =~= seq![DOT] {
        assert(line[0] == DOT);
    }
    lemma_line_then_rest(line, rest);
}

/// Body lines, stuffed and framed for the wire, are read back unchanged, a
/// line that holds only the terminator character included.
pub proof fn lemma_stuffed_round_trip(ls: Seq<Seq<u8>>)
    requires
        forall|i: int| 0 <= i < ls.len() ==> is_body_line(#[trigger] ls[i]),
    ensures
        body_lines(wire_body(ls)) == Some(ls),
        body_spec(wire_body(ls)) == Some(join_lines(ls)),
    decreases ls.len(),
{
    if ls.len() > 0 {
        let rest = ls.drop_first();
        assert forall|i: int| 0 <= i < rest.len() implies is_body_line(#[trigger] rest[i]) by {
            assert(rest[i] == ls[i + 1]);
        }
        lemma_stuffed_round_trip(rest);
        lemma_stuff_line(ls[0]);
        lemma_line_then_rest(stuff(ls[0]), wire_body(rest));
        assert(seq![ls[0]] + rest =~= ls);
    }
}

/// A stream cut off anywhere before the end of its terminator line carries
/// no complete body.
pub proof fn lemma_truncated_incomplete(ls: Seq<Seq<u8>>, k: int)
    requires
        forall|i: int| 0 <= i < ls.len() ==> is_body_line(#[trigger] ls[i]),
        0 <= k < wire_body(ls).len(),
    ensures
        body_lines(wire_body(ls).take(k)) is None,
        body_spec(wire_body(ls).take(k)) is None,
    decreases ls.len(),
{
    let s = wire_body(ls);
    let p = s.take(k);
    if ls.len() == 0 {
        assert forall|j: int| 0 <= j implies !crlf_at(p, j) by {
            if crlf_at(p, j) {
                assert(p[0] == DOT);
            }
        }
        lemma_line_end_none(p, 0);
    } else {
        let a = stuff(ls[0]);
        let rest = ls.drop_first();
        let w = wire_body(rest);
        lemma_stuff_line(ls[0]);
        lemma_first_line_shape(a, w);
        assert(s == a + seq![CR, LF] + w);
        if p.len() >= 3 {
            assert(p[0] == s[0] && p[1] == s[1] && p[2] == s[2]);
        }
        if k <= a.len() + 1 {
            assert forall|j: int| 0 <= j implies !crlf_at(p, j) by {
                if crlf_at(p, j) {
                    assert(crlf_at(s, j));
                }
            }
            lemma_line_end_none(p, 0);
        } else {
            assert forall|j: int| 0 <= j < a.len() implies !crlf_at(p, j) by {
                if crlf_at(p, j) {
                    assert(crlf_at(s, j));
                }
            }
            assert(crlf_at(p, a.len() as int));
            lemma_line_end_found(p, 0, a.len() as int);
            assert forall|i: int| 0 <= i < rest.len() implies is_body_line(#[trigger] rest[i]) by {
                assert(rest[i] == ls[i + 1]);
            }
            let k2 = k - a.len() - 2;
            assert(p.subrange(a.len() as int + 2, p.len() as int) =~= w.take(k2));
            lemma_truncated_incomplete(rest, k2);
        }
    }
}

/// Reads the body that `stream` carries: the bytes before its terminator line,
/// with the stuffing dots taken off and the line ending that comes just before
/// the terminator line left out. `None` when the stream ends first.
pub fn read_body(stream: &[u8]) -> (r: Option<Vec<u8>>)
    ensures
        match body_spec(stream@) {
            Some(b) => r matches Some(v) && v@ == b,
            None => r is None,
        },
{
    let len = stream.len();
    let ghost s = stream@;
    let mut out: Vec<u8> = Vec::new();
    let mut pos: usize = 0;
    let ghost mut done: Seq<Seq<u8>> = Seq::empty();
    proof {
        assert(s.subrange(0, len as int) =~= s);
        match body_lines(s) {
            Some(r) => assert(done + r =~= r),
            None => {},
        }
    }
    loop
        invariant
            s == stream@,
            len == s.len(),
            pos <= len,
            out@ == join_lines(done),
            (pos == 0) == (done.len() == 0),
            body_lines(s) == prepend(done, body_lines(s.subrange(pos as int, len as int))),
        decreases len - pos,
    {
        let ghost t = s.subrange(pos as int, len as int);
        // `pos` starts a line; it may be the terminator line.
        if len - pos >= 3 && stream[pos] == DOT && stream[pos + 1] == CR && stream[pos + 2] == LF {
            assert(starts_with_terminator(t));
            assert(done + Seq::<Seq<u8>>::empty() =~= done);
            return Some(out);
        }
        assert(!starts_with_terminator(t));
        // Find the end of the line.
        let mut j: usize = pos;
        while len - j >= 2 && !(stream[j] == CR && stream[j + 1] == LF)
            invariant
                s == stream@,
                len == s.len(),
                pos <= j <= len,
                forall|k: int| pos <= k < j ==> !crlf_at(s, k),
            decreases len - j,
        {
            j = j + 1;
        }
        proof {
            lemma_line_end_suffix(s, pos as int, 0);
        }
        if len - j < 2 {
            proof {
                lemma_line_end_none(s, pos as int);
            }
            return None;
        }
        proof {
            lemma_line_end_found(s, pos as int, j as int);
        }
        let ghost e = j - pos;
        let ghost line = t.subrange(0, e);
        assert(t.subrange(e + 2, t.len() as int) =~= s.subrange(j + 2, len as int));
        let ghost before = out@;
        // Lines after the first are preceded by a line ending.
        if pos > 0 {
            out.push(CR);
            out.push(LF);
        }
        // Copy the line without its stuffing dot.
        let mut k: usize = if j > pos && stream[pos] == DOT {
            pos + 1
        } else {
            pos
        };
        let ghost start = k;
        while k < j
            invariant
                s == stream@,
                len == s.len(),
                pos <= start <= k <= j < len,
                out@ == (if pos > 0 {
                    before + seq![CR, LF]
                } else {
                    before
                }) + s.subrange(start as int, k as int),
            decreases j - k,
        {
            out.push(stream[k]);
            k = k + 1;
            assert(s.subrange(start as int, k as int) =~= s.subrange(start as int, k - 1) + seq![s[k - 1]]);
        }
        assert(unstuff(line) =~= s.subrange(start as int, j as int));
        proof {
            let l = unstuff(line);
            let r = body_lines(s.subrange(j + 2, len as int));
            match r {
                Some(rs) => {
                    assert(done + (seq![l] + rs) =~= done.push(l) + rs);
                },
                None => {},
            }
            assert(done.push(l).drop_last() =~= done);
            done = done.push(l);
        }
        pos = j + 2;
    }
}

} // verus!
