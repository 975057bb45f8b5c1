//! The product-change stream: the server pushes server-sent events whose
//! `data: ` lines carry the product list as JSON. This module picks those
//! payloads out of a received chunk of text; decoding the JSON and updating
//! the screen is left to the caller.
use vstd::prelude::*;

use crate::text::{string_of, to_chars};

verus! {

/// `line` without one `'\r'` at its end.
pub open spec fn strip_cr(line: Seq<char>) -> Seq<char> {
    if line.len() > 0 && line.last() == '\r' {
        line.drop_last()
    } else {
        line
    }
}

/// The lines of `s`, given that `cur` was begun before `s` and not ended:
/// a line ends at `'\n'`, and then also loses one `'\r'` before it; a last
/// line without `'\n'` counts when it is not empty (std's `str::lines`).
pub open spec fn lines_from(s: Seq<char>, cur: Seq<char>) -> Seq<Seq<char>>
    decreases s.len(),
{
    if s.len() == 0 {
        if cur.len() == 0 {
            Seq::empty()
        } else {
            seq![cur]
        }
    } else if s[0] == '\n' {
        seq![strip_cr(cur)] + lines_from(s.drop_first(), Seq::empty())
    } else {
        lines_from(s.drop_first(), cur.push(s[0]))
    }
}

/// The lines of `s`.
pub open spec fn lines_of(s: Seq<char>) -> Seq<Seq<char>> {
    lines_from(s, Seq::empty())
}

/// The marker of an event's data line.
pub open spec fn data_prefix() -> Seq<char> {
    seq!['d', 'a', 't', 'a', ':', ' ']
}

/// What `line` contributes: the text after `data: ` when it starts so.
pub open spec fn payload_of(line: Seq<char>) -> Seq<Seq<char>> {
    if line.len() >= 6 && line.take(6) == data_prefix() {
        seq![line.skip(6)]
    } else {
        Seq::empty()
    }
}

/// The payloads of `lines`, in order.
pub open spec fn payloads(lines: Seq<Seq<char>>) -> Seq<Seq<char>>
    decreases lines.len(),
{
    if lines.len() == 0 {
        Seq::empty()
    } else {
        payload_of(lines[0]) + payloads(lines.drop_first())
    }
}

proof fn lemma_payloads_cons(x: Seq<char>, rest: Seq<Seq<char>>)
    ensures
        payloads(seq![x] + rest) == payload_of(x) + payloads(rest),
{
    assert((seq![x] + rest).drop_first() =~= rest);
    assert((seq![x] + rest)[0] == x);
}

/// Whether `cs[from..to]` starts with `data: `.
fn has_data_prefix(cs: &Vec<char>, from: usize, to: usize) -> (r: bool)
    requires
        from <= to <= cs.len(),
    ensures
        r == (to - from >= 6 && cs@.subrange(from as int, to as int).take(6) == data_prefix()),
{
    if to - from < 6 {
        return false;
    }
    let r = cs[from] == 'd' && cs[from + 1] == 'a' && cs[from + 2] == 't' && cs[from + 3] == 'a'
        && cs[from + 4] == ':' && cs[from + 5] == ' ';
    let ghost t = cs@.subrange(from as int, to as int).take(6);
    assert(t[0] == cs@[from as int] && t[1] == cs@[from + 1] && t[2] == cs@[from + 2] && t[3]
        == cs@[from + 3] && t[4] == cs@[from + 4] && t[5] == cs@[from + 5]);
    if r {
        assert(t =~= data_prefix());
    } else {
        assert(t != data_prefix()) by {
            if t == data_prefix() {
                assert(t[0] == data_prefix()[0]);
                assert(t[1] == data_prefix()[1]);
                assert(t[2] == data_prefix()[2]);
                assert(t[3] == data_prefix()[3]);
                assert(t[4] == data_prefix()[4]);
                assert(t[5] == data_prefix()[5]);
            }
        }
    }
    r
}

/// The data payloads of the event lines in `chunk`, in order.
pub fn data_payloads(chunk: &str) -> (r: Vec<String>)
    ensures
        r@.map_values(|p: String| p@) == payloads(lines_of(chunk@)),
{
    let cs = to_chars(chunk);
    let n: usize = cs.len();
    let mut out: Vec<String> = Vec::new();
    let mut start: usize = 0;
    let mut i: usize = 0;
    assert(cs@.skip(0) =~= cs@);
    assert(cs@.subrange(0, 0) =~= Seq::<char>::empty());
    while i < n
        invariant
            start <= i <= n == cs.len(),
            cs@ == chunk@,
            out@.map_values(|p: String| p@) + payloads(
                lines_from(cs@.skip(i as int), cs@.subrange(start as int, i as int)),
            ) == payloads(lines_of(chunk@)),
        decreases n - i,
    {
        let ghost cur = cs@.subrange(start as int, i as int);
        let ghost rest = cs@.skip(i as int);
        assert(rest[0] == cs@[i as int]);
        assert(rest.drop_first() =~= cs@.skip(i + 1));
        if cs[i] == '\n' {
            let end: usize = if i > start && cs[i - 1] == '\r' {
                i - 1
            } else {
                i
            };
            assert(strip_cr(cur) =~= cs@.subrange(start as int, end as int));
            let ghost before = out@.map_values(|p: String| p@);
            proof {
                lemma_payloads_cons(strip_cr(cur), lines_from(cs@.skip(i + 1), Seq::empty()));
            }
            if has_data_prefix(&cs, start, end) {
                let p = string_of(&cs, start + 6, end);
                assert(p@ =~= cs@.subrange(start as int, end as int).skip(6));
                out.push(p);
                assert(out@.map_values(|p: String| p@) =~= before + seq![p@]);
            }
            assert(before + (payload_of(strip_cr(cur)) + payloads(
                lines_from(cs@.skip(i + 1), Seq::empty()),
            )) =~= out@.map_values(|p: String| p@) + payloads(
                lines_from(cs@.skip(i + 1), Seq::empty()),
            ));
            start = i + 1;
            assert(cs@.subrange(start as int, i + 1) =~= Seq::<char>::empty());
        } else {
            assert(cur.push(cs@[i as int]) =~= cs@.subrange(start as int, i + 1));
        }
        i = i + 1;
    }
    let ghost cur = cs@.subrange(start as int, n as int);
    assert(cs@.skip(n as int) =~= Seq::<char>::empty());
    let ghost before = out@.map_values(|p: String| p@);
    if start < n {
        proof {
            lemma_payloads_cons(cur, Seq::empty());
            assert(seq![cur] + Seq::<Seq<char>>::empty() =~= seq![cur]);
        }
        if has_data_prefix(&cs, start, n) {
            let p = string_of(&cs, start + 6, n);
            assert(p@ =~= cur.skip(6));
            out.push(p);
            assert(out@.map_values(|p: String| p@) =~= before + seq![p@]);
        }
        assert(before + (payload_of(cur) + Seq::<Seq<char>>::empty()) =~= out@.map_values(
            |p: String| p@,
        ));
    } else {
        assert(before + Seq::<Seq<char>>::empty() =~= before);
    }
    out
}

/// Law: every payload comes from a line that is `data: ` followed by it.
pub proof fn law_payloads_come_from_data_lines(lines: Seq<Seq<char>>)
    ensures
        forall|k: int|
            0 <= k < payloads(lines).len() ==> exists|j: int|
                0 <= j < lines.len() && #[trigger] lines[j] == data_prefix() + #[trigger] payloads(
                    lines,
                )[k],
    decreases lines.len(),
{
    if lines.len() > 0 {
        let rest = lines.drop_first();
        law_payloads_come_from_data_lines(rest);
        let head = payload_of(lines[0]);
        let p = payloads(lines);
        assert(p == head + payloads(rest));
        assert forall|k: int| 0 <= k < p.len() implies exists|j: int|
            0 <= j < lines.len() && #[trigger] lines[j] == data_prefix() + #[trigger] p[k] by {
            if k < head.len() {
                let l = lines[0];
                assert(l.take(6) == data_prefix());
                assert(p[k] == l.skip(6));
                assert(l =~= data_prefix() + l.skip(6));
                assert(lines[0] == data_prefix() + p[k]);
            } else {
                let q = payloads(rest);
                assert(p[k] == q[k - head.len()]);
                let j = choose|j: int|
                    0 <= j < rest.len() && #[trigger] rest[j] == data_prefix() + q[k - head.len()];
                assert(lines[j + 1] == rest[j]);
            }
        }
    }
}

proof fn lemma_final_newline(s: Seq<char>, cur: Seq<char>)
    requires
        (cur + s).len() > 0,
        (cur + s).last() != '\n',
        (cur + s).last() != '\r',
    ensures
        lines_from(s.push('\n'), cur) == lines_from(s, cur),
    decreases s.len(),
{
    if s.len() == 0 {
        assert(cur + s =~= cur);
        assert(seq!['\n'].drop_first() =~= Seq::<char>::empty());
        assert(s.push('\n') =~= seq!['\n']);
        assert(strip_cr(cur) == cur);
        assert(lines_from(Seq::<char>::empty(), Seq::<char>::empty()) =~= Seq::<Seq<char>>::empty());
        assert(seq![cur] + Seq::<Seq<char>>::empty() =~= seq![cur]);
        assert(lines_from(seq!['\n'], cur) == seq![strip_cr(cur)] + lines_from(
            Seq::<char>::empty(),
            Seq::<char>::empty(),
        ));
    } else {
        let t = s.push('\n');
        assert(t[0] == s[0]);
        assert(t.drop_first() =~= s.drop_first().push('\n'));
        assert((cur + s).last() == s.last());
        if s[0] == '\n' {
            assert(s.len() >= 2);
            let r = s.drop_first();
            assert((Seq::<char>::empty() + r) =~= r);
            assert(r.last() == s.last());
            lemma_final_newline(r, Seq::empty());
        } else {
            let r = s.drop_first();
            assert(cur.push(s[0]) + r =~= cur + s);
            lemma_final_newline(r, cur.push(s[0]));
        }
    }
}

/// Law: a final line ending does not change the lines of a chunk, nor its
/// payloads (as for std's `str::lines`), when the chunk is not empty and
/// does not already end a line.
pub proof fn law_final_line_ending_is_optional(chunk: Seq<char>)
    requires
        chunk.len() > 0,
        chunk.last() != '\n',
        chunk.last() != '\r',
    ensures
        lines_of(chunk.push('\n')) == lines_of(chunk),
        payloads(lines_of(chunk.push('\n'))) == payloads(lines_of(chunk)),
{
    assert(Seq::<char>::empty() + chunk =~= chunk);
    lemma_final_newline(chunk, Seq::empty());
}

/// Law: a line that is `data: ` followed by some text yields that text.
pub proof fn law_data_line_yields_payload(text: Seq<char>)
    ensures
        payload_of(data_prefix() + text) == seq![text],
{
    let l = data_prefix() + text;
    assert(l.take(6) =~= data_prefix());
    assert(l.skip(6) =~= text);
}

} // verus!
