use vstd::prelude::*;

use crate::ipc::{CARRIAGE_RETURN, NEWLINE};

verus! {

/// The stretches of `b` between newlines, in order; the last one is what follows
/// the last newline, possibly nothing.
pub open spec fn pieces(b: Seq<u8>) -> Seq<Seq<u8>>
    decreases b.len(),
{
    if b.len() == 0 {
        seq![Seq::<u8>::empty()]
    } else {
        let p = pieces(b.drop_last());
        if b.last() == NEWLINE {
            p.push(Seq::<u8>::empty())
        } else {
            p.update(p.len() - 1, p.last().push(b.last()))
        }
    }
}

/// A line that ended with a newline loses a carriage return just before it.
pub open spec fn strip_cr(l: Seq<u8>) -> Seq<u8> {
    if l.len() > 0 && l.last() == CARRIAGE_RETURN {
        l.drop_last()
    } else {
        l
    }
}

/// The lines completed by a newline, each without its carriage return.
pub open spec fn complete_lines(b: Seq<u8>) -> Seq<Seq<u8>> {
    pieces(b).drop_last().map_values(|l: Seq<u8>| strip_cr(l))
}

/// The frames that a connection's bytes hold: every line ended by a newline, then
/// the unterminated tail if it is not empty.
pub open spec fn frames(b: Seq<u8>) -> Seq<Seq<u8>> {
    if pieces(b).last().len() == 0 {
        complete_lines(b)
    } else {
        complete_lines(b).push(pieces(b).last())
    }
}

/// The index just past the last `x` in `s`, or 0 where it holds none.
pub open spec fn after_last(s: Seq<u8>, x: u8) -> int
    decreases s.len(),
{
    if s.len() == 0 {
        0
    } else if s.last() == x {
        s.len() as int
    } else {
        after_last(s.drop_last(), x)
    }
}

pub proof fn lemma_after_last_bounds(s: Seq<u8>, x: u8)
    ensures
        0 <= after_last(s, x) <= s.len(),
    decreases s.len(),
{
    if s.len() > 0 {
        lemma_after_last_bounds(s.drop_last(), x);
    }
}

/// The index just past the last `x` in `s`, or 0. With `x` a newline this is where
/// the complete lines of a partly read stream end.
pub fn find_after_last(s: &[u8], x: u8) -> (j: usize)
    ensures
        j == after_last(s@, x),
{
    let mut j: usize = s.len();
    proof {
        assert(s@.take(j as int) =~= s@);
    }
    while j > 0 && s[j - 1] != x
        invariant
            j <= s@.len(),
            after_last(s@.take(j as int), x) == after_last(s@, x),
        decreases j,
    {
        assert(s@.take(j as int).drop_last() =~= s@.take(j - 1));
        j = j - 1;
    }
    if j == 0 {
        assert(s@.take(0) =~= Seq::<u8>::empty());
    }
    j
}

proof fn lemma_pieces_nonempty(b: Seq<u8>)
    ensures
        pieces(b).len() >= 1,
    decreases b.len(),
{
    if b.len() > 0 {
        lemma_pieces_nonempty(b.drop_last());
    }
}

/// Removes a carriage return from the end of a line.
fn strip_carriage_return(l: &mut Vec<u8>)
    ensures
        final(l)@ == strip_cr(old(l)@),
{
    let n = l.len();
    if n > 0 && l[n - 1] == CARRIAGE_RETURN {
        l.pop();
    }
}

/// Splits what a connection sent into its frames.
pub fn split_frames(b: &[u8]) -> (out: Vec<Vec<u8>>)
    ensures
        out@.map_values(|f: Vec<u8>| f@) == frames(b@),
{
    let mut out: Vec<Vec<u8>> = Vec::new();
    let mut cur: Vec<u8> = Vec::new();
    let mut i: usize = 0;
    proof {
        assert(b@.take(0) =~= Seq::<u8>::empty());
    }
    while i < b.len()
        invariant
            i <= b@.len(),
            out@.map_values(|f: Vec<u8>| f@) == complete_lines(b@.take(i as int)),
            cur@ == pieces(b@.take(i as int)).last(),
        decreases b@.len() - i,
    {
        let ghost before = b@.take(i as int);
        let ghost after = b@.take(i as int + 1);
        proof {
            assert(after.drop_last() =~= before);
            lemma_pieces_nonempty(before);
        }
        let x = b[i];
        if x == NEWLINE {
            let mut line = cur;
            strip_carriage_return(&mut line);
            out.push(line);
            cur = Vec::new();
            proof {
                assert(pieces(after).drop_last() =~= pieces(before));
                assert(complete_lines(after) =~= complete_lines(before).push(
                    strip_cr(pieces(before).last()),
                ));
                assert(out@.map_values(|f: Vec<u8>| f@) =~= complete_lines(after));
            }
        } else {
            cur.push(x);
            proof {
                assert(pieces(after).drop_last() =~= pieces(before).drop_last());
                assert(out@.map_values(|f: Vec<u8>| f@) =~= complete_lines(after));
            }
        }
        i = i + 1;
    }
    proof {
        assert(b@.take(i as int) =~= b@);
    }
    if cur.len() > 0 {
        out.push(cur);
        proof {
            assert(out@.map_values(|f: Vec<u8>| f@) =~= frames(b@));
        }
    }
    out
}

} // verus!
