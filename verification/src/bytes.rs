//! Byte-level text utilities: splitting a file into lines, splitting a
//! line into tokens, and comparing tokens.

use vstd::prelude::*;

verus! {

/// The views of a sequence of byte vectors.
pub open spec fn tok_views(ts: Seq<Vec<u8>>) -> Seq<Seq<u8>> {
    ts.map_values(|t: Vec<u8>| t@)
}

/// Pieces of `s` split at each `sep`, with `cur` the partial piece read
/// so far. A split always yields at least one piece.
pub open spec fn split_acc(s: Seq<u8>, sep: u8, cur: Seq<u8>) -> Seq<Seq<u8>>
    decreases s.len(),
{
    if s.len() == 0 {
        seq![cur]
    } else if s[0] == sep {
        seq![cur] + split_acc(s.skip(1), sep, seq![])
    } else {
        split_acc(s.skip(1), sep, cur.push(s[0]))
    }
}

/// `s` split at each `sep`, empty pieces kept: an empty input is one
/// empty piece, and two adjacent separators hold an empty piece between
/// them.
pub open spec fn spec_split(s: Seq<u8>, sep: u8) -> Seq<Seq<u8>> {
    split_acc(s, sep, seq![])
}

pub proof fn lemma_split_acc_len(s: Seq<u8>, sep: u8, cur: Seq<u8>)
    ensures
        split_acc(s, sep, cur).len() >= 1,
    decreases s.len(),
{
    if s.len() == 0 {
    } else if s[0] == sep {
    } else {
        lemma_split_acc_len(s.skip(1), sep, cur.push(s[0]));
    }
}

/// A carriage return (13) at the very end of `l` removed.
pub open spec fn strip_cr(l: Seq<u8>) -> Seq<u8> {
    if l.len() > 0 && l.last() == 13 {
        l.drop_last()
    } else {
        l
    }
}

/// The lines of a text: split at each newline (10), with no line
/// standing after a final newline, and with a carriage return (13)
/// directly before a newline not part of its line.
pub open spec fn spec_lines(s: Seq<u8>) -> Seq<Seq<u8>> {
    if s.len() == 0 {
        seq![]
    } else {
        let p = spec_split(s, 10);
        let keep = if s.last() == 10 {
            (p.len() - 1) as nat
        } else {
            p.len()
        };
        Seq::new(keep, |i: int| if i + 1 < p.len() { strip_cr(p[i]) } else { p[i] })
    }
}

/// Whether two byte vectors hold the same bytes.
pub fn tok_eq(a: &Vec<u8>, b: &Vec<u8>) -> (r: bool)
    ensures
        r == (a@ == b@),
{
    if a.len() != b.len() {
        return false;
    }
    let n: usize = a.len();
    let mut i: usize = 0;
    while i < n
        invariant
            0 <= i <= n,
            n == a@.len() == b@.len(),
            forall|j: int| 0 <= j < i ==> a@[j] == b@[j],
        decreases n - i,
    {
        if a[i] != b[i] {
            return false;
        }
        i += 1;
    }
    proof {
        assert(a@ =~= b@);
    }
    true
}

/// A copy of a token.
pub fn clone_tok(t: &Vec<u8>) -> (r: Vec<u8>)
    ensures
        r@ == t@,
{
    let n: usize = t.len();
    let mut r: Vec<u8> = Vec::new();
    let mut i: usize = 0;
    while i < n
        invariant
            0 <= i <= n,
            n == t@.len(),
            r@ == t@.take(i as int),
        decreases n - i,
    {
        r.push(t[i]);
        proof {
            assert(r@ =~= t@.take(i as int + 1));
        }
        i += 1;
    }
    proof {
        assert(t@.take(n as int) =~= t@);
    }
    r
}

/// Splits `s` at each occurrence of `sep`.
pub fn split_bytes(s: &[u8], sep: u8) -> (r: Vec<Vec<u8>>)
    ensures
        tok_views(r@) == spec_split(s@, sep),
        r@.len() >= 1,
{
    let n: usize = s.len();
    let mut out: Vec<Vec<u8>> = Vec::new();
    let mut cur: Vec<u8> = Vec::new();
    let mut i: usize = 0;
    proof {
        assert(s@.skip(0) =~= s@);
        assert(tok_views(out@) + split_acc(s@, sep, cur@) =~= split_acc(s@, sep, cur@));
    }
    while i < n
        invariant
            0 <= i <= n,
            n == s@.len(),
            tok_views(out@) + split_acc(s@.skip(i as int), sep, cur@) == spec_split(s@, sep),
        decreases n - i,
    {
        proof {
            assert(s@.skip(i as int).skip(1) =~= s@.skip(i as int + 1));
            assert(s@.skip(i as int)[0] == s@[i as int]);
        }
        let ghost out0 = out@;
        let ghost cur0 = cur@;
        if s[i] == sep {
            out.push(cur);
            cur = Vec::new();
            proof {
                assert(tok_views(out@) =~= tok_views(out0).push(cur0));
                assert(tok_views(out0).push(cur0) + split_acc(s@.skip(i as int + 1), sep, cur@)
                    =~= tok_views(out0) + (seq![cur0] + split_acc(
                    s@.skip(i as int + 1),
                    sep,
                    seq![],
                )));
            }
        }
        else {
            cur.push(s[i]);
        }
        i += 1;
    }
    proof {
        assert(s@.skip(n as int) =~= Seq::<u8>::empty());
    }
    let ghost out0 = out@;
    let ghost cur0 = cur@;
    out.push(cur);
    proof {
        assert(tok_views(out@) =~= tok_views(out0) + seq![cur0]);
        lemma_split_acc_len(s@, sep, seq![]);
    }
    out
}

/// Splits `s` into its lines.
pub fn split_lines(s: &[u8]) -> (r: Vec<Vec<u8>>)
    ensures
        tok_views(r@) == spec_lines(s@),
{
    let n: usize = s.len();
    if n == 0 {
        let r: Vec<Vec<u8>> = Vec::new();
        proof {
            assert(tok_views(r@) =~= spec_lines(s@));
        }
        return r;
    }
    let pieces = split_bytes(s, 10);
    let m: usize = pieces.len();
    let keep: usize = if s[n - 1] == 10 {
        m - 1
    } else {
        m
    };
    let ghost gl = spec_lines(s@);
    proof {
        assert(s@.last() == s@[n - 1]);
        assert(gl.len() == keep);
    }
    let mut out: Vec<Vec<u8>> = Vec::new();
    let mut i: usize = 0;
    while i < keep
        invariant
            0 <= i <= keep,
            keep <= m,
            m == pieces@.len(),
            tok_views(pieces@) == spec_split(s@, 10),
            gl == spec_lines(s@),
            gl.len() == keep,
            forall|j: int|
                0 <= j < keep ==> gl[j] == (if j + 1 < m {
                    strip_cr(tok_views(pieces@)[j])
                } else {
                    tok_views(pieces@)[j]
                }),
            tok_views(out@) =~= gl.take(i as int),
        decreases keep - i,
    {
        let p: &Vec<u8> = &pieces[i];
        let mut q = clone_tok(p);
        if i + 1 < m && q.len() > 0 {
            if q[q.len() - 1] == 13 {
                q.pop();
            }
        }
        proof {
            assert(tok_views(pieces@)[i as int] == pieces@[i as int]@);
            if i + 1 < m {
                assert(q@ == strip_cr(p@));
            } else {
                assert(q@ == p@);
            }
            assert(gl[i as int] == q@);
        }
        let ghost out0 = out@;
        let ghost q0 = q@;
        out.push(q);
        proof {
            assert(tok_views(out@) =~= tok_views(out0).push(q0));
            assert(tok_views(out@) =~= gl.take(i as int + 1));
        }
        i += 1;
    }
    proof {
        assert(gl.take(keep as int) =~= gl);
    }
    out
}


/// Pushing a token and pushing its view commute.
pub proof fn lemma_tok_views_push(s: Seq<Vec<u8>>, t: Vec<u8>)
    ensures
        tok_views(s.push(t)) == tok_views(s).push(t@),
{
    assert(tok_views(s.push(t)) =~= tok_views(s).push(t@));
}

} // verus!

