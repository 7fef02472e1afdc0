//! Byte-string search and replacement.
//!
//! The filename template machinery works on UTF-8 bytes. The tokens being
//! searched for are plain ASCII, so replacing them byte-wise never splits a
//! multi-byte character.

use vstd::prelude::*;

verus! {

/// The pattern `pat` occurs in `s` starting at index `i`.
pub open spec fn is_match_at(s: Seq<u8>, pat: Seq<u8>, i: int) -> bool {
    &&& 0 <= i
    &&& i + pat.len() <= s.len()
    &&& s.subrange(i, i + pat.len() as int) == pat
}

/// The pattern occurs somewhere in `s`.
pub open spec fn has_match(s: Seq<u8>, pat: Seq<u8>) -> bool {
    exists|i: int| is_match_at(s, pat, i)
}

/// `s` with every non-overlapping occurrence of `pat` replaced by `rep`,
/// scanning left to right and resuming after each replacement.
pub open spec fn replaced(s: Seq<u8>, pat: Seq<u8>, rep: Seq<u8>) -> Seq<u8>
    decreases s.len(),
{
    if pat.len() == 0 || s.len() < pat.len() {
        s
    } else if s.subrange(0, pat.len() as int) == pat {
        rep + replaced(s.skip(pat.len() as int), pat, rep)
    } else {
        seq![s[0]] + replaced(s.skip(1), pat, rep)
    }
}

/// Append the whole of `src` to `dst`.
pub fn extend_bytes(dst: &mut Vec<u8>, src: &Vec<u8>)
    ensures
        final(dst)@ == old(dst)@ + src@,
{
    let mut j: usize = 0;
    while j < src.len()
        invariant
            j <= src.len(),
            dst@ == old(dst)@ + src@.take(j as int),
        decreases src.len() - j,
    {
        dst.push(src[j]);
        j = j + 1;
        proof {
            assert(src@.take(j as int) =~= src@.take(j - 1) + seq![src@[j - 1]]);
            assert(dst@ =~= old(dst)@ + src@.take(j as int));
        }
    }
    proof {
        assert(src@.take(src@.len() as int) =~= src@);
    }
}

/// A fresh copy of `src`.
pub fn copy_bytes(src: &Vec<u8>) -> (r: Vec<u8>)
    ensures
        r@ == src@,
{
    let mut out: Vec<u8> = Vec::new();
    extend_bytes(&mut out, src);
    out
}

/// Append `src[from..to]` to `dst`.
pub fn extend_range(dst: &mut Vec<u8>, src: &Vec<u8>, from: usize, to: usize)
    requires
        from <= to <= src@.len(),
    ensures
        final(dst)@ == old(dst)@ + src@.subrange(from as int, to as int),
{
    let n: usize = src.len();
    let mut j: usize = from;
    while j < to
        invariant
            from <= j <= to <= src@.len() <= usize::MAX,
            dst@ == old(dst)@ + src@.subrange(from as int, j as int),
        decreases to - j,
    {
        dst.push(src[j]);
        j = j + 1;
        proof {
            assert(src@.subrange(from as int, j as int) =~= src@.subrange(
                from as int,
                j - 1,
            ) + seq![src@[j - 1]]);
            assert(dst@ =~= old(dst)@ + src@.subrange(from as int, j as int));
        }
    }
}

/// Does `pat` occur in `s` at index `i`?
pub fn match_at(s: &Vec<u8>, pat: &Vec<u8>, i: usize) -> (b: bool)
    requires
        i <= s@.len(),
    ensures
        b == is_match_at(s@, pat@, i as int),
{
    if s.len() - i < pat.len() {
        return false;
    }
    let mut j: usize = 0;
    while j < pat.len()
        invariant
            0 <= j <= pat.len(),
            i + pat@.len() <= s@.len() <= usize::MAX,
            forall|k: int| 0 <= k < j ==> s@[i + k] == pat@[k],
        decreases pat.len() - j,
    {
        assert(i + j < s@.len());
        if s[i + j] != pat[j] {
            assert(s@.subrange(i as int, i + pat@.len() as int)[j as int] != pat@[j as int]);
            return false;
        }
        j = j + 1;
    }
    proof {
        assert(s@.subrange(i as int, i + pat@.len() as int) =~= pat@);
    }
    true
}

/// Index of the leftmost occurrence of `pat` in `s`, if any.
pub fn find_first(s: &Vec<u8>, pat: &Vec<u8>) -> (r: Option<usize>)
    ensures
        match r {
            Some(i) => is_match_at(s@, pat@, i as int) && forall|j: int|
                0 <= j < i ==> !is_match_at(s@, pat@, j),
            None => !has_match(s@, pat@),
        },
{
    let mut i: usize = 0;
    while i < s.len()
        invariant
            i <= s@.len(),
            forall|j: int| 0 <= j < i ==> !is_match_at(s@, pat@, j),
        decreases s.len() - i,
    {
        if match_at(s, pat, i) {
            return Some(i);
        }
        i = i + 1;
    }
    if match_at(s, pat, s.len()) {
        return Some(s.len());
    }
    proof {
        assert forall|j: int| !is_match_at(s@, pat@, j) by {
            if 0 <= j && j + pat@.len() <= s@.len() {
                assert(j <= s@.len());
            }
        }
    }
    None
}

/// `s` with every occurrence of `pat` replaced by `rep`.
pub fn replace_all(s: &Vec<u8>, pat: &Vec<u8>, rep: &Vec<u8>) -> (r: Vec<u8>)
    requires
        pat@.len() > 0,
    ensures
        r@ == replaced(s@, pat@, rep@),
{
    let n: usize = s.len();
    let mut out: Vec<u8> = Vec::new();
    let mut i: usize = 0;
    proof {
        assert(s@.skip(0) =~= s@);
        assert(out@ + replaced(s@, pat@, rep@) =~= replaced(s@, pat@, rep@));
    }
    while i < s.len()
        invariant
            pat@.len() > 0,
            i <= s@.len() <= usize::MAX,
            replaced(s@, pat@, rep@) == out@ + replaced(s@.skip(i as int), pat@, rep@),
        decreases s.len() - i,
    {
        let ghost rest = s@.skip(i as int);
        if match_at(s, pat, i) {
            proof {
                assert(rest.subrange(0, pat@.len() as int) =~= s@.subrange(
                    i as int,
                    i + pat@.len(),
                ));
                assert(rest.skip(pat@.len() as int) =~= s@.skip(i + pat@.len()));
                assert(replaced(rest, pat@, rep@) == rep@ + replaced(
                    s@.skip(i + pat@.len()),
                    pat@,
                    rep@,
                ));
            }
            extend_bytes(&mut out, rep);
            i = i + pat.len();
            proof {
                assert(replaced(s@, pat@, rep@) =~= out@ + replaced(
                    s@.skip(i as int),
                    pat@,
                    rep@,
                ));
            }
        } else {
            proof {
                assert(rest.len() > 0);
                if rest.len() >= pat@.len() {
                    assert(rest.subrange(0, pat@.len() as int) =~= s@.subrange(
                        i as int,
                        i + pat@.len(),
                    ));
                    assert(rest.subrange(0, pat@.len() as int) != pat@);
                }
                assert(rest.skip(1) =~= s@.skip(i + 1));
                if rest.len() < pat@.len() {
                    // Too few bytes remain for a match: both suffixes stay as they are.
                    assert(replaced(rest, pat@, rep@) == rest);
                    assert(replaced(s@.skip(i + 1), pat@, rep@) == s@.skip(i + 1));
                    assert(rest =~= seq![s@[i as int]] + s@.skip(i + 1));
                } else {
                    assert(replaced(rest, pat@, rep@) == seq![rest[0]] + replaced(
                        rest.skip(1),
                        pat@,
                        rep@,
                    ));
                    assert(rest[0] == s@[i as int]);
                }
            }
            let b = s[i];
            out.push(b);
            i = i + 1;
            proof {
                assert(replaced(s@, pat@, rep@) =~= out@ + replaced(
                    s@.skip(i as int),
                    pat@,
                    rep@,
                ));
            }
        }
    }
    proof {
        assert(s@.skip(i as int) =~= Seq::<u8>::empty());
        assert(replaced(Seq::<u8>::empty(), pat@, rep@) == Seq::<u8>::empty());
        assert(out@ + Seq::<u8>::empty() =~= out@);
    }
    out
}

/// `s` with the `patlen` bytes at `i` replaced by `rep`: the shape of a
/// single substitution at a known position.
pub open spec fn spliced(s: Seq<u8>, i: int, patlen: int, rep: Seq<u8>) -> Seq<u8> {
    s.take(i) + rep + s.skip(i + patlen)
}

/// Replace the `patlen` bytes at index `i` of `s` by `rep`.
pub fn splice(s: &Vec<u8>, i: usize, patlen: usize, rep: &Vec<u8>) -> (r: Vec<u8>)
    requires
        i + patlen <= s@.len(),
    ensures
        r@ == spliced(s@, i as int, patlen as int, rep@),
{
    let n: usize = s.len();
    let mut out: Vec<u8> = Vec::new();
    extend_range(&mut out, s, 0, i);
    extend_bytes(&mut out, rep);
    extend_range(&mut out, s, i + patlen, s.len());
    proof {
        assert(s@.subrange(0, i as int) =~= s@.take(i as int));
        assert(s@.subrange(i + patlen, s@.len() as int) =~= s@.skip(i + patlen));
    }
    out
}

} // verus!
