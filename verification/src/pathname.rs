//! Path arithmetic on byte strings.
//!
//! A path is UTF-8 bytes with `/` or `\` as separators. The pieces the
//! planner needs are: the base name (everything after the last separator),
//! the stem (the base name with its extension cut off at the last dot),
//! forcing a particular extension, and joining a directory with a file
//! name. A path whose last component is empty, `.` or `..` has no usable
//! file name: in particular a trailing separator leaves none, where an
//! OS path library would look one component further back. Joining only
//! concatenates with a separator; it never treats the name as absolute.

use vstd::prelude::*;

verus! {

/// `b` is a path separator.
pub open spec fn is_sep(b: u8) -> bool {
    b == 47 || b == 92
}

/// Index just after the last separator of `p` (0 when there is none).
pub open spec fn base_start(p: Seq<u8>) -> int
    decreases p.len(),
{
    if p.len() == 0 {
        0
    } else if is_sep(p[p.len() - 1]) {
        p.len() as int
    } else {
        base_start(p.take(p.len() - 1))
    }
}

/// The last component of `p`: everything after the last separator.
pub open spec fn base_name(p: Seq<u8>) -> Seq<u8> {
    p.skip(base_start(p))
}

/// Index of the last `.` in `name`, or -1 when it has none.
pub open spec fn last_dot(name: Seq<u8>) -> int
    decreases name.len(),
{
    if name.len() == 0 {
        -1
    } else if name[name.len() - 1] == 46 {
        name.len() - 1
    } else {
        last_dot(name.take(name.len() - 1))
    }
}

/// `name` with its extension removed: cut at the last dot, except that a
/// dot in the leading position (a hidden file) starts no extension.
pub open spec fn stem_of(name: Seq<u8>) -> Seq<u8> {
    if last_dot(name) > 0 {
        name.take(last_dot(name))
    } else {
        name
    }
}

/// The last component of `p` names a file: it is non-empty and neither `.`
/// nor `..`.
pub open spec fn has_file_name(p: Seq<u8>) -> bool {
    &&& base_name(p).len() > 0
    &&& base_name(p) != seq![46u8]
    &&& base_name(p) != seq![46u8, 46u8]
}

/// The stem of the last component of `p`.
pub open spec fn file_stem_of(p: Seq<u8>) -> Seq<u8> {
    stem_of(base_name(p))
}

/// `name` with its extension forced to `ext`.
pub open spec fn with_ext(name: Seq<u8>, ext: Seq<u8>) -> Seq<u8> {
    stem_of(name) + seq![46u8] + ext
}

/// `dir` and `name` joined with a separator (none added when `dir` is
/// empty or already ends in one).
pub open spec fn joined(dir: Seq<u8>, name: Seq<u8>) -> Seq<u8> {
    if dir.len() == 0 {
        name
    } else if is_sep(dir[dir.len() - 1]) {
        dir + name
    } else {
        dir + seq![47u8] + name
    }
}

/// A position after whose predecessor-separator no further separator
/// follows is where the base name starts.
pub proof fn lemma_base_start_at(p: Seq<u8>, k: int)
    requires
        0 <= k <= p.len(),
        forall|i: int| k <= i < p.len() ==> !is_sep(#[trigger] p[i]),
        k == 0 || is_sep(p[k - 1]),
    ensures
        base_start(p) == k,
    decreases p.len(),
{
    if p.len() == k {
    } else {
        assert(!is_sep(p[p.len() - 1]));
        let q = p.take(p.len() - 1);
        assert forall|i: int| k <= i < q.len() implies !is_sep(#[trigger] q[i]) by {
            assert(q[i] == p[i]);
        }
        if k > 0 {
            assert(q[k - 1] == p[k - 1]);
        }
        lemma_base_start_at(q, k);
    }
}

/// The base name of a joined path is the joined name, as long as the
/// name holds no separator.
pub proof fn lemma_base_name_of_joined(dir: Seq<u8>, name: Seq<u8>)
    requires
        forall|i: int| 0 <= i < name.len() ==> !is_sep(#[trigger] name[i]),
    ensures
        base_name(joined(dir, name)) == name,
{
    let p = joined(dir, name);
    if dir.len() == 0 {
        lemma_base_start_at(p, 0);
        assert(p.skip(0) =~= name);
    } else if is_sep(dir[dir.len() - 1]) {
        assert forall|i: int| dir.len() <= i < p.len() implies !is_sep(#[trigger] p[i]) by {
            assert(p[i] == name[i - dir.len()]);
        }
        assert(is_sep(p[dir.len() - 1]));
        lemma_base_start_at(p, dir.len() as int);
        assert(p.skip(dir.len() as int) =~= name);
    } else {
        assert forall|i: int| dir.len() + 1 <= i < p.len() implies !is_sep(#[trigger] p[i]) by {
            assert(p[i] == name[i - dir.len() - 1]);
        }
        assert(p[dir.len() as int] == 47);
        lemma_base_start_at(p, dir.len() as int + 1);
        assert(p.skip(dir.len() as int + 1) =~= name);
    }
}

/// A dot with no later dot is the last dot.
pub proof fn lemma_last_dot_at(p: Seq<u8>, k: int)
    requires
        0 <= k < p.len(),
        p[k] == 46,
        forall|i: int| k < i < p.len() ==> #[trigger] p[i] != 46,
    ensures
        last_dot(p) == k,
    decreases p.len(),
{
    if k == p.len() - 1 {
    } else {
        assert(p[p.len() - 1] != 46);
        let q = p.take(p.len() - 1);
        assert(q[k] == p[k]);
        assert forall|i: int| k < i < q.len() implies #[trigger] q[i] != 46 by {
            assert(q[i] == p[i]);
        }
        lemma_last_dot_at(q, k);
    }
}

/// The last dot lies inside the name.
pub proof fn lemma_last_dot_range(name: Seq<u8>)
    ensures
        -1 <= last_dot(name) < name.len(),
    decreases name.len(),
{
    if name.len() > 0 && name[name.len() - 1] != 46 {
        lemma_last_dot_range(name.take(name.len() - 1));
    }
}

/// The stem of a non-empty name is non-empty.
pub proof fn lemma_stem_nonempty(name: Seq<u8>)
    requires
        name.len() > 0,
    ensures
        stem_of(name).len() > 0,
{
    lemma_last_dot_range(name);
}

/// Forcing an extension without dots onto a non-empty name leaves the
/// stem as it was.
pub proof fn lemma_stem_of_with_ext(name: Seq<u8>, ext: Seq<u8>)
    requires
        name.len() > 0,
        forall|i: int| 0 <= i < ext.len() ==> #[trigger] ext[i] != 46,
    ensures
        stem_of(with_ext(name, ext)) == stem_of(name),
{
    let s = stem_of(name);
    let w = with_ext(name, ext);
    lemma_stem_nonempty(name);
    assert(w[s.len() as int] == 46);
    assert forall|i: int| s.len() < i < w.len() implies #[trigger] w[i] != 46 by {
        assert(w[i] == ext[i - s.len() - 1]);
    }
    lemma_last_dot_at(w, s.len() as int);
    assert(w.take(s.len() as int) =~= s);
}

/// Index just after the last separator, computed by scanning from the end.
fn find_base_start(p: &Vec<u8>) -> (r: usize)
    ensures
        r == base_start(p@),
        r <= p@.len(),
{
    let mut i: usize = p.len();
    proof {
        assert(p@.take(i as int) =~= p@);
    }
    while i > 0
        invariant
            i <= p@.len() <= usize::MAX,
            base_start(p@) == base_start(p@.take(i as int)),
        decreases i,
    {
        proof {
            assert(p@.take(i as int)[i - 1] == p@[i - 1]);
        }
        if p[i - 1] == 47 || p[i - 1] == 92 {
            proof {
                assert(base_start(p@.take(i as int)) == i);
            }
            return i;
        }
        proof {
            assert(p@.take(i as int).take(i - 1) =~= p@.take(i - 1));
        }
        i = i - 1;
    }
    proof {
        assert(p@.take(0) =~= Seq::<u8>::empty());
    }
    0
}

/// Index of the last dot of `name`, or `None`, scanning from the end.
fn find_last_dot(name: &Vec<u8>) -> (r: Option<usize>)
    ensures
        match r {
            Some(i) => last_dot(name@) == i as int && i < name@.len(),
            None => last_dot(name@) == -1,
        },
{
    let mut i: usize = name.len();
    proof {
        assert(name@.take(i as int) =~= name@);
    }
    while i > 0
        invariant
            i <= name@.len() <= usize::MAX,
            last_dot(name@) == last_dot(name@.take(i as int)),
        decreases i,
    {
        proof {
            assert(name@.take(i as int)[i - 1] == name@[i - 1]);
        }
        if name[i - 1] == 46 {
            proof {
                assert(last_dot(name@.take(i as int)) == i - 1);
            }
            return Some(i - 1);
        }
        proof {
            assert(name@.take(i as int).take(i - 1) =~= name@.take(i - 1));
        }
        i = i - 1;
    }
    proof {
        assert(name@.take(0) =~= Seq::<u8>::empty());
    }
    None
}

/// The stem of the last component of `p`, or `None` when `p` has no
/// usable file name.
pub fn file_stem(p: &Vec<u8>) -> (r: Option<Vec<u8>>)
    ensures
        match r {
            Some(stem) => has_file_name(p@) && stem@ == file_stem_of(p@),
            None => !has_file_name(p@),
        },
{
    let start = find_base_start(p);
    let n: usize = p.len();
    let mut base: Vec<u8> = Vec::new();
    crate::text::extend_range(&mut base, p, start, n);
    proof {
        assert(base@ =~= base_name(p@));
    }
    if base.len() == 0 {
        return None;
    }
    if base.len() == 1 && base[0] == 46 {
        proof {
            assert(base@ =~= seq![46u8]);
        }
        return None;
    }
    if base.len() == 2 && base[0] == 46 && base[1] == 46 {
        proof {
            assert(base@ =~= seq![46u8, 46u8]);
        }
        return None;
    }
    proof {
        assert(base@ != seq![46u8] && base@ != seq![46u8, 46u8]) by {
            if base@ == seq![46u8] {
                assert(base@.len() == 1 && base@[0] == 46);
            }
            if base@ == seq![46u8, 46u8] {
                assert(base@.len() == 2 && base@[0] == 46 && base@[1] == 46);
            }
        }
    }
    match find_last_dot(&base) {
        Some(i) => {
            if i > 0 {
                let mut stem: Vec<u8> = Vec::new();
                crate::text::extend_range(&mut stem, &base, 0, i);
                proof {
                    assert(stem@ =~= stem_of(base@));
                }
                Some(stem)
            } else {
                Some(base)
            }
        },
        None => Some(base),
    }
}

/// `name` with its extension forced to `ext`.
pub fn force_extension(name: &Vec<u8>, ext: &Vec<u8>) -> (r: Vec<u8>)
    ensures
        r@ == with_ext(name@, ext@),
{
    let mut out: Vec<u8> = Vec::new();
    match find_last_dot(name) {
        Some(i) => {
            if i > 0 {
                crate::text::extend_range(&mut out, name, 0, i);
            } else {
                crate::text::extend_bytes(&mut out, name);
            }
        },
        None => {
            crate::text::extend_bytes(&mut out, name);
        },
    }
    out.push(46);
    crate::text::extend_bytes(&mut out, ext);
    proof {
        assert(out@ =~= with_ext(name@, ext@));
    }
    out
}

/// Join a directory and a file name with a separator.
pub fn join_path(dir: &Vec<u8>, name: &Vec<u8>) -> (r: Vec<u8>)
    ensures
        r@ == joined(dir@, name@),
{
    if dir.len() == 0 {
        let mut out: Vec<u8> = Vec::new();
        crate::text::extend_bytes(&mut out, name);
        return out;
    }
    let mut out: Vec<u8> = Vec::new();
    crate::text::extend_bytes(&mut out, dir);
    let last = dir[dir.len() - 1];
    if !(last == 47 || last == 92) {
        out.push(47);
    }
    crate::text::extend_bytes(&mut out, name);
    proof {
        assert(out@ =~= joined(dir@, name@));
    }
    out
}

} // verus!
