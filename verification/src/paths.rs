//! File-system path arithmetic on path text (Unix separators).

use vstd::prelude::*;
use crate::text::{chars_of, extend_chars, string_of};

verus! {

// ---------------------------------------------------------------------------
// Specifications
// ---------------------------------------------------------------------------

/// The position of the last `c` in `s`, or -1.
pub open spec fn last_index(s: Seq<char>, c: char) -> int
    decreases s.len(),
{
    if s.len() == 0 {
        -1
    } else if s.last() == c {
        s.len() - 1
    } else {
        last_index(s.drop_last(), c)
    }
}

/// The `/`-separated pieces of `s`, empty pieces included.
pub open spec fn segments(s: Seq<char>) -> Seq<Seq<char>>
    decreases s.len(),
{
    if s.len() == 0 {
        seq![Seq::<char>::empty()]
    } else {
        let segs = segments(s.drop_last());
        if s.last() == '/' {
            segs.push(Seq::<char>::empty())
        } else {
            segs.update(segs.len() - 1, segs.last().push(s.last()))
        }
    }
}

/// The pieces that name a component: empty pieces and `.` are dropped.
pub open spec fn named_parts(segs: Seq<Seq<char>>) -> Seq<Seq<char>>
    decreases segs.len(),
{
    if segs.len() == 0 {
        Seq::empty()
    } else {
        let rest = named_parts(segs.drop_last());
        let g = segs.last();
        if g.len() == 0 || g == "."@ {
            rest
        } else {
            rest.push(g)
        }
    }
}

/// The components of a path, as `Path::components` yields them on Unix,
/// written as text: the root directory is `/`, a leading current directory
/// is `.`, the parent directory is `..`, and a normal component is its name.
pub open spec fn components(s: Seq<char>) -> Seq<Seq<char>> {
    let segs = segments(s);
    if s.len() > 0 && s[0] == '/' {
        seq!["/"@] + named_parts(segs)
    } else if segs[0] == "."@ {
        seq!["."@] + named_parts(segs)
    } else {
        named_parts(segs)
    }
}

/// `Path::ends_with`: the components of `child` are the last components of `p`.
pub open spec fn path_ends_with(p: Seq<char>, child: Seq<char>) -> bool {
    let a = components(p);
    let b = components(child);
    b.len() <= a.len() && a.skip(a.len() - b.len()) == b
}

/// `s` without trailing separators and trailing `/.` pieces.
pub open spec fn trim_tail(s: Seq<char>) -> Seq<char>
    decreases s.len(),
{
    if s.len() > 0 && s.last() == '/' {
        trim_tail(s.drop_last())
    } else if s.len() >= 2 && s.last() == '.' && s[s.len() - 2] == '/' {
        trim_tail(s.drop_last())
    } else {
        s
    }
}

/// The last piece of `t`.
pub open spec fn last_piece(t: Seq<char>) -> Seq<char> {
    t.skip(last_index(t, '/') + 1)
}

/// The file name of a path (`Path::file_name`), if it has one.
pub open spec fn file_name(s: Seq<char>) -> Option<Seq<char>> {
    let seg = last_piece(trim_tail(s));
    if seg.len() == 0 || seg == "."@ || seg == ".."@ {
        None
    } else {
        Some(seg)
    }
}

/// The stem of a file name: the part before its last `.`, unless that `.` is
/// the first character.
pub open spec fn file_stem(name: Seq<char>) -> Seq<char> {
    let i = last_index(name, '.');
    if i <= 0 {
        name
    } else {
        name.take(i)
    }
}

/// The path with its extension set to `ext` (`PathBuf::set_extension`, for a
/// non-empty extension): the text is cut right after the file stem and
/// `.ext` is appended; a path without a file name is left as it is.
pub open spec fn with_extension(s: Seq<char>, ext: Seq<char>) -> Seq<char> {
    match file_name(s) {
        None => s,
        Some(name) => {
            let t = trim_tail(s);
            t.take(t.len() - name.len()) + file_stem(name) + "."@ + ext
        },
    }
}

// ---------------------------------------------------------------------------
// Lemmas
// ---------------------------------------------------------------------------

proof fn lemma_segments_nonempty(s: Seq<char>)
    ensures
        segments(s).len() >= 1,
    decreases s.len(),
{
    if s.len() > 0 {
        lemma_segments_nonempty(s.drop_last());
    }
}

proof fn lemma_last_index_bounds(s: Seq<char>, c: char)
    ensures
        -1 <= last_index(s, c) < s.len(),
        last_index(s, c) >= 0 ==> s[last_index(s, c)] == c,
        forall|j: int| last_index(s, c) < j < s.len() ==> s[j] != c,
    decreases s.len(),
{
    if s.len() > 0 && s.last() != c {
        lemma_last_index_bounds(s.drop_last(), c);
        assert forall|j: int| last_index(s, c) < j < s.len() implies s[j] != c by {
            if j < s.len() - 1 {
                assert(s[j] == s.drop_last()[j]);
            }
        }
    }
}

// ---------------------------------------------------------------------------
// Executable functions
// ---------------------------------------------------------------------------

/// Whether two character sequences are equal.
pub fn chars_eq(a: &[char], b: &[char]) -> (r: bool)
    ensures
        r == (a@ == b@),
{
    if a.len() != b.len() {
        return false;
    }
    let n = a.len();
    for i in 0..n
        invariant
            n == a@.len(),
            n == b@.len(),
            forall|k: int| 0 <= k < i ==> a@[k] == b@[k],
    {
        if a[i] != b[i] {
            return false;
        }
    }
    assert(a@ =~= b@);
    true
}

fn last_index_exec(s: &[char], c: char) -> (r: Option<usize>)
    ensures
        match r {
            Some(i) => last_index(s@, c) == i as int && i < s.len(),
            None => last_index(s@, c) == -1,
        },
{
    let mut k = s.len();
    assert(s@.take(k as int) =~= s@);
    while k > 0
        invariant
            k <= s@.len(),
            last_index(s@, c) == last_index(s@.take(k as int), c),
        decreases k,
    {
        assert(s@.take(k as int).drop_last() =~= s@.take(k - 1));
        if s[k - 1] == c {
            return Some(k - 1);
        }
        k = k - 1;
    }
    None
}

fn take_vec(s: &[char], n: usize) -> (r: Vec<char>)
    requires
        n <= s@.len(),
    ensures
        r@ == s@.take(n as int),
{
    let mut r: Vec<char> = Vec::new();
    for i in 0..n
        invariant
            n <= s@.len(),
            r@ == s@.take(i as int),
    {
        r.push(s[i]);
        assert(s@.take(i + 1) == s@.take(i as int).push(s@[i as int]));
    }
    r
}

fn skip_vec(s: &[char], n: usize) -> (r: Vec<char>)
    requires
        n <= s@.len(),
    ensures
        r@ == s@.skip(n as int),
{
    let mut r: Vec<char> = Vec::new();
    let len = s.len();
    for i in n..len
        invariant
            n <= i <= len,
            len == s@.len(),
            r@ == s@.subrange(n as int, i as int),
    {
        r.push(s[i]);
        assert(s@.subrange(n as int, i + 1) == s@.subrange(n as int, i as int).push(s@[i as int]));
    }
    r
}

fn segments_exec(s: &[char]) -> (r: Vec<Vec<char>>)
    ensures
        r@.map_values(|v: Vec<char>| v@) == segments(s@),
        r@.len() >= 1,
{
    let mut segs: Vec<Vec<char>> = Vec::new();
    let mut cur: Vec<char> = Vec::new();
    let n = s.len();
    assert(s@.take(0) =~= Seq::<char>::empty());
    for i in 0..n
        invariant
            n == s@.len(),
            segs@.map_values(|v: Vec<char>| v@).push(cur@) == segments(s@.take(i as int)),
    {
        let ghost before = segs@.map_values(|v: Vec<char>| v@).push(cur@);
        assert(s@.take(i + 1).drop_last() =~= s@.take(i as int));
        if s[i] == '/' {
            let done = cur;
            segs.push(done);
            cur = Vec::new();
            assert(segs@.map_values(|v: Vec<char>| v@).push(cur@) =~= before.push(Seq::<char>::empty()));
        } else {
            cur.push(s[i]);
            assert(segs@.map_values(|v: Vec<char>| v@).push(cur@) =~= before.update(
                before.len() - 1,
                before.last().push(s@[i as int]),
            ));
        }
    }
    assert(s@.take(n as int) =~= s@);
    let ghost before = segs@.map_values(|v: Vec<char>| v@).push(cur@);
    segs.push(cur);
    assert(segs@.map_values(|v: Vec<char>| v@) =~= before);
    segs
}

fn named_parts_exec(segs: &Vec<Vec<char>>) -> (r: Vec<Vec<char>>)
    ensures
        r@.map_values(|v: Vec<char>| v@) == named_parts(segs@.map_values(|v: Vec<char>| v@)),
{
    let ghost sv = segs@.map_values(|v: Vec<char>| v@);
    let dot = chars_of(".");
    let mut r: Vec<Vec<char>> = Vec::new();
    let n = segs.len();
    assert(sv.take(0) =~= Seq::<Seq<char>>::empty());
    for i in 0..n
        invariant
            n == segs@.len(),
            sv == segs@.map_values(|v: Vec<char>| v@),
            dot@ == "."@,
            r@.map_values(|v: Vec<char>| v@) == named_parts(sv.take(i as int)),
    {
        assert(sv.take(i + 1).drop_last() =~= sv.take(i as int));
        assert(sv.take(i + 1).last() == segs@[i as int]@);
        let g = &segs[i];
        if g.len() == 0 || chars_eq(g.as_slice(), dot.as_slice()) {
        } else {
            let ghost before = r@.map_values(|v: Vec<char>| v@);
            r.push(g.clone());
            assert(r@.map_values(|v: Vec<char>| v@) =~= before.push(g@));
        }
    }
    assert(sv.take(n as int) =~= sv);
    r
}

fn components_exec(s: &[char]) -> (r: Vec<Vec<char>>)
    ensures
        r@.map_values(|v: Vec<char>| v@) == components(s@),
{
    let segs = segments_exec(s);
    let named = named_parts_exec(&segs);
    let dot = chars_of(".");
    let ghost nv = named@.map_values(|v: Vec<char>| v@);
    if s.len() > 0 && s[0] == '/' {
        let mut r: Vec<Vec<char>> = Vec::new();
        r.push(chars_of("/"));
        let mut named = named;
        r.append(&mut named);
        assert(r@.map_values(|v: Vec<char>| v@) =~= seq!["/"@] + nv);
        r
    } else if chars_eq(segs[0].as_slice(), dot.as_slice()) {
        assert(segs@.map_values(|v: Vec<char>| v@)[0] == segs@[0]@);
        let mut r: Vec<Vec<char>> = Vec::new();
        r.push(dot);
        let mut named = named;
        r.append(&mut named);
        assert(r@.map_values(|v: Vec<char>| v@) =~= seq!["."@] + nv);
        r
    } else {
        assert(segs@.map_values(|v: Vec<char>| v@)[0] == segs@[0]@);
        named
    }
}

/// `Path::ends_with` on path text: whether the components of `child` are the
/// last components of `path`.
pub fn path_ends_with_exec(path: &str, child: &str) -> (r: bool)
    ensures
        r == path_ends_with(path@, child@),
{
    let p = chars_of(path);
    let c = chars_of(child);
    let a = components_exec(p.as_slice());
    let b = components_exec(c.as_slice());
    let ghost av = a@.map_values(|v: Vec<char>| v@);
    let ghost bv = b@.map_values(|v: Vec<char>| v@);
    assert(av.len() == a@.len() && bv.len() == b@.len());
    if b.len() > a.len() {
        return false;
    }
    let off = a.len() - b.len();
    let n = b.len();
    for i in 0..n
        invariant
            n == b@.len(),
            off + n == a.len(),
            av == a@.map_values(|v: Vec<char>| v@),
            bv == b@.map_values(|v: Vec<char>| v@),
            av == components(path@),
            bv == components(child@),
            forall|k: int| 0 <= k < i ==> av[off + k] == bv[k],
    {
        assert(av[off + i] == a@[off + i]@);
        assert(bv[i as int] == b@[i as int]@);
        if !chars_eq(a[off + i].as_slice(), b[i].as_slice()) {
            assert(av.skip(off as int)[i as int] != bv[i as int]);
            return false;
        }
    }
    assert(av.skip(off as int) =~= bv);
    true
}

fn trim_tail_len(s: &[char]) -> (k: usize)
    ensures
        k <= s@.len(),
        trim_tail(s@) == s@.take(k as int),
{
    let mut k = s.len();
    assert(s@.take(k as int) =~= s@);
    loop
        invariant
            k <= s@.len(),
            trim_tail(s@) == trim_tail(s@.take(k as int)),
        decreases k,
    {
        let ghost t = s@.take(k as int);
        if k > 0 && s[k - 1] == '/' {
            assert(t.drop_last() =~= s@.take(k - 1));
            k = k - 1;
        } else if k >= 2 && s[k - 1] == '.' && s[k - 2] == '/' {
            assert(t.drop_last() =~= s@.take(k - 1));
            k = k - 1;
        } else {
            return k;
        }
    }
}

/// The path text with its extension set to `ext`, as
/// `PathBuf::set_extension` does for a non-empty extension.
pub fn with_extension_exec(path: &str, ext: &str) -> (r: String)
    ensures
        r@ == with_extension(path@, ext@),
{
    let s = chars_of(path);
    let k = trim_tail_len(s.as_slice());
    let t = take_vec(s.as_slice(), k);
    let start: usize = match last_index_exec(t.as_slice(), '/') {
        Some(i) => i + 1,
        None => 0,
    };
    proof {
        lemma_last_index_bounds(t@, '/');
    }
    let seg = skip_vec(t.as_slice(), start);
    let dot = chars_of(".");
    let dotdot = chars_of("..");
    if seg.len() == 0 || chars_eq(seg.as_slice(), dot.as_slice()) || chars_eq(
        seg.as_slice(),
        dotdot.as_slice(),
    ) {
        return string_of(s.as_slice());
    }
    let stem: Vec<char> = match last_index_exec(seg.as_slice(), '.') {
        Some(i) => {
            if i == 0 {
                seg.clone()
            } else {
                take_vec(seg.as_slice(), i)
            }
        },
        None => seg.clone(),
    };
    let mut out = take_vec(t.as_slice(), start);
    assert(start == t@.len() - seg@.len());
    extend_chars(&mut out, stem.as_slice());
    extend_chars(&mut out, dot.as_slice());
    let e = chars_of(ext);
    extend_chars(&mut out, e.as_slice());
    string_of(out.as_slice())
}

/// The lock file that guards a registry file: the registry path with its
/// extension replaced by `lock`.
pub fn lock_path(registry_path: &str) -> (r: String)
    ensures
        r@ == with_extension(registry_path@, "lock"@),
{
    with_extension_exec(registry_path, "lock")
}

} // verus!
