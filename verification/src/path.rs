//! Paths, read with `/` as the only separator: the last component, its
//! extension and stem, and joining.
use vstd::prelude::*;
use crate::text::{chars_of, string_from};

verus! {

/// End of the last component of `p[..end]` that is neither empty nor `.`
/// (0 when there is none).
pub open spec fn name_end(p: Seq<char>, end: int) -> int
    decreases end,
{
    if end <= 0 {
        0
    } else if p[end - 1] == '/' {
        name_end(p, end - 1)
    } else if p[end - 1] == '.' && (end == 1 || p[end - 2] == '/') {
        name_end(p, end - 1)
    } else {
        end
    }
}

/// Start of the component of `p` that ends at `end`.
pub open spec fn component_start(p: Seq<char>, end: int) -> int
    decreases end,
{
    if end <= 0 {
        0
    } else if p[end - 1] == '/' {
        end
    } else {
        component_start(p, end - 1)
    }
}

/// The final component of `p`, or `None` when `p` has none or it is `..`.
pub open spec fn file_name_of(p: Seq<char>) -> Option<Seq<char>> {
    let e = name_end(p, p.len() as int);
    let name = p.subrange(component_start(p, e), e);
    if e == 0 || name == seq!['.', '.'] {
        None
    } else {
        Some(name)
    }
}

/// Position of the last `.` in `s[..end]`, or -1.
pub open spec fn last_dot(s: Seq<char>, end: int) -> int
    decreases end,
{
    if end <= 0 {
        -1
    } else if s[end - 1] == '.' {
        end - 1
    } else {
        last_dot(s, end - 1)
    }
}

/// The extension of a file name: what follows its last `.`, unless that `.`
/// is its first character or it has none.
pub open spec fn extension_of(name: Seq<char>) -> Option<Seq<char>> {
    let k = last_dot(name, name.len() as int);
    if k <= 0 {
        None
    } else {
        Some(name.subrange(k + 1, name.len() as int))
    }
}

/// The stem of a file name: what precedes its last `.`, or all of it when
/// that `.` is its first character or it has none.
pub open spec fn stem_of(name: Seq<char>) -> Seq<char> {
    let k = last_dot(name, name.len() as int);
    if k <= 0 {
        name
    } else {
        name.subrange(0, k)
    }
}

/// The extension of the final component of `p`.
pub open spec fn path_extension(p: Seq<char>) -> Option<Seq<char>> {
    match file_name_of(p) {
        Some(name) => extension_of(name),
        None => None,
    }
}

/// The stem of the final component of `p`.
pub open spec fn path_stem(p: Seq<char>) -> Option<Seq<char>> {
    match file_name_of(p) {
        Some(name) => Some(stem_of(name)),
        None => None,
    }
}

/// `base` with `p` joined on: `p` itself when it is absolute, else `p` after
/// `base` and a `/` where `base` is not empty and does not end with one.
pub open spec fn join(base: Seq<char>, p: Seq<char>) -> Seq<char> {
    if p.len() > 0 && p[0] == '/' {
        p
    } else if base.len() == 0 || base.last() == '/' {
        base + p
    } else {
        base + seq!['/'] + p
    }
}

proof fn lemma_name_end(p: Seq<char>, end: int)
    requires
        0 <= end <= p.len(),
    ensures
        0 <= name_end(p, end) <= end,
        name_end(p, end) > 0 ==> p[name_end(p, end) - 1] != '/',
    decreases end,
{
    if end > 0 && (p[end - 1] == '/' || (p[end - 1] == '.' && (end == 1 || p[end - 2] == '/'))) {
        lemma_name_end(p, end - 1);
    }
}

proof fn lemma_component_has_no_slash(p: Seq<char>, end: int)
    requires
        0 <= end <= p.len(),
    ensures
        0 <= component_start(p, end) <= end,
        forall|j: int| component_start(p, end) <= j < end ==> p[j] != '/',
    decreases end,
{
    if end > 0 && p[end - 1] != '/' {
        lemma_component_has_no_slash(p, end - 1);
    }
}

proof fn lemma_component_start_without_slash(p: Seq<char>, end: int)
    requires
        0 <= end <= p.len(),
        forall|j: int| 0 <= j < end ==> p[j] != '/',
    ensures
        component_start(p, end) == 0,
    decreases end,
{
    if end > 0 {
        lemma_component_start_without_slash(p, end - 1);
    }
}

proof fn lemma_last_dot_is_last(s: Seq<char>, end: int)
    requires
        0 <= end <= s.len(),
    ensures
        -1 <= last_dot(s, end) < end,
        forall|j: int| last_dot(s, end) < j < end ==> s[j] != '.',
    decreases end,
{
    if end > 0 && s[end - 1] != '.' {
        lemma_last_dot_is_last(s, end - 1);
    }
}

proof fn lemma_last_dot_skips(s: Seq<char>, k: int, end: int)
    requires
        0 <= k < end <= s.len(),
        s[k] == '.',
        forall|j: int| k < j < end ==> s[j] != '.',
    ensures
        last_dot(s, end) == k,
    decreases end,
{
    if end - 1 > k {
        lemma_last_dot_skips(s, k, end - 1);
    }
}

/// An extension read from a path holds neither `.` nor `/`.
pub proof fn lemma_extension_is_plain(p: Seq<char>)
    ensures
        path_extension(p) matches Some(x) ==> forall|j: int|
            0 <= j < x.len() ==> #[trigger] x[j] != '.' && x[j] != '/',
{
    let e = name_end(p, p.len() as int);
    lemma_name_end(p, p.len() as int);
    lemma_component_has_no_slash(p, e);
    let name = p.subrange(component_start(p, e), e);
    lemma_last_dot_is_last(name, name.len() as int);
    if let Some(x) = path_extension(p) {
        let k = last_dot(name, name.len() as int);
        assert forall|j: int| 0 <= j < x.len() implies #[trigger] x[j] != '.' && x[j] != '/' by {
            assert(x[j] == name[k + 1 + j]);
            assert(name[k + 1 + j] == p[component_start(p, e) + k + 1 + j]);
        }
    }
}

/// A name made of a stem of two or more characters, a `.` and an extension,
/// none holding `/` and the extension holding no `.`, has that extension.
pub proof fn lemma_extension_of_dotted(stem: Seq<char>, ext: Seq<char>)
    requires
        stem.len() >= 2,
        forall|j: int| 0 <= j < stem.len() ==> #[trigger] stem[j] != '/',
        forall|j: int| 0 <= j < ext.len() ==> #[trigger] ext[j] != '/' && ext[j] != '.',
    ensures
        path_extension(stem + seq!['.'] + ext) == Some(ext),
{
    let n = stem + seq!['.'] + ext;
    let len = n.len() as int;
    assert forall|j: int| 0 <= j < len implies n[j] != '/' by {
        if j < stem.len() {
            assert(n[j] == stem[j]);
        } else if j > stem.len() {
            assert(n[j] == ext[j - stem.len() - 1]);
        }
    }
    assert(n[len - 2] != '/');
    assert(name_end(n, len) == len);
    lemma_component_start_without_slash(n, len);
    assert(n.subrange(0, len) =~= n);
    assert(n != seq!['.', '.']) by {
        if n == seq!['.', '.'] {
            assert(n.len() == 2);
        }
    }
    assert(file_name_of(n) == Some(n));
    let k = stem.len() as int;
    assert forall|j: int| k < j < len implies n[j] != '.' by {
        assert(n[j] == ext[j - k - 1]);
    }
    lemma_last_dot_skips(n, k, len);
    assert(n.subrange(k + 1, len) =~= ext);
}

/// Bounds of the final component of `p`, if it has one other than `..`.
fn file_name_bounds(p: &Vec<char>) -> (res: Option<(usize, usize)>)
    ensures
        match res {
            Some((s, e)) => s <= e <= p@.len() && file_name_of(p@) == Some(
                p@.subrange(s as int, e as int),
            ),
            None => file_name_of(p@) is None,
        },
{
    let mut e = p.len();
    while e > 0 && (p[e - 1] == '/' || (p[e - 1] == '.' && (e == 1 || p[e - 2] == '/')))
        invariant
            e <= p@.len(),
            name_end(p@, p@.len() as int) == name_end(p@, e as int),
        decreases e,
    {
        e -= 1;
    }
    proof {
        lemma_name_end(p@, e as int);
    }
    if e == 0 {
        return None;
    }
    let mut s = e;
    while s > 0 && p[s - 1] != '/'
        invariant
            s <= e <= p@.len(),
            component_start(p@, e as int) == component_start(p@, s as int),
        decreases s,
    {
        s -= 1;
    }
    if e - s == 2 && p[s] == '.' && p[s + 1] == '.' {
        assert(p@.subrange(s as int, e as int) =~= seq!['.', '.']);
        return None;
    }
    assert(p@.subrange(s as int, e as int) != seq!['.', '.']) by {
        if p@.subrange(s as int, e as int) == seq!['.', '.'] {
            assert(p@.subrange(s as int, e as int)[0] == p@[s as int]);
            assert(p@.subrange(s as int, e as int)[1] == p@[s + 1]);
        }
    }
    Some((s, e))
}

/// Position of the last `.` in `s[lo..hi]`, relative to `lo`, or `None`.
fn last_dot_in(s: &Vec<char>, lo: usize, hi: usize) -> (res: Option<usize>)
    requires
        lo <= hi <= s@.len(),
    ensures
        match res {
            Some(k) => k < hi - lo && last_dot(s@.subrange(lo as int, hi as int), hi - lo) == k,
            None => last_dot(s@.subrange(lo as int, hi as int), hi - lo) == -1,
        },
{
    let ghost name = s@.subrange(lo as int, hi as int);
    let mut end = hi;
    while end > lo && s[end - 1] != '.'
        invariant
            lo <= end <= hi,
            hi <= s@.len(),
            name == s@.subrange(lo as int, hi as int),
            last_dot(name, hi - lo) == last_dot(name, end - lo),
        decreases end,
    {
        assert(name[end - lo - 1] == s@[end - 1]);
        end -= 1;
    }
    if end == lo {
        None
    } else {
        assert(name[end - lo - 1] == s@[end - 1]);
        Some(end - 1 - lo)
    }
}

/// The extension of the final component of `path`, if it has one.
pub fn extension(path: &str) -> (res: Option<String>)
    ensures
        match res {
            Some(x) => path_extension(path@) == Some(x@),
            None => path_extension(path@) is None,
        },
{
    let p = chars_of(path);
    match file_name_bounds(&p) {
        None => None,
        Some((s, e)) => {
            let ghost name = p@.subrange(s as int, e as int);
            match last_dot_in(&p, s, e) {
                None => None,
                Some(k) => {
                    if k == 0 {
                        None
                    } else {
                        let x = string_from(&p, s + k + 1, e);
                        assert(x@ =~= name.subrange(k + 1, name.len() as int));
                        Some(x)
                    }
                },
            }
        },
    }
}

/// The stem of the final component of `path`, if it has a final component.
pub fn file_stem(path: &str) -> (res: Option<String>)
    ensures
        match res {
            Some(x) => path_stem(path@) == Some(x@),
            None => path_stem(path@) is None,
        },
{
    let p = chars_of(path);
    match file_name_bounds(&p) {
        None => None,
        Some((s, e)) => {
            let ghost name = p@.subrange(s as int, e as int);
            match last_dot_in(&p, s, e) {
                Some(k) => {
                    if k > 0 {
                        let x = string_from(&p, s, s + k);
                        assert(x@ =~= name.subrange(0, k as int));
                        return Some(x);
                    }
                },
                None => {},
            }
            Some(string_from(&p, s, e))
        },
    }
}

/// `p` joined onto `base`.
pub fn join_path(base: &str, p: &str) -> (res: String)
    ensures
        res@ == join(base@, p@),
{
    let b = chars_of(base);
    let q = chars_of(p);
    if q.len() > 0 && q[0] == '/' {
        return String::from_str(p);
    }
    let mut res = String::from_str(base);
    if b.len() > 0 && b[b.len() - 1] != '/' {
        res.push('/');
    }
    res.append(p);
    assert(res@ =~= join(base@, p@));
    res
}

} // verus!
