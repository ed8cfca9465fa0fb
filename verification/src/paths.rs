//! Paths as text: joining a path onto another and naming its last
//! component as `std::path` does on Unix, and resolving `.` and `..` by
//! their text without climbing above the root.
use vstd::prelude::*;
use vstd::string::*;
use crate::text::{chars_of, same_chars, string_of, string_of_range, views_of};

verus! {

/// A path with a root: its text starts with `/`.
pub open spec fn has_root(p: Seq<char>) -> bool {
    p.len() > 0 && p[0] == '/'
}

/// `base` with `p` pushed onto it (`PathBuf::push`): a path with a root
/// replaces `base`; otherwise `p` is appended, with a `/` between them
/// unless `base` is empty or already ends in `/`.
pub open spec fn push_path(base: Seq<char>, p: Seq<char>) -> Seq<char> {
    if has_root(p) {
        p
    } else if base.len() > 0 && base.last() != '/' {
        base + seq!['/'] + p
    } else {
        base + p
    }
}

/// `s` without its trailing empty and `.` components.
pub open spec fn trim_trailing_components(s: Seq<char>) -> Seq<char>
    decreases s.len(),
{
    if s.len() == 0 {
        s
    } else if s.last() == '/' {
        trim_trailing_components(s.drop_last())
    } else if s.last() == '.' && s.len() == 1 {
        seq![]
    } else if s.last() == '.' && s[s.len() - 2] == '/' {
        trim_trailing_components(s.take(s.len() - 2))
    } else {
        s
    }
}

/// Decides `has_root`.
pub fn has_root_text(p: &str) -> (b: bool)
    ensures
        b == has_root(p@),
{
    p.unicode_len() > 0 && p.get_char(0) == '/'
}

/// Joins `p` onto `base` as `push_path` says.
pub fn push_path_text(base: &str, p: &str) -> (r: String)
    ensures
        r@ == push_path(base@, p@),
{
    let pv = chars_of(p);
    if pv.len() > 0 && pv[0] == '/' {
        return String::from_str(p);
    }
    let bv = chars_of(base);
    let mut r = String::from_str(base);
    if bv.len() > 0 && bv[bv.len() - 1] != '/' {
        r.push('/');
    }
    r.append(p);
    r
}

/// A name of a directory entry: not empty, without `/`, and neither `.`
/// nor `..`.
pub open spec fn is_proper_name(n: Seq<char>) -> bool {
    &&& n.len() > 0
    &&& !n.contains('/')
    &&& n != seq!['.']
    &&& n != seq!['.', '.']
}

/// The names of a path so far, after one more component `seg`: an empty
/// component and `.` change nothing, `..` goes back one name (and stays at
/// the root when there is none), any other component is one name more.
pub open spec fn apply_segment(names: Seq<Seq<char>>, seg: Seq<char>) -> Seq<Seq<char>> {
    if seg.len() == 0 || seg == seq!['.'] {
        names
    } else if seg == seq!['.', '.'] {
        if names.len() > 0 {
            names.drop_last()
        } else {
            names
        }
    } else {
        names.push(seg)
    }
}

/// The names of the finished components and the component in progress,
/// after reading `p` from left to right.
pub open spec fn scan_segments(p: Seq<char>) -> (Seq<Seq<char>>, Seq<char>)
    decreases p.len(),
{
    if p.len() == 0 {
        (seq![], seq![])
    } else {
        let (names, cur) = scan_segments(p.drop_last());
        if p.last() == '/' {
            (apply_segment(names, cur), seq![])
        } else {
            (names, cur.push(p.last()))
        }
    }
}

/// The names that `p` leads to from the root once `.` and `..` are
/// resolved by their text; `..` never climbs above the root.
pub open spec fn lexical_names(p: Seq<char>) -> Seq<Seq<char>> {
    let (names, cur) = scan_segments(p);
    apply_segment(names, cur)
}

/// Names joined by `/`.
pub open spec fn join_names(names: Seq<Seq<char>>) -> Seq<char>
    decreases names.len(),
{
    if names.len() == 0 {
        seq![]
    } else if names.len() == 1 {
        names[0]
    } else {
        join_names(names.drop_last()) + seq!['/'] + names.last()
    }
}

/// The names of `p`, resolved as `lexical_names` says.
pub fn lexical_names_of(p: &str) -> (r: Vec<Vec<char>>)
    ensures
        views_of(r@) == lexical_names(p@),
{
    let v = chars_of(p);
    let mut names: Vec<Vec<char>> = Vec::new();
    let mut cur: Vec<char> = Vec::new();
    let mut i: usize = 0;
    assert(v@.take(0) =~= seq![]);
    assert(views_of(names@) =~= seq![]);
    while i < v.len()
        invariant
            i <= v.len(),
            v@ == p@,
            (views_of(names@), cur@) == scan_segments(v@.take(i as int)),
        decreases v.len() - i,
    {
        let c = v[i];
        assert(v@.take(i + 1).drop_last() =~= v@.take(i as int));
        if c == '/' {
            let seg = cur;
            apply_segment_to(&mut names, seg);
            cur = Vec::new();
            assert(cur@ =~= seq![]);
        } else {
            cur.push(c);
        }
        i = i + 1;
    }
    assert(v@.take(v.len() as int) =~= v@);
    apply_segment_to(&mut names, cur);
    names
}

/// Changes `names` as `apply_segment` says.
fn apply_segment_to(names: &mut Vec<Vec<char>>, seg: Vec<char>)
    ensures
        views_of(final(names)@) == apply_segment(views_of(old(names)@), seg@),
{
    let ghost before = views_of(names@);
    let dot = vec!['.'];
    let dots = vec!['.', '.'];
    assert(dot@ =~= seq!['.']);
    assert(dots@ =~= seq!['.', '.']);
    if seg.len() == 0 || same_chars(&seg, &dot) {
        assert(seg@.len() == 0 || seg@ == seq!['.']);
    } else if same_chars(&seg, &dots) {
        if names.len() > 0 {
            let _ = names.pop();
            assert(views_of(names@) =~= before.drop_last());
        }
    } else {
        names.push(seg);
        assert(views_of(names@) =~= before.push(seg@));
    }
}

/// Joins names by `/` as `join_names` says.
pub fn join_names_text(names: &Vec<Vec<char>>) -> (r: String)
    ensures
        r@ == join_names(views_of(names@)),
{
    let ghost all = views_of(names@);
    let mut r = String::new();
    let mut i: usize = 0;
    assert(all.take(0) =~= seq![]);
    while i < names.len()
        invariant
            i <= names.len(),
            all == views_of(names@),
            r@ == join_names(all.take(i as int)),
        decreases names.len() - i,
    {
        let ghost pre = all.take(i as int);
        assert(all.take(i + 1).drop_last() =~= pre);
        assert(all[i as int] == names@[i as int]@);
        if i > 0 {
            r.push('/');
        }
        let piece = string_of(&names[i]);
        r.append(piece.as_str());
        i = i + 1;
    }
    assert(all.take(names.len() as int) =~= all);
    r
}

/// The text after the last `/` of `t` (all of `t` when it has none).
pub open spec fn last_component(t: Seq<char>) -> Seq<char>
    decreases t.len(),
{
    if t.len() == 0 {
        t
    } else if t.last() == '/' {
        seq![]
    } else {
        last_component(t.drop_last()).push(t.last())
    }
}

/// The name of the last component of `p` (`Path::file_name`): trailing
/// empty and `.` components do not count; a root, an empty path or a last
/// component `..` has no name.
pub open spec fn file_name(p: Seq<char>) -> Option<Seq<char>> {
    let c = last_component(trim_trailing_components(p));
    if c.len() == 0 || c == seq!['.', '.'] {
        None
    } else {
        Some(c)
    }
}

/// Finds the name of the last component of `p`, as `file_name` says.
pub fn file_name_text(p: &str) -> (r: Option<String>)
    ensures
        match r {
            Some(s) => file_name(p@) == Some(s@),
            None => file_name(p@) is None,
        },
{
    let v = chars_of(p);
    let n = v.len();
    let mut hi: usize = n;
    assert(v@.take(n as int) =~= v@);
    while hi > 0
        invariant
            n == v.len(),
            hi <= n,
            v@ == p@,
            trim_trailing_components(v@) == trim_trailing_components(v@.take(hi as int)),
        ensures
            hi <= n,
            trim_trailing_components(v@) == trim_trailing_components(v@.take(hi as int)),
            hi > 0 ==> v@[hi - 1] != '/',
            hi == 1 ==> v@[0] != '.',
            hi >= 2 ==> !(v@[hi - 1] == '.' && v@[hi - 2] == '/'),
        decreases hi,
    {
        let ghost cur = v@.take(hi as int);
        if v[hi - 1] == '/' {
            assert(cur.drop_last() =~= v@.take(hi - 1));
            hi = hi - 1;
        } else if v[hi - 1] == '.' && hi == 1 {
            assert(v@.take(0) =~= seq![]);
            hi = 0;
        } else if v[hi - 1] == '.' && hi >= 2 && v[hi - 2] == '/' {
            assert(cur.take(cur.len() - 2) =~= v@.take(hi - 2));
            hi = hi - 2;
        } else {
            break;
        }
    }
    let ghost t = v@.take(hi as int);
    assert(trim_trailing_components(t) == t) by {
        if t.len() > 0 {
            assert(t.last() == v@[hi - 1]);
            if t.len() > 1 {
                assert(t[t.len() - 2] == v@[hi - 2]);
            }
        }
    }
    let mut lo: usize = hi;
    assert(t.subrange(hi as int, hi as int) =~= seq![]);
    while lo > 0 && v[lo - 1] != '/'
        invariant
            lo <= hi <= n,
            n == v.len(),
            t == v@.take(hi as int),
            forall|k: int| lo <= k < hi ==> v@[k] != '/',
            last_component(t) == last_component(v@.take(lo as int)) + v@.subrange(
                lo as int,
                hi as int,
            ),
        decreases lo,
    {
        let ghost pre = v@.take(lo as int);
        assert(pre.drop_last() =~= v@.take(lo - 1));
        assert(v@.subrange(lo - 1, hi as int) =~= seq![v@[lo - 1]] + v@.subrange(
            lo as int,
            hi as int,
        ));
        assert(last_component(pre) == last_component(pre.drop_last()).push(v@[lo - 1]));
        lo = lo - 1;
    }
    assert(last_component(v@.take(lo as int)) =~= seq![]) by {
        if lo > 0 {
            assert(v@.take(lo as int).last() == '/');
        }
    }
    assert(last_component(t) =~= v@.subrange(lo as int, hi as int));
    let name = string_of_range(&v, lo, hi);
    if hi == lo || (hi - lo == 2 && v[lo] == '.' && v[lo + 1] == '.') {
        assert(hi == lo + 2 ==> v@.subrange(lo as int, hi as int) =~= seq![v@[lo as int], v@[lo + 1]]);
        None
    } else {
        assert(hi == lo + 2 ==> v@.subrange(lo as int, hi as int) =~= seq![v@[lo as int], v@[lo + 1]]);
        Some(name)
    }
}

} // verus!
