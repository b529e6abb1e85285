//! Paths as character sequences: component-wise comparison, joining, the
//! final component, and tilde expansion against a home directory.
//!
//! A path's components are written as character sequences: `"/"` for the
//! root, `"."` for a leading current-directory marker, `".."` for a parent
//! reference, and the name itself for every other component.

use vstd::prelude::*;
use crate::text::{chars_eq, chars_of, copy_chars, push_char, str_to_string, string_from_chars};

verus! {

/// Scans `s`, closing a segment at each `sep`: the closed segments and the open one.
pub open spec fn spec_split_acc(s: Seq<char>, sep: char) -> (Seq<Seq<char>>, Seq<char>)
    decreases s.len(),
{
    if s.len() == 0 {
        (Seq::empty(), Seq::empty())
    } else {
        let (done, cur) = spec_split_acc(s.drop_last(), sep);
        if s.last() == sep {
            (done.push(cur), Seq::empty())
        } else {
            (done, cur.push(s.last()))
        }
    }
}

/// `s` split at every `sep` (`str::split` with a character pattern).
pub open spec fn spec_split(s: Seq<char>, sep: char) -> Seq<Seq<char>> {
    let (done, cur) = spec_split_acc(s, sep);
    done.push(cur)
}

/// Segments that survive as components: non-empty and not `"."`.
pub open spec fn kept_segment() -> spec_fn(Seq<char>) -> bool {
    |seg: Seq<char>| seg.len() > 0 && seg != seq!['.']
}

/// The leading component: the root, a current-directory marker, or none.
pub open spec fn spec_lead(s: Seq<char>) -> Seq<Seq<char>> {
    if s.len() > 0 && s[0] == '/' {
        seq![seq!['/']]
    } else if spec_split(s, '/')[0] == seq!['.'] {
        seq![seq!['.']]
    } else {
        Seq::empty()
    }
}

/// The components of a Unix path (`Path::components`).
pub open spec fn spec_components(s: Seq<char>) -> Seq<Seq<char>> {
    spec_lead(s) + spec_split(s, '/').filter(kept_segment())
}

/// Two paths are equal when their components are (`Path`'s `==`).
pub open spec fn spec_paths_equal(a: Seq<char>, b: Seq<char>) -> bool {
    spec_components(a) == spec_components(b)
}

/// Whether a component is an ordinary name.
pub open spec fn spec_is_normal_component(c: Seq<char>) -> bool {
    c != seq!['/'] && c != seq!['.'] && c != seq!['.', '.']
}

/// The final component of a path when it is a name (`Path::file_name`).
pub open spec fn spec_file_name(s: Seq<char>) -> Option<Seq<char>> {
    let c = spec_components(s);
    if c.len() > 0 && spec_is_normal_component(c.last()) {
        Some(c.last())
    } else {
        None
    }
}

/// `base` extended by `rel` (`Path::join` on Unix).
pub open spec fn spec_path_join(base: Seq<char>, rel: Seq<char>) -> Seq<char> {
    if rel.len() > 0 && rel[0] == '/' {
        rel
    } else if base.len() > 0 && base.last() != '/' {
        base + seq!['/'] + rel
    } else {
        base + rel
    }
}

/// Whether tilde expansion rewrites `s`: it is `~` or begins with `~/`.
pub open spec fn spec_tilde_applies(s: Seq<char>) -> bool {
    s.len() > 0 && s[0] == '~' && (s.len() == 1 || s[1] == '/')
}

/// Tilde expansion of `s` against an optional home directory.
pub open spec fn spec_tilde(s: Seq<char>, home: Option<Seq<char>>) -> Seq<char> {
    if spec_tilde_applies(s) && home is Some {
        home->0 + s.drop_first()
    } else {
        s
    }
}

proof fn lemma_split_acc_concat(x: Seq<char>, y: Seq<char>, sep: char)
    ensures
        spec_split_acc(x + seq![sep] + y, sep) == (
            spec_split(x, sep) + spec_split_acc(y, sep).0,
            spec_split_acc(y, sep).1,
        ),
    decreases y.len(),
{
    let s = x + seq![sep] + y;
    if y.len() == 0 {
        assert(s.drop_last() =~= x);
        assert(s.last() == sep);
        assert(spec_split(x, sep) + Seq::<Seq<char>>::empty() =~= spec_split(x, sep));
    } else {
        let y2 = y.drop_last();
        lemma_split_acc_concat(x, y2, sep);
        assert(s.drop_last() =~= x + seq![sep] + y2);
        assert(s.last() == y.last());
        let (d2, c2) = spec_split_acc(y2, sep);
        if y.last() == sep {
            assert((spec_split(x, sep) + d2).push(c2) =~= spec_split(x, sep) + d2.push(c2));
        }
    }
}

/// Splitting at a separator splits the two sides apart: the segments of
/// `x`, then those of `y`.
pub proof fn lemma_split_concat(x: Seq<char>, y: Seq<char>, sep: char)
    ensures
        spec_split(x + seq![sep] + y, sep) == spec_split(x, sep) + spec_split(y, sep),
{
    lemma_split_acc_concat(x, y, sep);
    let (d, c) = spec_split_acc(y, sep);
    assert((spec_split(x, sep) + d).push(c) =~= spec_split(x, sep) + d.push(c));
}

proof fn lemma_split_empty(sep: char)
    ensures
        spec_split(Seq::<char>::empty(), sep) == seq![Seq::<char>::empty()],
{
    assert(Seq::<Seq<char>>::empty().push(Seq::<char>::empty()) =~= seq![Seq::<char>::empty()]);
}

proof fn lemma_filter_drops_empty(a: Seq<Seq<char>>, b: Seq<Seq<char>>)
    ensures
        (a + seq![Seq::<char>::empty()] + b).filter(kept_segment()) == (a + b).filter(kept_segment()),
{
    broadcast use Seq::filter_distributes_over_add;
    reveal(Seq::filter);
    let e = seq![Seq::<char>::empty()];
    assert(e.drop_last() =~= Seq::<Seq<char>>::empty());
    assert(e.last() == Seq::<char>::empty());
    assert(!kept_segment()(e.last()));
    assert(Seq::<Seq<char>>::empty().filter(kept_segment()) =~= Seq::<Seq<char>>::empty());
    assert(e.filter(kept_segment()) =~= Seq::<Seq<char>>::empty());
    assert((a + e).filter(kept_segment()) =~= a.filter(kept_segment()) + e.filter(kept_segment()));
    assert((a + e + b).filter(kept_segment()) == (a + e).filter(kept_segment()) + b.filter(
        kept_segment(),
    ));
    assert((a + b).filter(kept_segment()) == a.filter(kept_segment()) + b.filter(kept_segment()));
    assert(a.filter(kept_segment()) + Seq::<Seq<char>>::empty() =~= a.filter(kept_segment()));
}

/// A doubled `/` in a rooted path names the same components as a single one.
pub proof fn lemma_components_double_slash(a: Seq<char>, r: Seq<char>)
    requires
        a.len() == 0 || a[0] == '/',
    ensures
        spec_components(a + seq!['/'] + (seq!['/'] + r)) == spec_components(a + seq!['/'] + r),
{
    let s1 = a + seq!['/'] + (seq!['/'] + r);
    let s2 = a + seq!['/'] + r;
    lemma_split_concat(a, seq!['/'] + r, '/');
    assert(seq!['/'] + r =~= Seq::<char>::empty() + seq!['/'] + r);
    lemma_split_concat(Seq::<char>::empty(), r, '/');
    lemma_split_empty('/');
    lemma_split_concat(a, r, '/');
    let sa = spec_split(a, '/');
    let sr = spec_split(r, '/');
    assert(spec_split(s1, '/') =~= sa + seq![Seq::<char>::empty()] + sr);
    lemma_filter_drops_empty(sa, sr);
    assert(s1[0] == '/');
    assert(s2[0] == '/');
}

/// A trailing `/` on a rooted path does not change its components.
pub proof fn lemma_components_trailing_slash(a: Seq<char>)
    requires
        a.len() > 0,
        a[0] == '/',
    ensures
        spec_components(a + seq!['/']) == spec_components(a),
{
    let s1 = a + seq!['/'];
    assert(s1 =~= a + seq!['/'] + Seq::<char>::empty());
    lemma_split_concat(a, Seq::<char>::empty(), '/');
    lemma_split_empty('/');
    let sa = spec_split(a, '/');
    assert(spec_split(s1, '/') =~= sa + seq![Seq::<char>::empty()] + Seq::<Seq<char>>::empty());
    lemma_filter_drops_empty(sa, Seq::<Seq<char>>::empty());
    assert(sa + Seq::<Seq<char>>::empty() =~= sa);
    assert(s1[0] == '/');
}

/// The view of an optional string slice.
pub open spec fn opt_str_view(o: Option<&str>) -> Option<Seq<char>> {
    match o {
        Some(s) => Some(s@),
        None => None,
    }
}

/// The view of an optional string.
pub open spec fn opt_string_view(o: Option<String>) -> Option<Seq<char>> {
    match o {
        Some(s) => Some(s@),
        None => None,
    }
}

/// Calls `dirs::home_dir`, keeping the directory only when it is valid
/// Unicode. What it returns depends on the environment, so nothing is
/// claimed of it.
#[verifier::external_body]
pub(crate) fn home_dir() -> (r: Option<String>) {
    dirs::home_dir().and_then(|p| p.into_os_string().into_string().ok())
}

/// Calls `dirs::cache_dir`, keeping the directory only when it is valid
/// Unicode. What it returns depends on the environment, so nothing is
/// claimed of it.
#[verifier::external_body]
pub(crate) fn cache_dir() -> (r: Option<String>) {
    dirs::cache_dir().and_then(|p| p.into_os_string().into_string().ok())
}

/// Calls `Path::exists`. Whether a path exists is a fact about the disk at
/// the time of the call, so nothing is claimed of the answer.
#[verifier::external_body]
pub(crate) fn path_exists(path: &str) -> (r: bool) {
    std::path::Path::new(path).exists()
}

/// Calls `shellexpand::tilde_with_context` with `home` as the home
/// directory. As that function's source shows, the result is `home`
/// followed by the rest of `input` when `input` is `~` or starts with `~/`
/// and a home is given, and `input` itself otherwise.
#[verifier::external_body]
pub(crate) fn tilde_with_home(input: &str, home: Option<&str>) -> (r: String)
    ensures
        r@ == spec_tilde(input@, opt_str_view(home)),
{
    shellexpand::tilde_with_context(input, || home).into_owned()
}

/// `base` extended by `rel`, as `Path::join` does on Unix.
pub fn path_join(base: &str, rel: &str) -> (r: String)
    ensures
        r@ == spec_path_join(base@, rel@),
{
    let b = chars_of(base);
    let rv = chars_of(rel);
    if rv.len() > 0 && rv[0] == '/' {
        return str_to_string(rel);
    }
    let mut r = str_to_string(base);
    if b.len() > 0 && b[b.len() - 1] != '/' {
        push_char(&mut r, '/');
    }
    r.append(rel);
    r
}

/// The segments of `v` between occurrences of `sep`.
pub fn split_chars(v: &Vec<char>, sep: char) -> (segs: Vec<Vec<char>>)
    ensures
        segs@.map_values(|w: Vec<char>| w@) == spec_split(v@, sep),
{
    let mut done: Vec<Vec<char>> = Vec::new();
    let mut cur: Vec<char> = Vec::new();
    let mut i: usize = 0;
    while i < v.len()
        invariant
            i <= v@.len(),
            (done@.map_values(|w: Vec<char>| w@), cur@) == spec_split_acc(v@.take(i as int), sep),
        decreases v@.len() - i,
    {
        assert(v@.take(i + 1).drop_last() =~= v@.take(i as int));
        let c = v[i];
        if c == sep {
            let closed = cur;
            done.push(closed);
            cur = Vec::new();
            assert(done@.map_values(|w: Vec<char>| w@) =~= spec_split_acc(v@.take(i + 1), sep).0);
        } else {
            cur.push(c);
        }
        i = i + 1;
    }
    assert(v@.take(v@.len() as int) =~= v@);
    done.push(cur);
    assert(done@.map_values(|w: Vec<char>| w@) =~= spec_split(v@, sep));
    done
}

fn is_dot(seg: &Vec<char>) -> (r: bool)
    ensures
        r == (seg@ == seq!['.']),
{
    if seg.len() == 1 && seg[0] == '.' {
        assert(seg@ =~= seq!['.']);
        true
    } else {
        false
    }
}

/// The components of the path `v`, as `Path::components` yields them.
pub fn components_chars(v: &Vec<char>) -> (comps: Vec<Vec<char>>)
    ensures
        comps@.map_values(|w: Vec<char>| w@) == spec_components(v@),
{
    let segs = split_chars(v, '/');
    let ghost segv = segs@.map_values(|w: Vec<char>| w@);
    let mut comps: Vec<Vec<char>> = Vec::new();
    assert(segs@.len() == segv.len() && segv.len() > 0);
    assert(segv[0] == segs@[0]@);
    if v.len() > 0 && v[0] == '/' {
        let mut root: Vec<char> = Vec::new();
        root.push('/');
        comps.push(root);
        assert(comps@.map_values(|w: Vec<char>| w@) =~= spec_lead(v@));
    } else if is_dot(&segs[0]) {
        let mut dot: Vec<char> = Vec::new();
        dot.push('.');
        assert(dot@ =~= seq!['.']);
        comps.push(dot);
        assert(comps@.map_values(|w: Vec<char>| w@) =~= spec_lead(v@));
    } else {
        assert(comps@.map_values(|w: Vec<char>| w@) =~= spec_lead(v@));
    }
    let ghost lead = comps@.map_values(|w: Vec<char>| w@);
    let mut i: usize = 0;
    while i < segs.len()
        invariant
            i <= segs@.len(),
            segv == segs@.map_values(|w: Vec<char>| w@),
            lead == spec_lead(v@),
            segv == spec_split(v@, '/'),
            comps@.map_values(|w: Vec<char>| w@) == lead + segv.take(i as int).filter(kept_segment()),
        decreases segs@.len() - i,
    {
        reveal(Seq::filter);
        assert(segv.take(i + 1).drop_last() =~= segv.take(i as int));
        assert(segv.take(i + 1).last() == segs@[i as int]@);
        let seg = &segs[i];
        if seg.len() > 0 && !is_dot(seg) {
            assert(kept_segment()(seg@));
            assert(segv.take(i + 1).filter(kept_segment()) == segv.take(i as int).filter(
                kept_segment(),
            ).push(seg@));
            let ghost before = comps@.map_values(|w: Vec<char>| w@);
            let copied = copy_chars(seg);
            comps.push(copied);
            assert(comps@.map_values(|w: Vec<char>| w@) =~= before.push(seg@));
            assert(comps@.map_values(|w: Vec<char>| w@) =~= lead + segv.take(i + 1).filter(kept_segment()));
        } else {
            assert(!kept_segment()(seg@));
            assert(segv.take(i + 1).filter(kept_segment()) == segv.take(i as int).filter(
                kept_segment(),
            ));
            assert(comps@.map_values(|w: Vec<char>| w@) =~= lead + segv.take(i + 1).filter(kept_segment()));
        }
        i = i + 1;
    }
    assert(segv.take(segs@.len() as int) =~= segv);
    comps
}

/// Whether two lists of components are equal.
fn components_eq(a: &Vec<Vec<char>>, b: &Vec<Vec<char>>) -> (r: bool)
    ensures
        r == (a@.map_values(|w: Vec<char>| w@) == b@.map_values(|w: Vec<char>| w@)),
{
    let ghost av = a@.map_values(|w: Vec<char>| w@);
    let ghost bv = b@.map_values(|w: Vec<char>| w@);
    if a.len() != b.len() {
        assert(av.len() != bv.len());
        return false;
    }
    let mut i: usize = 0;
    while i < a.len()
        invariant
            a@.len() == b@.len(),
            i <= a@.len(),
            av == a@.map_values(|w: Vec<char>| w@),
            bv == b@.map_values(|w: Vec<char>| w@),
            forall|j: int| 0 <= j < i ==> av[j] == bv[j],
        decreases a@.len() - i,
    {
        if !chars_eq(&a[i], &b[i]) {
            assert(av[i as int] != bv[i as int]);
            return false;
        }
        i = i + 1;
    }
    assert(av =~= bv);
    true
}

/// Whether two paths name the same components (`Path`'s `==`).
pub fn paths_equal(a: &str, b: &str) -> (r: bool)
    ensures
        r == spec_paths_equal(a@, b@),
{
    let av = chars_of(a);
    let bv = chars_of(b);
    let ac = components_chars(&av);
    let bc = components_chars(&bv);
    components_eq(&ac, &bc)
}

/// The final component of `path` when it is a name (`Path::file_name`).
pub fn file_name(path: &str) -> (r: Option<String>)
    ensures
        opt_string_view(r) == spec_file_name(path@),
{
    let v = chars_of(path);
    let comps = components_chars(&v);
    let ghost cv = comps@.map_values(|w: Vec<char>| w@);
    if comps.len() == 0 {
        return None;
    }
    let last = &comps[comps.len() - 1];
    assert(cv.last() == last@);
    let n: usize = last.len();
    let is_root = n == 1 && last[0] == '/';
    let is_cur = n == 1 && last[0] == '.';
    let is_parent = n == 2 && last[0] == '.' && last[1] == '.';
    if is_root || is_cur || is_parent {
        proof {
            if is_root { assert(last@ =~= seq!['/']); }
            if is_cur { assert(last@ =~= seq!['.']); }
            if is_parent { assert(last@ =~= seq!['.', '.']); }
        }
        None
    } else {
        proof {
            if last@ == seq!['/'] || last@ == seq!['.'] {
                assert(last@.len() == 1);
            }
            if last@ == seq!['.', '.'] {
                assert(last@.len() == 2);
            }
        }
        Some(string_from_chars(last))
    }
}

} // verus!
