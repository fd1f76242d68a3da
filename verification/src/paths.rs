//! How `std::path::Path` reads a path on Unix: its components, its file name,
//! and the stem and extension of that name.

use crate::text::all_chars;
use vstd::prelude::*;

verus! {

/// The path begins at the root (`/`).
pub open spec fn starts_at_root(s: Seq<char>) -> bool {
    s.len() > 0 && s[0] == '/'
}

/// The path begins with a `.` component, which `Path::components` keeps as
/// `CurDir` (a `.` anywhere else is normalized away).
pub open spec fn starts_at_cur_dir(s: Seq<char>) -> bool {
    s.len() > 0 && s[0] == '.' && (s.len() == 1 || s[1] == '/')
}

/// A `..` component (`ParentDir`) begins at index `i`.
pub open spec fn parent_dir_at(s: Seq<char>, i: int) -> bool {
    &&& 0 <= i
    &&& i + 1 < s.len()
    &&& s[i] == '.'
    &&& s[i + 1] == '.'
    &&& (i == 0 || s[i - 1] == '/')
    &&& (i + 2 == s.len() || s[i + 2] == '/')
}

/// Some component of the path is `..`.
pub open spec fn has_parent_dir(s: Seq<char>) -> bool {
    exists|i: int| parent_dir_at(s, i)
}

/// None of the components is `RootDir`, `CurDir` or `ParentDir`.
pub open spec fn path_valid(s: Seq<char>) -> bool {
    !starts_at_root(s) && !starts_at_cur_dir(s) && !has_parent_dir(s)
}

/// Joining two valid paths with a separator, the first not empty, gives a
/// valid path: `a/b` has no root, no leading `.` and no `..` component.
pub proof fn valid_paths_join(a: Seq<char>, b: Seq<char>)
    requires
        path_valid(a),
        path_valid(b),
        a.len() > 0,
    ensures
        path_valid(a + seq!['/'] + b),
{
    let j = a + seq!['/'] + b;
    let n = a.len() as int;
    assert(j[0] == a[0]);
    if a.len() == 1 {
        assert(j[1] == '/');
    } else {
        assert(j[1] == a[1]);
    }
    assert forall|i: int| !parent_dir_at(j, i) by {
        if parent_dir_at(j, i) {
            if i + 1 < n {
                assert(j[i] == a[i] && j[i + 1] == a[i + 1]);
                if i > 0 {
                    assert(j[i - 1] == a[i - 1]);
                }
                if i + 2 < n {
                    assert(j[i + 2] == a[i + 2]);
                }
                assert(parent_dir_at(a, i));
            } else if i + 1 == n || i == n {
                assert(j[n] == '/');
            } else {
                let k = i - n - 1;
                assert(j[i] == b[k] && j[i + 1] == b[k + 1]);
                if k > 0 {
                    assert(j[i - 1] == b[k - 1]);
                }
                if i + 2 < j.len() {
                    assert(j[i + 2] == b[k + 2]);
                }
                assert(parent_dir_at(b, k));
            }
        }
    }
}

/// `path_is_valid`'s check, on characters.
pub fn path_chars_valid(v: &Vec<char>) -> (r: bool)
    ensures
        r == path_valid(v@),
{
    let n = v.len();
    if n > 0 && v[0] == '/' {
        return false;
    }
    if n > 0 && v[0] == '.' && (n == 1 || v[1] == '/') {
        return false;
    }
    let mut i: usize = 0;
    while i < n && i + 1 < n
        invariant
            n == v.len(),
            i <= n,
            forall|j: int| 0 <= j < i ==> !parent_dir_at(v@, j),
        decreases n - i,
    {
        if v[i] == '.' && v[i + 1] == '.' && (i == 0 || v[i - 1] == '/') && (i + 2 == n || v[i + 2]
            == '/') {
            assert(parent_dir_at(v@, i as int));
            return false;
        }
        i = i + 1;
    }
    assert forall|j: int| !parent_dir_at(v@, j) by {
        if j >= i {
            assert(!(j + 1 < n));
        }
    }
    true
}

// ---------------------------------------------------------------------------
// File name, stem and extension
// ---------------------------------------------------------------------------

/// The index just after the last `/`, or 0 when there is none.
pub open spec fn segment_start(s: Seq<char>) -> nat
    decreases s.len(),
{
    if s.len() == 0 {
        0
    } else if s.last() == '/' {
        s.len()
    } else {
        segment_start(s.drop_last())
    }
}

/// `segment_start` lies within the sequence, and before its end when the last
/// character is not a separator.
pub proof fn lemma_segment_start_bound(s: Seq<char>)
    ensures
        segment_start(s) <= s.len(),
        s.len() > 0 && s.last() != '/' ==> segment_start(s) < s.len(),
    decreases s.len(),
{
    if s.len() > 0 && s.last() != '/' {
        lemma_segment_start_bound(s.drop_last());
    }
}

/// The last component that `Path::components` yields, skipping trailing
/// separators and `.` components (which are normalized away), or `None` when
/// there is none.
pub open spec fn last_component(s: Seq<char>) -> Option<Seq<char>>
    decreases s.len(),
{
    if s.len() == 0 {
        None
    } else if s.last() == '/' {
        last_component(s.drop_last())
    } else {
        let k = segment_start(s) as int;
        proof {
            lemma_segment_start_bound(s);
        }
        if s.subrange(k, s.len() as int) == seq!['.'] {
            last_component(s.subrange(0, k))
        } else {
            Some(s.subrange(k, s.len() as int))
        }
    }
}

/// `Path::file_name`: the last component unless it is `..` (or missing).
pub open spec fn file_name_of(s: Seq<char>) -> Option<Seq<char>> {
    match last_component(s) {
        Some(c) => if c == seq!['.', '.'] {
            None
        } else {
            Some(c)
        },
        None => None,
    }
}

proof fn lemma_segment_start_no_separator(s: Seq<char>)
    ensures
        forall|j: int| segment_start(s) <= j < s.len() ==> s[j] != '/',
    decreases s.len(),
{
    if s.len() > 0 && s.last() != '/' {
        lemma_segment_start_no_separator(s.drop_last());
        assert forall|j: int| segment_start(s) <= j < s.len() implies s[j] != '/' by {
            if j < s.len() - 1 {
                assert(s[j] == s.drop_last()[j]);
            }
        }
    }
}

/// The last component of a path holds no separator, and it keeps any
/// property that every character of the path has.
pub proof fn lemma_last_component_props(s: Seq<char>, p: spec_fn(char) -> bool)
    requires
        all_chars(s, p),
    ensures
        last_component(s) matches Some(c) ==> all_chars(c, p) && !c.contains('/'),
    decreases s.len(),
{
    if s.len() == 0 {
    } else if s.last() == '/' {
        assert(all_chars(s.drop_last(), p)) by {
            assert forall|i: int| 0 <= i < s.drop_last().len() implies #[trigger] p(
                s.drop_last()[i],
            ) by {
                assert(s.drop_last()[i] == s[i]);
            }
        }
        lemma_last_component_props(s.drop_last(), p);
    } else {
        let k = segment_start(s) as int;
        lemma_segment_start_bound(s);
        lemma_segment_start_no_separator(s);
        let c = s.subrange(k, s.len() as int);
        if c == seq!['.'] {
            assert(all_chars(s.subrange(0, k), p)) by {
                assert forall|i: int| 0 <= i < s.subrange(0, k).len() implies #[trigger] p(
                    s.subrange(0, k)[i],
                ) by {
                    assert(s.subrange(0, k)[i] == s[i]);
                }
            }
            lemma_last_component_props(s.subrange(0, k), p);
        } else {
            assert forall|i: int| 0 <= i < c.len() implies #[trigger] p(c[i]) by {
                assert(c[i] == s[i + k]);
            }
            assert(!c.contains('/')) by {
                if c.contains('/') {
                    let i = choose|i: int| 0 <= i < c.len() && c[i] == '/';
                    assert(c[i] == s[i + k]);
                }
            }
        }
    }
}

/// The index of the last `c` in `s`, or -1.
pub open spec fn last_index_of(s: Seq<char>, c: char) -> int
    decreases s.len(),
{
    if s.len() == 0 {
        -1
    } else if s.last() == c {
        s.len() - 1
    } else {
        last_index_of(s.drop_last(), c)
    }
}

/// `last_index_of` is -1 or the index of a `c`, with no `c` after it.
pub proof fn lemma_last_index_bound(s: Seq<char>, c: char)
    ensures
        -1 <= last_index_of(s, c) < s.len(),
        last_index_of(s, c) >= 0 ==> s[last_index_of(s, c)] == c,
        forall|j: int| last_index_of(s, c) < j < s.len() ==> s[j] != c,
    decreases s.len(),
{
    if s.len() > 0 && s.last() != c {
        lemma_last_index_bound(s.drop_last(), c);
        assert forall|j: int| last_index_of(s, c) < j < s.len() implies s[j] != c by {
            if j < s.len() - 1 {
                assert(s[j] == s.drop_last()[j]);
            }
        }
    }
}

/// `Path::file_stem` and `Path::extension` of a file name: split at the last
/// `.`, unless the name is `..`, has no `.`, or has its only `.`-split at the
/// very start (a hidden file such as `.profile`).
pub open spec fn stem_and_extension(name: Seq<char>) -> (Seq<char>, Option<Seq<char>>) {
    let d = last_index_of(name, '.');
    if name == seq!['.', '.'] || d <= 0 {
        (name, None)
    } else {
        (name.take(d), Some(name.skip(d + 1)))
    }
}

/// The characters `v[a..b]`.
pub(crate) fn sub_chars(v: &Vec<char>, a: usize, b: usize) -> (r: Vec<char>)
    requires
        a <= b <= v.len(),
    ensures
        r@ == v@.subrange(a as int, b as int),
{
    let mut r: Vec<char> = Vec::new();
    let mut k: usize = a;
    while k < b
        invariant
            a <= k <= b <= v.len(),
            r@ == v@.subrange(a as int, k as int),
        decreases b - k,
    {
        r.push(v[k]);
        k = k + 1;
        assert(r@ =~= v@.subrange(a as int, k as int));
    }
    r
}

/// The bounds of the last component of the path in `v`.
fn last_component_bounds(v: &Vec<char>) -> (r: Option<(usize, usize)>)
    ensures
        r is None ==> last_component(v@) is None,
        r matches Some(ab) ==> ab.0 <= ab.1 <= v.len() && last_component(v@) == Some(
            v@.subrange(ab.0 as int, ab.1 as int),
        ),
{
    let n = v.len();
    let mut end: usize = n;
    assert(v@.take(n as int) =~= v@);
    loop
        invariant
            n == v.len(),
            end <= n,
            last_component(v@) == last_component(v@.take(end as int)),
        decreases end,
    {
        if end == 0 {
            return None;
        }
        if v[end - 1] == '/' {
            assert(v@.take(end as int).drop_last() =~= v@.take(end - 1));
            end = end - 1;
        } else {
            let mut k: usize = end;
            while k > 0 && v[k - 1] != '/'
                invariant
                    n == v.len(),
                    k <= end <= n,
                    end > 0,
                    v@[end - 1] != '/',
                    segment_start(v@.take(end as int)) == segment_start(v@.take(k as int)),
                decreases k,
            {
                assert(v@.take(k as int).drop_last() =~= v@.take(k - 1));
                k = k - 1;
            }
            let ghost t = v@.take(end as int);
            assert(segment_start(t) == k);
            proof {
                lemma_segment_start_bound(t);
            }
            assert(t.subrange(k as int, end as int) =~= v@.subrange(k as int, end as int));
            if end - k == 1 && v[k] == '.' {
                assert(v@.subrange(k as int, end as int) =~= seq!['.']);
                assert(t.subrange(0, k as int) =~= v@.take(k as int));
                end = k;
            } else {
                assert(v@.subrange(k as int, end as int) != seq!['.']) by {
                    if end - k == 1 {
                        assert(v@.subrange(k as int, end as int)[0] == v@[k as int]);
                    }
                }
                return Some((k, end));
            }
        }
    }
}

/// `Path::file_name`, on characters.
pub fn file_name_chars(v: &Vec<char>) -> (r: Option<Vec<char>>)
    ensures
        r is None ==> file_name_of(v@) is None,
        r matches Some(name) ==> file_name_of(v@) == Some(name@),
{
    match last_component_bounds(v) {
        None => None,
        Some((a, b)) => {
            let name = sub_chars(v, a, b);
            if name.len() == 2 && name[0] == '.' && name[1] == '.' {
                assert(name@ =~= seq!['.', '.']);
                None
            } else {
                assert(name@ != seq!['.', '.']) by {
                    if name@ == seq!['.', '.'] {
                        assert(name@[0] == '.' && name@[1] == '.');
                    }
                }
                Some(name)
            }
        },
    }
}

/// The index of the last `c` in `v`.
fn last_index_chars(v: &Vec<char>, c: char) -> (r: Option<usize>)
    ensures
        r is None ==> last_index_of(v@, c) == -1,
        r matches Some(d) ==> last_index_of(v@, c) == d as int && d < v.len(),
{
    let mut j: usize = v.len();
    assert(v@.take(j as int) =~= v@);
    while j > 0 && v[j - 1] != c
        invariant
            j <= v.len(),
            last_index_of(v@, c) == last_index_of(v@.take(j as int), c),
        decreases j,
    {
        assert(v@.take(j as int).drop_last() =~= v@.take(j - 1));
        j = j - 1;
    }
    if j == 0 {
        None
    } else {
        Some(j - 1)
    }
}

/// `Path::file_stem` and `Path::extension` of a file name, on characters.
pub fn stem_and_extension_chars(name: &Vec<char>) -> (r: (Vec<char>, Option<Vec<char>>))
    ensures
        r.0@ == stem_and_extension(name@).0,
        r.1 is None ==> stem_and_extension(name@).1 is None,
        r.1 matches Some(e) ==> stem_and_extension(name@).1 == Some(e@),
{
    let dots = name.len() == 2 && name[0] == '.' && name[1] == '.';
    proof {
        if name@ == seq!['.', '.'] {
            assert(name@[0] == '.' && name@[1] == '.');
        }
        if dots {
            assert(name@ =~= seq!['.', '.']);
        }
    }
    let stem_all = sub_chars(name, 0, name.len());
    assert(stem_all@ =~= name@);
    if dots {
        return (stem_all, None);
    }
    match last_index_chars(name, '.') {
        None => (stem_all, None),
        Some(d) => {
            if d == 0 {
                (stem_all, None)
            } else {
                let stem = sub_chars(name, 0, d);
                let ext = sub_chars(name, d + 1, name.len());
                assert(stem@ =~= name@.take(d as int));
                assert(ext@ =~= name@.skip(d + 1));
                (stem, Some(ext))
            }
        },
    }
}

} // verus!
