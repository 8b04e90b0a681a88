//! Slash-separated paths as texts: the directory above a path, its last
//! component, and the path of an entry inside a directory.
use vstd::prelude::*;
use crate::text::{chars_of, push_char, push_text, string_of_range};

verus! {

/// `s` without the trailing copies of `c`.
pub open spec fn trim_end_char(s: Seq<char>, c: char) -> Seq<char>
    decreases s.len(),
{
    if s.len() > 0 && s.last() == c {
        trim_end_char(s.drop_last(), c)
    } else {
        s
    }
}

/// The position of the last `c` in `s`, if any.
pub open spec fn last_index(s: Seq<char>, c: char) -> Option<int>
    decreases s.len(),
{
    if s.len() == 0 {
        None
    } else if s.last() == c {
        Some(s.len() - 1)
    } else {
        last_index(s.drop_last(), c)
    }
}

/// The directory above a path: trailing slashes are ignored; a path with
/// no slash has the empty path above it, and the root has none.
pub open spec fn path_parent(p: Seq<char>) -> Option<Seq<char>> {
    let t = trim_end_char(p, '/');
    if t.len() == 0 {
        None
    } else {
        match last_index(t, '/') {
            None => Some(Seq::empty()),
            Some(k) => {
                let h = trim_end_char(t.take(k), '/');
                if h.len() == 0 { Some(seq!['/']) } else { Some(h) }
            },
        }
    }
}

/// The last component of a path, if it has one that is not `..`.
pub open spec fn path_file_name(p: Seq<char>) -> Option<Seq<char>> {
    let t = trim_end_char(p, '/');
    let name = match last_index(t, '/') {
        None => t,
        Some(k) => t.skip(k + 1),
    };
    if name.len() == 0 || name == seq!['.', '.'] { None } else { Some(name) }
}

/// The path of entry `name` inside directory `dir`.
pub open spec fn child_path(dir: Seq<char>, name: Seq<char>) -> Seq<char> {
    trim_end_char(dir, '/').push('/') + name
}

proof fn lemma_last_index(s: Seq<char>, c: char)
    ensures
        last_index(s, c) matches Some(k) ==> 0 <= k < s.len() && s[k] == c,
    decreases s.len(),
{
    if s.len() > 0 && s.last() != c {
        lemma_last_index(s.drop_last(), c);
    }
}

/// The length of `v[..end]` without its trailing copies of `c`.
fn trimmed_len(v: &Vec<char>, end: usize, c: char) -> (r: usize)
    requires
        end <= v.len(),
    ensures
        r <= end,
        trim_end_char(v@.take(end as int), c) == v@.take(r as int),
{
    let mut j = end;
    while j > 0 && v[j - 1] == c
        invariant
            j <= end <= v.len(),
            trim_end_char(v@.take(end as int), c) == trim_end_char(v@.take(j as int), c),
        decreases j,
    {
        assert(v@.take(j as int).drop_last() =~= v@.take(j - 1));
        j = j - 1;
    }
    proof {
        if j > 0 {
            assert(v@.take(j as int).last() == v@[j - 1]);
        }
    }
    j
}

/// The position of the last `c` in `v[..end]`, if any.
fn last_index_in(v: &Vec<char>, end: usize, c: char) -> (r: Option<usize>)
    requires
        end <= v.len(),
    ensures
        match last_index(v@.take(end as int), c) {
            None => r is None,
            Some(k) => 0 <= k < end && r == Some(k as usize),
        },
{
    proof { lemma_last_index(v@.take(end as int), c); }
    let mut j = end;
    while j > 0 && v[j - 1] != c
        invariant
            j <= end <= v.len(),
            last_index(v@.take(end as int), c) == last_index(v@.take(j as int), c),
        decreases j,
    {
        assert(v@.take(j as int).drop_last() =~= v@.take(j - 1));
        j = j - 1;
    }
    if j == 0 {
        None
    } else {
        assert(v@.take(j as int).last() == v@[j - 1]);
        Some(j - 1)
    }
}

/// `s` without its trailing copies of `c`.
pub fn strip_trailing(s: &str, c: char) -> (r: String)
    ensures
        r@ == trim_end_char(s@, c),
{
    let v = chars_of(s);
    assert(v@.take(v.len() as int) =~= v@);
    let n = trimmed_len(&v, v.len(), c);
    assert(v@.take(n as int) =~= v@.subrange(0, n as int));
    string_of_range(&v, 0, n)
}

/// The directory above path `p` (`Path::parent` for paths without `.`
/// components).
pub fn parent_path(p: &str) -> (r: Option<String>)
    ensures
        crate::text::opt_view(r) == path_parent(p@),
{
    let v = chars_of(p);
    assert(v@.take(v.len() as int) =~= v@);
    let t = trimmed_len(&v, v.len(), '/');
    if t == 0 {
        return None;
    }
    let ghost tv = v@.take(t as int);
    assert(trim_end_char(p@, '/') == tv);
    match last_index_in(&v, t, '/') {
        None => {
            let e = String::new();
            assert(e@ =~= Seq::<char>::empty());
            Some(e)
        },
        Some(k) => {
            assert(tv.take(k as int) =~= v@.take(k as int));
            let h = trimmed_len(&v, k, '/');
            if h == 0 {
                let mut s = String::new();
                push_char(&mut s, '/');
                assert(s@ =~= seq!['/']);
                Some(s)
            } else {
                assert(v@.take(h as int) =~= v@.subrange(0, h as int));
                Some(string_of_range(&v, 0, h))
            }
        },
    }
}

/// The last component of path `p`, if it has one that is not `..`
/// (`Path::file_name` for paths without `.` components).
pub fn file_name_of(p: &str) -> (r: Option<String>)
    ensures
        crate::text::opt_view(r) == path_file_name(p@),
{
    let v = chars_of(p);
    assert(v@.take(v.len() as int) =~= v@);
    let t = trimmed_len(&v, v.len(), '/');
    let ghost tv = v@.take(t as int);
    assert(trim_end_char(p@, '/') == tv);
    let start = match last_index_in(&v, t, '/') {
        None => {
            assert(v@.subrange(0, t as int) =~= tv);
            0
        },
        Some(k) => {
            assert(v@.subrange(k + 1, t as int) =~= tv.skip(k + 1));
            k + 1
        },
    };
    let name = string_of_range(&v, start, t);
    if t - start == 0 || (t - start == 2 && v[start] == '.' && v[start + 1] == '.') {
        assert(t - start == 2 ==> name@ =~= seq!['.', '.']);
        None
    } else {
        assert(t - start == 2 ==> name@ != seq!['.', '.']) by {
            if t - start == 2 && name@ == seq!['.', '.'] {
                assert(name@[0] == v@[start as int]);
                assert(name@[1] == v@[start + 1]);
            }
        }
        Some(name)
    }
}

/// The path of entry `name` inside directory `dir`.
pub fn join_child(dir: &str, name: &str) -> (r: String)
    ensures
        r@ == child_path(dir@, name@),
{
    let mut s = strip_trailing(dir, '/');
    push_char(&mut s, '/');
    push_text(&mut s, name);
    s
}

} // verus!
