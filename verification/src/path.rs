//! The extension of a file path.

use vstd::prelude::*;
use vstd::std_specs::iter::IteratorSpec;

verus! {

/// The index of the last `c` in `s`, or `-1` where `s` holds none.
pub open spec fn last_index_of(s: Seq<char>, c: char) -> int
    decreases s.len(),
{
    if s.len() == 0 {
        -1
    } else if s.last() == c {
        s.len() - 1
    } else {
        last_index_of(s.drop_last(), c)
    }
}

/// The path up to the end of its last component: without the `/` and the
/// `/.` that follow it.
pub open spec fn trimmed(path: Seq<char>) -> Seq<char>
    decreases path.len(),
{
    if path.len() >= 1 && path.last() == '/' {
        trimmed(path.drop_last())
    } else if path.len() >= 2 && path.last() == '.' && path[path.len() - 2] == '/' {
        trimmed(path.drop_last())
    } else {
        path
    }
}

/// The file name of a path: its last component, which is what follows the
/// last `/` of the trimmed path, or all of it where it holds none.
pub open spec fn file_name(path: Seq<char>) -> Seq<char> {
    let p = trimmed(path);
    p.subrange(last_index_of(p, '/') + 1, p.len() as int)
}

/// The extension of a path: what follows the last `.` of its file name. A
/// file name without a `.` has no extension; one that starts with its only
/// `.` has what follows it, so the extension of `.json` is `json`.
pub open spec fn extension(path: Seq<char>) -> Option<Seq<char>> {
    let name = file_name(path);
    let dot = last_index_of(name, '.');
    if dot < 0 {
        None
    } else {
        Some(name.subrange(dot + 1, name.len() as int))
    }
}

/// `last_index_of` is `-1` or the index of a `c` that no `c` follows.
pub proof fn lemma_last_index_of(s: Seq<char>, c: char)
    ensures
        -1 <= last_index_of(s, c) < s.len(),
        last_index_of(s, c) >= 0 ==> s[last_index_of(s, c)] == c,
        forall|j: int| last_index_of(s, c) < j < s.len() ==> s[j] != c,
    decreases s.len(),
{
    if s.len() > 0 && s.last() != c {
        let front = s.drop_last();
        lemma_last_index_of(front, c);
        assert forall|j: int| last_index_of(s, c) < j < s.len() implies s[j] != c by {
            if j < front.len() {
                assert(front[j] == s[j]);
            }
        }
    }
}

/// An index that holds `c` and that no `c` follows is `last_index_of`.
pub proof fn lemma_last_index_of_is(s: Seq<char>, c: char, i: int)
    requires
        -1 <= i < s.len(),
        i >= 0 ==> s[i] == c,
        forall|j: int| i < j < s.len() ==> s[j] != c,
    ensures
        last_index_of(s, c) == i,
{
    lemma_last_index_of(s, c);
}

/// The path ends in `suffix`.
pub open spec fn ends_in(path: Seq<char>, suffix: Seq<char>) -> bool {
    &&& path.len() >= suffix.len()
    &&& path.subrange(path.len() - suffix.len(), path.len() as int) == suffix
}

/// A path that ends in neither `/` nor `/.` is trimmed already.
pub proof fn lemma_trimmed_is_whole(path: Seq<char>)
    requires
        path.len() >= 1 ==> path.last() != '/',
        path.len() >= 2 ==> !(path.last() == '.' && path[path.len() - 2] == '/'),
    ensures
        trimmed(path) == path,
{
}

/// The extension of a path is `ext` exactly where the trimmed path ends in a
/// `.` and `ext`, for an `ext` that holds neither `.` nor `/`.
pub proof fn lemma_extension_is_suffix(whole: Seq<char>, ext: Seq<char>)
    requires
        !ext.contains('.'),
        !ext.contains('/'),
    ensures
        extension(whole) == Some(ext) <==> ends_in(trimmed(whole), seq!['.'] + ext),
{
    let path = trimmed(whole);
    let slash = last_index_of(path, '/');
    let name = file_name(whole);
    let dot = last_index_of(name, '.');
    let suffix = seq!['.'] + ext;
    lemma_last_index_of(path, '/');
    lemma_last_index_of(name, '.');
    if extension(whole) == Some(ext) {
        let start = path.len() - suffix.len();
        assert(start == slash + 1 + dot);
        assert(path.subrange(start, path.len() as int) =~= suffix);
    }
    if ends_in(path, suffix) {
        let start = path.len() - suffix.len();
        assert(path[start] == suffix[0]);
        assert forall|j: int| start < j < path.len() implies path[j] != '/' && path[j] != '.' by {
            assert(path[j] == suffix[j - start]);
            assert(ext[j - start - 1] == path[j]);
            assert(ext.contains(path[j]));
        }
        assert(slash < start);
        lemma_last_index_of_is(name, '.', start - (slash + 1));
        let tail = name.subrange(dot + 1, name.len() as int);
        assert(tail.len() == ext.len());
        assert forall|k: int| 0 <= k < ext.len() implies tail[k] == ext[k] by {
            assert(path[start + 1 + k] == suffix[1 + k]);
        }
        assert(tail =~= ext);
    }
}

/// The characters of a string, in order.
pub fn chars_of(s: &str) -> (r: Vec<char>)
    ensures
        r@ == s@,
{
    let mut out: Vec<char> = Vec::new();
    let mut rest = s.chars();
    loop
        invariant
            out@ + rest.remaining() == s@,
            rest.decrease() is Some,
        decreases rest.decrease()->0,
    {
        let ghost before = rest.remaining();
        match rest.next() {
            Some(c) => {
                out.push(c);
                assert(out@ + rest.remaining() =~= s@) by {
                    assert(before =~= seq![c] + rest.remaining());
                }
            },
            None => {
                assert(out@ =~= s@);
                return out;
            },
        }
    }
}

/// The characters of a path up to the end of its last component.
pub fn trimmed_chars_of(path: &str) -> (r: Vec<char>)
    ensures
        r@ == trimmed(path@),
{
    let mut chars = chars_of(path);
    let ghost all = chars@;
    let mut end: usize = chars.len();
    assert(all.take(end as int) =~= all);
    while end >= 1 && (chars[end - 1] == '/' || (end >= 2 && chars[end - 1] == '.' && chars[end
        - 2] == '/'))
        invariant
            end <= chars.len(),
            chars@ == all,
            trimmed(all) == trimmed(all.take(end as int)),
        decreases end,
    {
        assert(all.take(end as int).drop_last() =~= all.take(end - 1));
        end = end - 1;
    }
    chars.truncate(end);
    assert(chars@ =~= all.take(end as int));
    chars
}

/// The index of the last `c` at or after `start`, or `None` where there is
/// none.
pub fn find_last(s: &Vec<char>, start: usize, c: char) -> (r: Option<usize>)
    requires
        start <= s.len(),
    ensures
        match r {
            Some(i) => start <= i < s.len() && last_index_of(
                s@.subrange(start as int, s.len() as int),
                c,
            ) == i - start,
            None => last_index_of(s@.subrange(start as int, s.len() as int), c) == -1,
        },
{
    let ghost tail = s@.subrange(start as int, s.len() as int);
    let mut i: usize = s.len();
    while i > start
        invariant
            start <= i <= s.len(),
            tail == s@.subrange(start as int, s.len() as int),
            forall|j: int| i - start <= j < tail.len() ==> tail[j] != c,
        decreases i,
    {
        i = i - 1;
        if s[i] == c {
            proof {
                lemma_last_index_of_is(tail, c, i - start);
            }
            return Some(i);
        }
    }
    proof {
        lemma_last_index_of_is(tail, c, -1);
    }
    None
}

/// Whether what stands in `s` from `start` on is `word`.
pub fn tail_is(s: &Vec<char>, start: usize, word: &str) -> (r: bool)
    requires
        start <= s.len(),
    ensures
        r == (s@.subrange(start as int, s.len() as int) == word@),
{
    let ghost tail = s@.subrange(start as int, s.len() as int);
    let w = chars_of(word);
    if s.len() - start != w.len() {
        return false;
    }
    let mut i: usize = 0;
    while i < w.len()
        invariant
            i <= w.len(),
            start + w.len() == s.len(),
            w@ == word@,
            tail == s@.subrange(start as int, s.len() as int),
            forall|j: int| 0 <= j < i ==> tail[j] == w@[j],
        decreases w.len() - i,
    {
        if s[start + i] != w[i] {
            assert(tail[i as int] != w@[i as int]);
            return false;
        }
        i = i + 1;
    }
    assert(tail =~= w@);
    true
}

} // verus!
