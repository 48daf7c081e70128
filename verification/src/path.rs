//! Paths as text: joining a path to a root, and telling whether a path
//! stays below the root that it is joined to.

use vstd::prelude::*;
use crate::text::chars_of;

verus! {

/// The character that separates the segments of a path.
pub const SEPARATOR: char = '/';

/// `base` followed by `relative`, with one separator between the two unless
/// `base` is empty or already ends with one.
pub open spec fn joined(base: Seq<char>, relative: Seq<char>) -> Seq<char> {
    if base.len() == 0 || base.last() == SEPARATOR {
        base + relative
    } else {
        base + seq![SEPARATOR] + relative
    }
}

/// Joins a path and a relative path below it.
pub fn join_path(base: &str, relative: &str) -> (path: String)
    ensures
        path@ == joined(base@, relative@),
{
    let n: usize = base.unicode_len();
    let mut path = String::from_str(base);
    if n > 0 && base.get_char(n - 1) != SEPARATOR {
        proof {
            reveal_strlit("/");
        }
        path.append("/");
        assert("/"@ =~= seq![SEPARATOR]);
    }
    path.append(relative);
    path
}

/// Whether `c` ends a path segment. The backslash counts too, so that a path
/// is judged alike wherever the store runs.
pub open spec fn is_separator(c: char) -> bool {
    c == '/' || c == '\\'
}

/// The two characters from `i` on are a whole segment `..` of `path`.
pub open spec fn parent_segment_at(path: Seq<char>, i: int) -> bool {
    &&& 0 <= i
    &&& i + 2 <= path.len()
    &&& path[i] == '.'
    &&& path[i + 1] == '.'
    &&& (i == 0 || is_separator(path[i - 1]))
    &&& (i + 2 == path.len() || is_separator(path[i + 2]))
}

/// Some segment of `path` is `..`.
pub open spec fn has_parent_segment(path: Seq<char>) -> bool {
    exists|i: int| parent_segment_at(path, i)
}

/// `path` starts at the top of the file system instead of the root.
pub open spec fn is_absolute(path: Seq<char>) -> bool {
    path.len() > 0 && is_separator(path[0])
}

/// A path that, joined to a root, names something below that root: it is
/// relative and none of its segments climbs to the parent.
pub open spec fn stays_below_root(path: Seq<char>) -> bool {
    !is_absolute(path) && !has_parent_segment(path)
}

/// The segment of `path` that holds position `i` begins at `start`.
spec fn segment_begins(path: Seq<char>, start: int, i: int) -> bool {
    &&& 0 <= start <= i <= path.len()
    &&& (start == 0 || is_separator(path[start - 1]))
    &&& forall|k: int| start <= k < i ==> !is_separator(#[trigger] path[k])
}

/// The characters of `path` from `start` up to `i` are all dots.
spec fn only_dots(path: Seq<char>, start: int, i: int) -> bool {
    forall|k: int| start <= k < i ==> #[trigger] path[k] == '.'
}

/// Decides `stays_below_root` in one pass over the path.
pub fn is_below_root(path: &str) -> (ok: bool)
    ensures
        ok == stays_below_root(path@),
{
    let chars = chars_of(path);
    let n: usize = chars.len();
    // What the current segment holds so far: nothing (0), one dot (1), two
    // dots (2), or anything else (3).
    let mut shape: u8 = 0;
    let mut i: usize = 0;
    let ghost mut start: int = 0;
    while i < n
        invariant
            i <= n,
            n == chars@.len(),
            chars@ == path@,
            shape <= 3,
            segment_begins(chars@, start, i as int),
            shape < 3 ==> i - start == shape && only_dots(chars@, start, i as int),
            shape == 3 ==> i - start >= 3 || !only_dots(chars@, start, i as int),
            i > 0 ==> !is_separator(chars@[0]),
            forall|j: int| parent_segment_at(chars@, j) ==> j + 2 >= i,
        decreases n - i,
    {
        let c = chars[i];
        proof {
            lemma_parent_segment_is_current(chars@, start, i as int);
            assert(parent_segment_at(chars@, i - 2) ==> parent_segment_at(
                chars@.take(i as int),
                i - 2,
            ));
        }
        if c == '/' || c == '\\' {
            if i == 0 {
                return false;
            }
            if shape == 2 {
                assert(parent_segment_at(chars@, i - 2));
                return false;
            }
            shape = 0;
            proof {
                start = i + 1;
            }
        } else {
            if c == '.' && shape < 2 {
                shape = shape + 1;
            } else {
                assert(shape < 3 && c == '.' ==> i + 1 - start >= 3);
                assert(c != '.' ==> chars@[i as int] != '.');
                shape = 3;
            }
        }
        i = i + 1;
    }
    proof {
        lemma_parent_segment_is_current(chars@, start, n as int);
        assert(chars@.take(n as int) == chars@);
    }
    if shape == 2 {
        assert(parent_segment_at(chars@, n - 2));
        return false;
    }
    true
}

/// A segment `..` that ends just before `i` is the segment that begins at
/// `start`.
proof fn lemma_parent_segment_is_current(path: Seq<char>, start: int, i: int)
    requires
        segment_begins(path, start, i),
    ensures
        parent_segment_at(path.take(i), i - 2) ==> start == i - 2 && only_dots(path, start, i),
{
    if parent_segment_at(path.take(i), i - 2) {
        assert(path.take(i)[i - 2] == path[i - 2]);
        assert(path.take(i)[i - 1] == path[i - 1]);
        if start > i - 2 {
            assert(!is_separator(path[start - 1]));
        }
        if start < i - 2 {
            assert(path.take(i)[i - 3] == path[i - 3]);
            assert(!is_separator(path[i - 3]));
        }
    }
}

/// The segment that climbs to the parent directory.
pub open spec fn parent_segment() -> Seq<char> {
    seq!['.', '.']
}

/// How many characters of `path` come before its first separator.
pub open spec fn first_segment_len(path: Seq<char>) -> int
    decreases path.len(),
{
    if path.len() == 0 || is_separator(path[0]) {
        0
    } else {
        1 + first_segment_len(path.drop_first())
    }
}

/// The segments of `path`: the texts between its separators, in order. A
/// path without a separator is one segment, and so is the empty path.
pub open spec fn segments(path: Seq<char>) -> Seq<Seq<char>>
    decreases path.len(),
{
    let n = first_segment_len(path);
    if 0 <= n < path.len() {
        seq![path.take(n)] + segments(path.skip(n + 1))
    } else {
        seq![path]
    }
}

/// The segments of a root to which a path is joined: those of its text,
/// without the empty one that follows a closing `/`.
pub open spec fn root_segments(root: Seq<char>) -> Seq<Seq<char>> {
    if root.len() == 0 {
        Seq::empty()
    } else if root.last() == SEPARATOR {
        segments(root).drop_last()
    } else {
        segments(root)
    }
}

/// The first segment ends at the first separator, or at the end of the path.
proof fn lemma_first_segment(path: Seq<char>)
    ensures
        0 <= first_segment_len(path) <= path.len(),
        forall|k: int| 0 <= k < first_segment_len(path) ==> !is_separator(#[trigger] path[k]),
        first_segment_len(path) < path.len() ==> is_separator(path[first_segment_len(path)]),
    decreases path.len(),
{
    if path.len() > 0 && !is_separator(path[0]) {
        let rest = path.drop_first();
        lemma_first_segment(rest);
        assert forall|k: int| 0 <= k < first_segment_len(path) implies !is_separator(
            #[trigger] path[k],
        ) by {
            if k > 0 {
                assert(path[k] == rest[k - 1]);
            }
        }
        if first_segment_len(path) < path.len() {
            assert(path[first_segment_len(path)] == rest[first_segment_len(rest)]);
        }
    }
}

/// Where a path has the first `n` characters free of separators and a
/// separator after them, or ends there, its first segment is `n` long.
proof fn lemma_first_segment_is(path: Seq<char>, n: int)
    requires
        0 <= n <= path.len(),
        forall|k: int| 0 <= k < n ==> !is_separator(#[trigger] path[k]),
        n == path.len() || is_separator(path[n]),
    ensures
        first_segment_len(path) == n,
    decreases path.len(),
{
    if n > 0 {
        let rest = path.drop_first();
        assert(!is_separator(path[0]));
        assert forall|k: int| 0 <= k < n - 1 implies !is_separator(#[trigger] rest[k]) by {
            assert(rest[k] == path[k + 1]);
        }
        lemma_first_segment_is(rest, n - 1);
    }
}

/// A path has a segment `..` by position exactly if it has one among its
/// segments.
pub proof fn lemma_parent_segment_among_segments(path: Seq<char>)
    ensures
        has_parent_segment(path) <==> segments(path).contains(parent_segment()),
    decreases path.len(),
{
    let n = first_segment_len(path);
    lemma_first_segment(path);
    let parent = parent_segment();
    if n < path.len() {
        let first = path.take(n);
        let rest = path.skip(n + 1);
        lemma_parent_segment_among_segments(rest);
        let all = segments(path);
        assert(all == seq![first] + segments(rest));
        if has_parent_segment(path) {
            let i = choose|i: int| parent_segment_at(path, i);
            if i < n {
                if i > 0 {
                    assert(!is_separator(path[i - 1]));
                }
                assert(!is_separator(path[i + 1]));
                if n > 2 {
                    assert(!is_separator(path[2]));
                }
                assert(first == parent);
                assert(all[0] == parent);
            } else {
                assert(!is_separator(path[i]));
                let j = i - (n + 1);
                assert(rest[j] == path[i]);
                assert(rest[j + 1] == path[i + 1]);
                if j > 0 {
                    assert(rest[j - 1] == path[i - 1]);
                }
                if j + 2 < rest.len() {
                    assert(rest[j + 2] == path[i + 2]);
                }
                assert(parent_segment_at(rest, j));
                let k = choose|k: int| 0 <= k < segments(rest).len() && segments(rest)[k] == parent;
                assert(all[k + 1] == parent);
            }
        }
        if all.contains(parent) {
            let k = choose|k: int| 0 <= k < all.len() && all[k] == parent;
            if k == 0 {
                assert(first == parent);
                assert(n == 2);
                assert(path[0] == first[0]);
                assert(path[1] == first[1]);
                assert(parent_segment_at(path, 0));
            } else {
                assert(segments(rest)[k - 1] == parent);
                assert(segments(rest).contains(parent));
                let j = choose|j: int| parent_segment_at(rest, j);
                let i = j + n + 1;
                assert(rest[j] == path[i]);
                assert(rest[j + 1] == path[i + 1]);
                if j > 0 {
                    assert(rest[j - 1] == path[i - 1]);
                }
                if j + 2 < rest.len() {
                    assert(rest[j + 2] == path[i + 2]);
                }
                assert(parent_segment_at(path, i));
            }
        }
    } else {
        assert(segments(path) == seq![path]);
        if has_parent_segment(path) {
            let i = choose|i: int| parent_segment_at(path, i);
            if i > 0 {
                assert(!is_separator(path[i - 1]));
            }
            if i + 2 < path.len() {
                assert(!is_separator(path[i + 2]));
            }
            assert(path == parent);
            assert(segments(path)[0] == parent);
        }
        if segments(path).contains(parent) {
            assert(path == parent);
            assert(parent_segment_at(path, 0));
        }
    }
}

/// The segments of two paths with a separator between them are those of the
/// first followed by those of the second.
pub proof fn lemma_segments_of_joined(before: Seq<char>, separator: char, after: Seq<char>)
    requires
        is_separator(separator),
    ensures
        segments(before + seq![separator] + after) == segments(before) + segments(after),
    decreases before.len(),
{
    let whole = before + seq![separator] + after;
    let n = first_segment_len(before);
    lemma_first_segment(before);
    assert forall|k: int| 0 <= k < n implies !is_separator(#[trigger] whole[k]) by {
        assert(whole[k] == before[k]);
    }
    if n < before.len() {
        assert(whole[n] == before[n]);
    } else {
        assert(whole[n] == separator);
    }
    lemma_first_segment_is(whole, n);
    assert(whole.take(n) == before.take(n));
    if n < before.len() {
        let rest = before.skip(n + 1);
        assert(whole.skip(n + 1) == rest + seq![separator] + after);
        lemma_segments_of_joined(rest, separator, after);
        assert(segments(whole) == seq![before.take(n)] + (segments(rest) + segments(after)));
        assert(segments(whole) == segments(before) + segments(after));
    } else {
        assert(whole.skip(n + 1) == after);
        assert(before.take(n) == before);
        assert(segments(before) == seq![before]);
    }
}

/// A path that stays below the root resolves to a path that never climbs
/// out of the root: joined to the root, it has the root's segments followed
/// by its own, and none of its own is `..`.
pub proof fn lemma_joined_stays_below_root(root: Seq<char>, path: Seq<char>)
    requires
        stays_below_root(path),
    ensures
        segments(joined(root, path)) == root_segments(root) + segments(path),
        !segments(path).contains(parent_segment()),
{
    lemma_parent_segment_among_segments(path);
    if root.len() == 0 {
        assert(joined(root, path) == path);
        assert(root_segments(root) + segments(path) == segments(path));
    } else if root.last() == SEPARATOR {
        let stem = root.drop_last();
        assert(root == stem + seq![SEPARATOR] + Seq::<char>::empty());
        assert(joined(root, path) == stem + seq![SEPARATOR] + path);
        lemma_segments_of_joined(stem, SEPARATOR, Seq::<char>::empty());
        lemma_segments_of_joined(stem, SEPARATOR, path);
        assert(segments(Seq::<char>::empty()) == seq![Seq::<char>::empty()]);
        assert(segments(root) == segments(stem) + seq![Seq::<char>::empty()]);
        assert(segments(root).drop_last() == segments(stem));
    } else {
        lemma_segments_of_joined(root, SEPARATOR, path);
    }
}

/// A name that stands for one entry of a directory: it is not empty, it is
/// neither `.` nor `..`, and it holds no separator.
pub open spec fn is_file_name(name: Seq<char>) -> bool {
    name.len() > 0 && name != seq!['.'] && name != seq!['.', '.'] && forall|i: int|
        0 <= i < name.len() ==> !is_separator(#[trigger] name[i])
}

/// Decides `is_file_name`.
pub fn is_plain_file_name(name: &str) -> (ok: bool)
    ensures
        ok == is_file_name(name@),
{
    let chars = chars_of(name);
    let n: usize = chars.len();
    if n == 0 {
        return false;
    }
    if n == 1 && chars[0] == '.' {
        assert(chars@ == seq!['.']);
        return false;
    }
    if n == 2 && chars[0] == '.' && chars[1] == '.' {
        assert(chars@ == seq!['.', '.']);
        return false;
    }
    let mut i: usize = 0;
    while i < n
        invariant
            i <= n,
            n == chars@.len(),
            chars@ == name@,
            forall|k: int| 0 <= k < i ==> !is_separator(#[trigger] chars@[k]),
        decreases n - i,
    {
        if chars[i] == '/' || chars[i] == '\\' {
            assert(is_separator(name@[i as int]));
            return false;
        }
        i = i + 1;
    }
    assert(chars@ != seq!['.']) by {
        if chars@ == seq!['.'] {
            assert(chars@[0] == '.');
        }
    }
    assert(chars@ != seq!['.', '.']) by {
        if chars@ == seq!['.', '.'] {
            assert(chars@[0] == '.' && chars@[1] == '.');
        }
    }
    true
}

/// A file name is one segment, and stays below the directory that it is
/// joined to.
pub proof fn lemma_file_name_is_one_segment(name: Seq<char>)
    requires
        is_file_name(name),
    ensures
        segments(name) == seq![name],
        stays_below_root(name),
{
    lemma_first_segment_is(name, name.len() as int);
    assert forall|i: int| !parent_segment_at(name, i) by {
        if parent_segment_at(name, i) {
            if i > 0 {
                assert(!is_separator(name[i - 1]));
            }
            if i + 2 < name.len() {
                assert(!is_separator(name[i + 2]));
            }
            assert(name == seq!['.', '.']);
        }
    }
}

/// A file joined to a directory by its name lies directly in that
/// directory: the path has the directory's segments and then the name, which
/// is not `..`.
pub proof fn lemma_file_lies_in_directory(directory: Seq<char>, name: Seq<char>)
    requires
        is_file_name(name),
    ensures
        segments(joined(directory, name)) == root_segments(directory).push(name),
        name != parent_segment(),
{
    lemma_file_name_is_one_segment(name);
    lemma_joined_stays_below_root(directory, name);
    assert(root_segments(directory) + seq![name] == root_segments(directory).push(name));
}

} // verus!
