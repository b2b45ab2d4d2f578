//! Paths as text, with `/` between their segments: joining a name to a
//! directory, and the name, stem and extension of a path's last segment.

use crate::text::chars_of;
use vstd::prelude::*;
use vstd::string::StringExecFns;

verus! {

/// `name` joined to `dir`: a name that starts with `/` stands alone; else
/// one `/` separates the two, unless `dir` is empty or ends with one.
pub open spec fn joined(dir: Seq<char>, name: Seq<char>) -> Seq<char> {
    if name.len() > 0 && name[0] == '/' {
        name
    } else if dir.len() == 0 || dir.last() == '/' {
        dir + name
    } else {
        dir + seq!['/'] + name
    }
}

/// Joins a name to a directory.
pub fn join(dir: &str, name: &str) -> (path: String)
    ensures
        path@ == joined(dir@, name@),
{
    let dir_len = dir.unicode_len();
    if name.unicode_len() > 0 && name.get_char(0) == '/' {
        name.to_owned()
    } else if dir_len == 0 || dir.get_char(dir_len - 1) == '/' {
        let mut path: String = dir.to_owned();
        path.append(name);
        path
    } else {
        let mut path: String = dir.to_owned();
        proof {
            reveal_strlit("/");
            assert("/"@ =~= seq!['/']);
        }
        path.append("/");
        path.append(name);
        path
    }
}

/// The path without what does not count at its end: separators, and `.`
/// segments behind a separator.
pub open spec fn without_trailing_separators(path: Seq<char>) -> Seq<char>
    decreases path.len(),
{
    if path.len() > 0 && path.last() == '/' {
        without_trailing_separators(path.drop_last())
    } else if path.len() >= 2 && path.last() == '.' && path[path.len() - 2] == '/' {
        without_trailing_separators(path.drop_last())
    } else {
        path
    }
}

/// Where the last segment of the path begins: behind its last separator.
pub open spec fn last_segment_start(path: Seq<char>) -> int
    decreases path.len(),
{
    if path.len() == 0 || path.last() == '/' {
        path.len() as int
    } else {
        last_segment_start(path.drop_last())
    }
}

/// The name of the file that the path leads to: its last segment, unless
/// that is empty, `.` or `..`.
pub open spec fn file_name_of(path: Seq<char>) -> Option<Seq<char>> {
    let trimmed = without_trailing_separators(path);
    let name = trimmed.subrange(last_segment_start(trimmed), trimmed.len() as int);
    if name.len() == 0 || name == seq!['.'] || name == seq!['.', '.'] {
        None
    } else {
        Some(name)
    }
}

/// The position of the last `.` of a name, or -1 where it has none.
pub open spec fn last_dot(name: Seq<char>) -> int
    decreases name.len(),
{
    if name.len() == 0 {
        -1
    } else if name.last() == '.' {
        name.len() - 1
    } else {
        last_dot(name.drop_last())
    }
}

/// The stem of a file name: what stands before its last `.`, or the whole
/// name where there is no `.` behind its first character.
pub open spec fn stem_of_name(name: Seq<char>) -> Seq<char> {
    if last_dot(name) <= 0 {
        name
    } else {
        name.take(last_dot(name))
    }
}

/// The extension of a file name: what stands behind its last `.`, where
/// there is a `.` behind its first character.
pub open spec fn extension_of_name(name: Seq<char>) -> Option<Seq<char>> {
    if last_dot(name) <= 0 {
        None
    } else {
        Some(name.skip(last_dot(name) + 1))
    }
}

/// The stem of the file that the path leads to.
pub open spec fn file_stem_of(path: Seq<char>) -> Option<Seq<char>> {
    match file_name_of(path) {
        Some(name) => Some(stem_of_name(name)),
        None => None,
    }
}

/// The extension of the file that the path leads to.
pub open spec fn extension_of(path: Seq<char>) -> Option<Seq<char>> {
    match file_name_of(path) {
        Some(name) => extension_of_name(name),
        None => None,
    }
}

proof fn lemma_last_dot(name: Seq<char>)
    ensures
        -1 <= last_dot(name) < name.len(),
        last_dot(name) >= 0 ==> name[last_dot(name)] == '.',
    decreases name.len(),
{
    if name.len() > 0 && name.last() != '.' {
        lemma_last_dot(name.drop_last());
    }
}

/// Where the file name stands in the path: from `start` up to `end`.
fn name_bounds(chars: &Vec<char>) -> (bounds: (usize, usize))
    ensures
        bounds.0 <= bounds.1 <= chars@.len(),
        without_trailing_separators(chars@) == chars@.take(bounds.1 as int),
        bounds.0 == last_segment_start(chars@.take(bounds.1 as int)),
{
    let mut end: usize = chars.len();
    proof {
        assert(chars@.take(end as int) =~= chars@);
    }
    while end > 0 && (chars[end - 1] == '/' || (end >= 2 && chars[end - 1] == '.' && chars[end
        - 2] == '/'))
        invariant
            end <= chars@.len(),
            without_trailing_separators(chars@) == without_trailing_separators(
                chars@.take(end as int),
            ),
        decreases end,
    {
        proof {
            assert(chars@.take(end as int).drop_last() =~= chars@.take(end - 1));
        }
        end = end - 1;
    }
    let mut start: usize = end;
    while start > 0 && chars[start - 1] != '/'
        invariant
            start <= end <= chars@.len(),
            last_segment_start(chars@.take(end as int)) == last_segment_start(
                chars@.take(start as int),
            ),
        decreases start,
    {
        proof {
            assert(chars@.take(start as int).drop_last() =~= chars@.take(start - 1));
        }
        start = start - 1;
    }
    (start, end)
}

/// The position of the last `.` between `start` and `end`, counted from
/// `start`; `None` where there is none.
fn find_last_dot(chars: &Vec<char>, start: usize, end: usize) -> (dot: Option<usize>)
    requires
        start <= end <= chars@.len(),
    ensures
        match dot {
            Some(k) => k == last_dot(chars@.subrange(start as int, end as int)),
            None => last_dot(chars@.subrange(start as int, end as int)) == -1,
        },
{
    let ghost name = chars@.subrange(start as int, end as int);
    let mut j: usize = end;
    proof {
        assert(name.take((end - start) as int) =~= name);
    }
    while j > start && chars[j - 1] != '.'
        invariant
            start <= j <= end <= chars@.len(),
            name == chars@.subrange(start as int, end as int),
            last_dot(name) == last_dot(name.take((j - start) as int)),
        decreases j,
    {
        proof {
            assert(name.take((j - start) as int).drop_last() =~= name.take(j - start - 1));
            assert(name.take((j - start) as int).last() == chars@[j - 1]);
        }
        j = j - 1;
    }
    proof {
        if j > start {
            assert(name.take((j - start) as int).last() == chars@[j - 1]);
        }
    }
    if j > start {
        Some(j - 1 - start)
    } else {
        None
    }
}

/// The name of the file that the path leads to.
pub fn file_name(path: &str) -> (name: Option<String>)
    ensures
        name is Some <==> file_name_of(path@) is Some,
        name is Some ==> name.unwrap()@ == file_name_of(path@).unwrap(),
{
    let chars = chars_of(path);
    let (start, end) = name_bounds(&chars);
    let ghost name = path@.subrange(start as int, end as int);
    proof {
        assert(path@.take(end as int).subrange(start as int, end as int) =~= name);
    }
    let dots = if end - start == 1 {
        chars[start] == '.'
    } else if end - start == 2 {
        chars[start] == '.' && chars[start + 1] == '.'
    } else {
        false
    };
    proof {
        if end - start == 1 {
            assert(name[0] == chars@[start as int]);
            assert(dots ==> name =~= seq!['.']);
            assert(!dots ==> name != seq!['.']);
            assert(seq!['.', '.'].len() == 2);
        } else if end - start == 2 {
            assert(name[0] == chars@[start as int]);
            assert(name[1] == chars@[start + 1]);
            assert(dots ==> name =~= seq!['.', '.']);
            assert(!dots ==> name != seq!['.', '.']) by {
                assert(seq!['.', '.'][0] == '.');
                assert(seq!['.', '.'][1] == '.');
            }
            assert(seq!['.'].len() == 1);
        } else {
            assert(seq!['.'].len() == 1);
            assert(seq!['.', '.'].len() == 2);
        }
    }
    if start == end || dots {
        None
    } else {
        Some(path.substring_char(start, end).to_owned())
    }
}

/// The stem of the file that the path leads to.
pub fn file_stem(path: &str) -> (stem: Option<String>)
    ensures
        stem is Some <==> file_stem_of(path@) is Some,
        stem is Some ==> stem.unwrap()@ == file_stem_of(path@).unwrap(),
{
    match file_name(path) {
        Some(name) => {
            let chars = chars_of(name.as_str());
            proof {
                assert(chars@.subrange(0, chars@.len() as int) =~= chars@);
                lemma_last_dot(name@);
            }
            match find_last_dot(&chars, 0, chars.len()) {
                Some(k) => if k == 0 {
                    Some(name)
                } else {
                    proof {
                        assert(name@.take(k as int) =~= name@.subrange(0, k as int));
                    }
                    Some(name.as_str().substring_char(0, k).to_owned())
                },
                None => Some(name),
            }
        },
        None => None,
    }
}

/// The extension of the file that the path leads to.
pub fn extension(path: &str) -> (ext: Option<String>)
    ensures
        ext is Some <==> extension_of(path@) is Some,
        ext is Some ==> ext.unwrap()@ == extension_of(path@).unwrap(),
{
    match file_name(path) {
        Some(name) => {
            let chars = chars_of(name.as_str());
            proof {
                assert(chars@.subrange(0, chars@.len() as int) =~= chars@);
                lemma_last_dot(name@);
            }
            match find_last_dot(&chars, 0, chars.len()) {
                Some(k) => if k == 0 {
                    None
                } else {
                    proof {
                        assert(name@.skip(k + 1) =~= name@.subrange(k + 1, name@.len() as int));
                    }
                    Some(name.as_str().substring_char(k + 1, chars.len()).to_owned())
                },
                None => None,
            }
        },
        None => None,
    }
}

} // verus!
