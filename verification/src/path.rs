//! Paths as text: the final component of a path, and joining a name under a
//! directory. The separator is `/`.

use crate::error::{BatchError, BatchErrorView};
use vstd::prelude::*;

verus! {

/// Where the final component of `path` starts: right behind its last
/// separator, or at 0 when it holds none.
pub open spec fn component_start(path: Seq<char>) -> int
    decreases path.len(),
{
    if path.len() == 0 {
        0
    } else if path.last() == '/' {
        path.len() as int
    } else {
        component_start(path.drop_last())
    }
}

/// What follows the last separator of `path`.
pub open spec fn final_component(path: Seq<char>) -> Seq<char> {
    path.skip(component_start(path))
}

/// `name` can name a file: it is not empty and is neither `.` nor `..`.
pub open spec fn is_file_name(name: Seq<char>) -> bool {
    name.len() > 0 && name != seq!['.'] && name != seq!['.', '.']
}

/// `path` ends in a component that can name a file.
pub open spec fn has_base_name(path: Seq<char>) -> bool {
    is_file_name(final_component(path))
}

/// `name` placed under `dir`: a separator is written between them unless `dir`
/// is empty or already ends in one; a `name` that starts at the root stands
/// alone.
pub open spec fn joined_path(dir: Seq<char>, name: Seq<char>) -> Seq<char> {
    if name.len() > 0 && name[0] == '/' {
        name
    } else if dir.len() == 0 || dir.last() == '/' {
        dir + name
    } else {
        dir + seq!['/'] + name
    }
}

/// The final component starts at `start` when a separator stands right before
/// `start` (or `start` is 0) and none stands at or behind it.
pub proof fn component_start_is(path: Seq<char>, start: int)
    requires
        0 <= start <= path.len(),
        start == 0 || path[start - 1] == '/',
        forall|j: int| start <= j < path.len() ==> path[j] != '/',
    ensures
        component_start(path) == start,
    decreases path.len(),
{
    if path.len() > 0 && path.last() != '/' {
        component_start_is(path.drop_last(), start);
    }
}

/// The final component holds no separator, and the path is what stands before
/// it followed by it.
pub proof fn final_component_is_last(path: Seq<char>)
    ensures
        0 <= component_start(path) <= path.len(),
        component_start(path) == 0 || path[component_start(path) - 1] == '/',
        !final_component(path).contains('/'),
        path == path.take(component_start(path)) + final_component(path),
    decreases path.len(),
{
    if path.len() > 0 && path.last() != '/' {
        let shorter = path.drop_last();
        final_component_is_last(shorter);
        let start = component_start(path);
        assert forall|j: int| 0 <= j < final_component(path).len() implies final_component(
            path,
        )[j] != '/' by {
            if start + j < shorter.len() {
                assert(final_component(shorter)[j] == shorter[start + j]);
                assert(final_component(shorter).contains(shorter[start + j]));
            }
        }
    }
    assert(path =~= path.take(component_start(path)) + final_component(path));
}

/// A name without a separator is the final component of the path that places
/// it under a directory.
pub proof fn joined_path_ends_in_name(dir: Seq<char>, name: Seq<char>)
    requires
        !name.contains('/'),
    ensures
        final_component(joined_path(dir, name)) == name,
{
    let joined = joined_path(dir, name);
    let start = joined.len() - name.len();
    assert forall|j: int| start <= j < joined.len() implies joined[j] != '/' by {
        assert(joined[j] == name[j - start]);
        assert(name.contains(name[j - start]));
    }
    if name.len() > 0 && name[0] == '/' {
        assert(name.contains(name[0]));
    }
    component_start_is(joined, start);
    assert(joined.skip(start) =~= name);
}

/// The final component of `fname`, when it can name a file.
pub fn basename(fname: &String) -> (r: Result<String, BatchError>)
    ensures
        has_base_name(fname@) ==> (r matches Ok(name) && name@ == final_component(fname@)),
        !has_base_name(fname@) ==> (r matches Err(e) && e@ == (BatchErrorView::InvalidFileName {
            path: fname@,
        })),
{
    let path = fname.as_str();
    let len = path.unicode_len();
    let mut start = len;
    while start > 0 && path.get_char(start - 1) != '/'
        invariant
            start <= len,
            len == path@.len(),
            forall|j: int| start <= j < len ==> path@[j] != '/',
        decreases start,
    {
        start = start - 1;
    }
    proof {
        component_start_is(path@, start as int);
    }
    let name = path.substring_char(start, len);
    assert(name@ =~= final_component(fname@));
    let count = len - start;
    let single_dot = count == 1 && name.get_char(0) == '.';
    let double_dot = count == 2 && name.get_char(0) == '.' && name.get_char(1) == '.';
    proof {
        if single_dot {
            assert(name@ =~= seq!['.']);
        }
        if double_dot {
            assert(name@ =~= seq!['.', '.']);
        }
        if !single_dot {
            assert(name@ != seq!['.']) by {
                if name@ == seq!['.'] {
                    assert(name@.len() == 1 && name@[0] == '.');
                }
            }
        }
        if !double_dot {
            assert(name@ != seq!['.', '.']) by {
                if name@ == seq!['.', '.'] {
                    assert(name@.len() == 2 && name@[0] == '.' && name@[1] == '.');
                }
            }
        }
    }
    if count == 0 || single_dot || double_dot {
        Err(BatchError::InvalidFileName { path: fname.clone() })
    } else {
        Ok(String::from_str(name))
    }
}

/// Places `name` under `dir`.
pub fn join_path(dir: &str, name: &str) -> (joined: String)
    ensures
        joined@ == joined_path(dir@, name@),
{
    if name.unicode_len() > 0 && name.get_char(0) == '/' {
        return String::from_str(name);
    }
    let dir_len = dir.unicode_len();
    let mut joined = String::from_str(dir);
    if dir_len > 0 && dir.get_char(dir_len - 1) != '/' {
        proof {
            reveal_strlit("/");
            assert("/"@ =~= seq!['/']);
        }
        joined.append("/");
    }
    joined.append(name);
    joined
}

} // verus!
