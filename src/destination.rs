use vstd::prelude::*;

use crate::error::DownloadError;

verus! {

/// The separator between the segments of a path.
pub const SEPARATOR: char = '/';

/// The last segment of `path`: what follows its last separator, or all of
/// it when it has none.
pub open spec fn basename_of(path: Seq<char>) -> Seq<char>
    decreases path.len(),
{
    if path.len() == 0 || path.last() == SEPARATOR {
        Seq::empty()
    } else {
        basename_of(path.drop_last()).push(path.last())
    }
}

/// Returns the last segment of `path`.
pub fn basename(path: &str) -> (name: String)
    ensures
        name@ == basename_of(path@),
{
    let len = path.unicode_len();
    let mut start = len;
    assert(path@.subrange(0, len as int) =~= path@);
    assert(basename_of(path@) + path@.subrange(len as int, len as int) =~= basename_of(path@));
    while start > 0 && path.get_char(start - 1) != SEPARATOR
        invariant
            start <= len,
            len == path@.len(),
            basename_of(path@) == basename_of(path@.subrange(0, start as int)) + path@.subrange(
                start as int,
                len as int,
            ),
        decreases start,
    {
        let ghost head = path@.subrange(0, start as int);
        let ghost c = path@[start - 1];
        let ghost prefix = path@.subrange(0, start - 1);
        assert(head.drop_last() =~= prefix);
        assert(basename_of(head) == basename_of(prefix).push(c));
        assert(basename_of(prefix).push(c) + path@.subrange(start as int, len as int)
            =~= basename_of(prefix) + path@.subrange(start - 1, len as int));
        start = start - 1;
    }
    proof {
        if start > 0 {
            assert(path@.subrange(0, start as int).last() == SEPARATOR);
        }
    }
    path.substring_char(start, len).to_owned()
}

/// `dir` and `name` joined with one separator between them; an empty
/// `dir`, or one that already ends in a separator, gets none.
pub open spec fn joined_path(dir: Seq<char>, name: Seq<char>) -> Seq<char> {
    if dir.len() == 0 || dir.last() == SEPARATOR {
        dir + name
    } else {
        dir.push(SEPARATOR) + name
    }
}

/// Where the body fetched from a URL with path `url_path` is stored: nowhere
/// without a target directory, else in it under the path's last segment,
/// which must not be empty.
pub open spec fn destination_of(target_dir: Option<Seq<char>>, url_path: Seq<char>) -> Result<
    Option<Seq<char>>,
    DownloadError,
> {
    match target_dir {
        None => Ok(None),
        Some(dir) => if basename_of(url_path).len() == 0 {
            Err(DownloadError::InvalidDestination)
        } else {
            Ok(Some(joined_path(dir, basename_of(url_path))))
        },
    }
}

/// The view of an optional directory.
pub open spec fn dir_view(dir: Option<&str>) -> Option<Seq<char>> {
    match dir {
        Some(d) => Some(d@),
        None => None,
    }
}

/// Returns `dir` and `name` joined into one path.
pub fn join_path(dir: &str, name: &str) -> (joined: String)
    ensures
        joined@ == joined_path(dir@, name@),
{
    let mut joined = dir.to_owned();
    let len = dir.unicode_len();
    if len > 0 && dir.get_char(len - 1) != SEPARATOR {
        let sep = "/";
        proof {
            reveal_strlit("/");
        }
        joined.append(sep);
    }
    joined.append(name);
    joined
}

/// Returns the destination of the body fetched from a URL whose path is
/// `url_path`, given the batch's target directory.
pub fn resolve_destination(target_dir: Option<&str>, url_path: &str) -> (r: Result<
    Option<String>,
    DownloadError,
>)
    ensures
        match (r, destination_of(dir_view(target_dir), url_path@)) {
            (Ok(Some(p)), Ok(Some(q))) => p@ == q,
            (Ok(None), Ok(None)) => true,
            (Err(e), Err(f)) => e == f,
            _ => false,
        },
{
    match target_dir {
        None => Ok(None),
        Some(dir) => {
            let name = basename(url_path);
            if name.as_str().unicode_len() == 0 {
                Err(DownloadError::InvalidDestination)
            } else {
                Ok(Some(join_path(dir, name.as_str())))
            }
        },
    }
}

/// The last segment of a path that ends in a separator and then `name`, with
/// no separator in `name`, is `name`.
pub proof fn lemma_basename_after_separator(prefix: Seq<char>, name: Seq<char>)
    requires
        !name.contains(SEPARATOR),
    ensures
        basename_of(prefix.push(SEPARATOR) + name) == name,
    decreases name.len(),
{
    let path = prefix.push(SEPARATOR) + name;
    if name.len() == 0 {
        assert(path =~= prefix.push(SEPARATOR));
    } else {
        let shorter = name.drop_last();
        assert(!shorter.contains(SEPARATOR)) by {
            if shorter.contains(SEPARATOR) {
                let i = choose|i: int| 0 <= i < shorter.len() && shorter[i] == SEPARATOR;
                assert(name[i] == SEPARATOR);
            }
        }
        assert(name.last() != SEPARATOR) by {
            assert(name[name.len() - 1] == name.last());
        }
        assert(path.drop_last() =~= prefix.push(SEPARATOR) + shorter);
        lemma_basename_after_separator(prefix, shorter);
        assert(shorter.push(name.last()) =~= name);
    }
}

/// A URL whose path ends in `/name`, where `name` is a non-empty segment,
/// has its body stored under the target directory `dir` at `dir/name`.
pub proof fn lemma_destination_is_dir_and_name(dir: Seq<char>, leading: Seq<char>, name: Seq<char>)
    requires
        name.len() > 0,
        !name.contains(SEPARATOR),
    ensures
        destination_of(Some(dir), leading.push(SEPARATOR) + name) == Ok::<
            Option<Seq<char>>,
            DownloadError,
        >(Some(joined_path(dir, name))),
        dir.len() > 0 && dir.last() != SEPARATOR ==> joined_path(dir, name) == dir.push(SEPARATOR)
            + name,
{
    lemma_basename_after_separator(leading, name);
}

} // verus!
