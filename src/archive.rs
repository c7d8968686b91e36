use vstd::prelude::*;

verus! {

/// The position of the last dot in `name`, or -1 where it has none.
pub open spec fn last_dot(name: Seq<char>) -> int
    decreases name.len(),
{
    if name.len() == 0 {
        -1
    } else if name.last() == '.' {
        name.len() - 1
    } else {
        last_dot(name.drop_last())
    }
}

/// The extension of a file name: what follows its last dot, where something
/// comes before that dot; `..` has none.
pub open spec fn extension_of(name: Seq<char>) -> Option<Seq<char>> {
    if name == seq!['.', '.'] || last_dot(name) <= 0 {
        None
    } else {
        Some(name.subrange(last_dot(name) + 1, name.len() as int))
    }
}

/// Whether a directory entry named `file_name` is a gzip archive to unpack:
/// its extension is `gz`.
pub fn is_gzip_archive(file_name: &str) -> (r: bool)
    ensures
        r == (extension_of(file_name@) == Some(seq!['g', 'z'])),
{
    let len = file_name.unicode_len();
    let mut dot = len;
    assert(file_name@.subrange(0, len as int) =~= file_name@);
    while dot > 0 && file_name.get_char(dot - 1) != '.'
        invariant
            dot <= len,
            len == file_name@.len(),
            last_dot(file_name@) == last_dot(file_name@.subrange(0, dot as int)),
        decreases dot,
    {
        let ghost head = file_name@.subrange(0, dot as int);
        assert(head.drop_last() =~= file_name@.subrange(0, dot - 1));
        dot = dot - 1;
    }
    proof {
        if dot > 0 {
            let head = file_name@.subrange(0, dot as int);
            assert(head.last() == '.');
        }
    }
    if dot <= 1 {
        return false;
    }
    // The last dot is at dot - 1, with something before it.
    let is_gz = len - dot == 2 && file_name.get_char(dot) == 'g' && file_name.get_char(dot + 1)
        == 'z';
    proof {
        let ext = file_name@.subrange(dot as int, len as int);
        let gz = seq!['g', 'z'];
        assert(gz.len() == 2 && gz[0] == 'g' && gz[1] == 'z');
        if is_gz {
            assert(ext =~= gz);
        } else if ext.len() == 2 {
            assert(ext[0] == file_name@[dot as int] && ext[1] == file_name@[dot + 1]);
        }
        if file_name@ == seq!['.', '.'] {
            assert(file_name@[1] == '.');
        }
    }
    is_gz
}

} // verus!
