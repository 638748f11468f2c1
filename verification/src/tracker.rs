//! Names for the files that the video pipeline reads and writes.

use vstd::prelude::*;
use vstd::string::*;
use crate::text::{chars_of, copy_chars, string_of};

verus! {

/// Why a video could not be tracked.
#[derive(Debug)]
pub enum TrackerError {
    Failed,
}

/// The index of the last `c` in `s`.
pub open spec fn last_index_of(s: Seq<char>, c: char) -> Option<int>
    decreases s.len(),
{
    if s.len() == 0 {
        None
    } else if s.last() == c {
        Some(s.len() - 1)
    } else {
        last_index_of(s.drop_last(), c)
    }
}

/// The index of the last `c` among the first `upto` characters of `cs`.
fn last_index_in(cs: &[char], upto: usize, c: char) -> (r: Option<usize>)
    requires
        upto <= cs@.len(),
    ensures
        match r {
            Some(i) => last_index_of(cs@.take(upto as int), c) == Some(i as int) && i < upto,
            None => last_index_of(cs@.take(upto as int), c) is None,
        },
{
    let mut i: usize = upto;
    proof {
        assert(cs@.take(upto as int).take(upto as int) =~= cs@.take(upto as int));
    }
    while i > 0
        invariant
            i <= upto <= cs@.len(),
            last_index_of(cs@.take(upto as int), c) == last_index_of(cs@.take(i as int), c),
        decreases i,
    {
        i -= 1;
        proof {
            assert(cs@.take(i + 1).drop_last() =~= cs@.take(i as int));
            assert(cs@.take(i + 1).last() == cs@[i as int]);
        }
        if cs[i] == c {
            return Some(i);
        }
    }
    None
}

/// What follows the last slash of `path`, or all of `path` where it has
/// no slash.
pub open spec fn last_segment(path: Seq<char>) -> Seq<char> {
    match last_index_of(path, '/') {
        Some(i) => path.skip(i + 1),
        None => path,
    }
}

/// The file name of `path`: its last segment, unless that is empty or
/// `..`.
pub open spec fn file_name_of(path: Seq<char>) -> Option<Seq<char>> {
    let name = last_segment(path);
    if name.len() == 0 || name == seq!['.', '.'] {
        None
    } else {
        Some(name)
    }
}

/// `path` up to and including its last slash.
pub open spec fn directory_of(path: Seq<char>) -> Seq<char> {
    match last_index_of(path, '/') {
        Some(i) => path.take(i + 1),
        None => Seq::empty(),
    }
}

/// A file name without its extension: what stands before its last dot,
/// unless the name has no dot or only begins with one.
pub open spec fn stem_of(name: Seq<char>) -> Seq<char> {
    match last_index_of(name, '.') {
        Some(i) => if i > 0 {
            name.take(i)
        } else {
            name
        },
        None => name,
    }
}

/// Where the trimmed copy of the video at `path` is written: beside the
/// video, under its name with `-edited.mp4` in place of the extension.
/// `None` where `path` names no file.
pub open spec fn edited_path(path: Seq<char>) -> Option<Seq<char>> {
    match file_name_of(path) {
        Some(name) => Some(directory_of(path) + stem_of(name) + "-edited.mp4"@),
        None => None,
    }
}

/// Where the last segment of `cs` begins.
fn segment_start(cs: &[char]) -> (start: usize)
    ensures
        start <= cs@.len(),
        last_segment(cs@) == cs@.skip(start as int),
        directory_of(cs@) == cs@.take(start as int),
{
    proof {
        assert(cs@.take(cs@.len() as int) =~= cs@);
    }
    match last_index_in(cs, cs.len(), '/') {
        Some(i) => i + 1,
        None => {
            proof {
                assert(cs@.skip(0) =~= cs@);
                assert(cs@.take(0) =~= Seq::<char>::empty());
            }
            0
        },
    }
}

/// The file name of `path`.
pub fn file_name(path: &str) -> (name: Option<String>)
    ensures
        match name {
            Some(text) => file_name_of(path@) == Some(text@),
            None => file_name_of(path@) is None,
        },
{
    let cs = chars_of(path);
    let n: usize = cs.len();
    let start = segment_start(cs.as_slice());
    proof {
        assert(cs@.skip(start as int) =~= cs@.subrange(start as int, n as int));
    }
    if start == n {
        return None;
    }
    if n - start == 2 && cs[start] == '.' && cs[start + 1] == '.' {
        proof {
            assert(cs@.subrange(start as int, n as int) =~= seq!['.', '.']);
        }
        return None;
    }
    proof {
        let name = cs@.subrange(start as int, n as int);
        if name == seq!['.', '.'] {
            assert(name.len() == 2);
            assert(name[0] == '.' && name[1] == '.');
        }
    }
    Some(string_of(copy_chars(cs.as_slice(), start, n).as_slice()))
}

/// Names the trimmed copy of the video at `path`.
pub fn add_edited_suffix(path: &str) -> (out: Option<String>)
    ensures
        match out {
            Some(text) => edited_path(path@) == Some(text@),
            None => edited_path(path@) is None,
        },
{
    let name = match file_name(path) {
        Some(text) => chars_of(text.as_str()),
        None => {
            return None;
        },
    };
    let cs = chars_of(path);
    let start = segment_start(cs.as_slice());
    proof {
        assert(name@.take(name@.len() as int) =~= name@);
    }
    let stem_len: usize = match last_index_in(name.as_slice(), name.len(), '.') {
        Some(i) => if i > 0 {
            i
        } else {
            name.len()
        },
        None => name.len(),
    };
    let mut out = string_of(copy_chars(cs.as_slice(), 0, start).as_slice());
    out.append(string_of(copy_chars(name.as_slice(), 0, stem_len).as_slice()).as_str());
    out.append("-edited.mp4");
    proof {
        assert(cs@.subrange(0, start as int) =~= cs@.take(start as int));
        assert(name@.subrange(0, stem_len as int) =~= stem_of(name@));
    }
    Some(out)
}

} // verus!
