//! Byte-level path utilities: the final component of a path, whether a
//! path is hidden, and the parent of a path. Paths are byte strings with
//! `/` as the separator, as on Unix.

use vstd::prelude::*;

verus! {

/// Path separator byte, `/`.
pub const SEP_BYTE: u8 = 47;

/// Dot byte, `.`.
pub const DOT_BYTE: u8 = 46;

/// The last index at which `b` occurs in `s`.
pub open spec fn last_index_of(s: Seq<u8>, b: u8) -> Option<int>
    decreases s.len(),
{
    if s.len() == 0 {
        None
    } else if s.last() == b {
        Some(s.len() - 1)
    } else {
        last_index_of(s.drop_last(), b)
    }
}

/// The final component of the path: the bytes after the last separator.
/// There is none when the path is empty or ends with a dot (so `.` and
/// `..` have no file name).
pub open spec fn spec_file_name(path: Seq<u8>) -> Option<Seq<u8>> {
    if path.len() == 0 || path.last() == DOT_BYTE {
        None
    } else {
        Some(
            path.subrange(
                match last_index_of(path, SEP_BYTE) {
                    Some(i) => i + 1,
                    None => 0,
                },
                path.len() as int,
            ),
        )
    }
}

/// A path is hidden when its final component starts with a dot.
pub open spec fn spec_is_hidden(path: Seq<u8>) -> bool {
    match spec_file_name(path) {
        Some(name) => name.len() > 0 && name[0] == DOT_BYTE,
        None => false,
    }
}

/// Relies on memchr::memrchr: the index of the last occurrence of the
/// needle in the haystack, or nothing when it does not occur.
#[verifier::external_body]
fn memrchr_last(needle: u8, haystack: &[u8]) -> (r: Option<usize>)
    ensures
        match r {
            Some(i) => i < haystack@.len() && haystack@[i as int] == needle && forall|j: int|
                i < j < haystack@.len() ==> haystack@[j] != needle,
            None => forall|j: int| 0 <= j < haystack@.len() ==> haystack@[j] != needle,
        },
{
    memchr::memrchr(needle, haystack)
}

/// Both characterizations of the last occurrence agree.
proof fn lemma_last_index_unique(s: Seq<u8>, b: u8, i: int)
    requires
        0 <= i < s.len(),
        s[i] == b,
        forall|j: int| i < j < s.len() ==> s[j] != b,
    ensures
        last_index_of(s, b) == Some(i),
    decreases s.len(),
{
    if s.last() != b {
        assert(forall|j: int| 0 <= j < s.len() - 1 ==> s.drop_last()[j] == s[j]);
        lemma_last_index_unique(s.drop_last(), b, i);
    }
}

proof fn lemma_last_index_none(s: Seq<u8>, b: u8)
    requires
        forall|j: int| 0 <= j < s.len() ==> s[j] != b,
    ensures
        last_index_of(s, b) == None::<int>,
    decreases s.len(),
{
    if s.len() > 0 {
        assert(forall|j: int| 0 <= j < s.len() - 1 ==> s.drop_last()[j] == s[j]);
        lemma_last_index_none(s.drop_last(), b);
    }
}

/// The final component of the path, if it has one: the bytes after the
/// last separator, unless the path is empty or ends with a dot.
pub fn file_name(path: &Vec<u8>) -> (r: Option<Vec<u8>>)
    ensures
        match r {
            Some(name) => spec_file_name(path@) == Some(name@),
            None => spec_file_name(path@) == None::<Seq<u8>>,
        },
{
    let n = path.len();
    if n == 0 || path[n - 1] == DOT_BYTE {
        return None;
    }
    let start = match memrchr_last(SEP_BYTE, path.as_slice()) {
        Some(i) => {
            proof {
                lemma_last_index_unique(path@, SEP_BYTE, i as int);
            }
            i + 1
        },
        None => {
            proof {
                lemma_last_index_none(path@, SEP_BYTE);
            }
            0
        },
    };
    let name = crate::proto::copy_slice(vstd::slice::slice_subrange(path.as_slice(), start, n));
    Some(name)
}

/// Whether the path's final component starts with a dot.
pub fn is_hidden(path: &Vec<u8>) -> (r: bool)
    ensures
        r == spec_is_hidden(path@),
{
    match file_name(path) {
        Some(name) => name.len() > 0 && name[0] == DOT_BYTE,
        None => false,
    }
}

/// The parent of a byte path: the bytes before the last separator; the
/// root's parent is the root of nothing, a bare name's parent is the empty
/// path, and the empty path has none.
pub open spec fn spec_parent(path: Seq<u8>) -> Option<Seq<u8>> {
    if path.len() == 0 {
        None
    } else {
        match last_index_of(path, SEP_BYTE) {
            None => Some(Seq::empty()),
            Some(i) => if i == 0 {
                if path.len() == 1 {
                    None
                } else {
                    Some(path.subrange(0, 1))
                }
            } else {
                Some(path.subrange(0, i))
            },
        }
    }
}

/// The parent of the path, as `spec_parent` gives it.
pub fn parent(path: &Vec<u8>) -> (r: Option<Vec<u8>>)
    ensures
        match r {
            Some(p) => spec_parent(path@) == Some(p@) && p@.len() < path@.len(),
            None => spec_parent(path@) == None::<Seq<u8>>,
        },
{
    let n = path.len();
    if n == 0 {
        return None;
    }
    match memrchr_last(SEP_BYTE, path.as_slice()) {
        None => {
            proof {
                lemma_last_index_none(path@, SEP_BYTE);
            }
            Some(Vec::new())
        },
        Some(i) => {
            proof {
                lemma_last_index_unique(path@, SEP_BYTE, i as int);
            }
            if i == 0 {
                if n == 1 {
                    None
                } else {
                    Some(crate::proto::copy_slice(vstd::slice::slice_subrange(
                        path.as_slice(),
                        0,
                        1,
                    )))
                }
            } else {
                Some(crate::proto::copy_slice(vstd::slice::slice_subrange(
                    path.as_slice(),
                    0,
                    i,
                )))
            }
        },
    }
}

} // verus!
