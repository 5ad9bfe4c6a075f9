//! Component naming: the source descriptor, the shared import/export model,
//! and the identifier synthesizer.
use vstd::prelude::*;

pub mod id;
pub mod shared;

pub use shared::Target;

verus! {

/// The file-name part of a path: the characters after the last `/`, or the
/// whole path when it holds no `/`.
pub open spec fn spec_base_name(p: Seq<char>) -> Seq<char>
    decreases p.len(),
{
    if p.len() == 0 {
        Seq::<char>::empty()
    } else if p.last() == '/' {
        Seq::<char>::empty()
    } else {
        spec_base_name(p.drop_last()).push(p.last())
    }
}

/// Describes the source file a capture boundary was found in: its normalized
/// relative path and the base file name derived from that path.
#[derive(Debug, Clone, PartialEq, Eq, PartialOrd, Ord)]
pub struct SourceInfo {
    pub rel_path: String,
    pub file_name: String,
}

impl SourceInfo {
    /// Builds a descriptor from a relative path; only the empty path is
    /// rejected. The base file name is the path's last `/`-separated part.
    pub fn new(path: &str) -> (r: Option<SourceInfo>)
        ensures
            r is Some <==> path@.len() > 0,
            r matches Some(info) ==> info.rel_path@ == path@
                && info.file_name@ == spec_base_name(path@),
    {
        let n = path.unicode_len();
        if n == 0 {
            return None;
        }
        let mut i: usize = n;
        while i > 0 && path.get_char(i - 1) != '/'
            invariant
                0 <= i <= n,
                n == path@.len(),
                forall|j: int| i <= j < n ==> path@[j] != '/',
            decreases i,
        {
            i = i - 1;
        }
        proof {
            lemma_base_name_suffix(path@, i as int);
        }
        let file_name = path.substring_char(i, n);
        Some(SourceInfo { rel_path: path.to_owned(), file_name: file_name.to_owned() })
    }
}

/// The base name of a path is the suffix that follows its last `/`.
proof fn lemma_base_name_suffix(p: Seq<char>, i: int)
    requires
        0 <= i <= p.len(),
        forall|j: int| i <= j < p.len() ==> p[j] != '/',
        i > 0 ==> p[i - 1] == '/',
    ensures
        spec_base_name(p) == p.skip(i),
    decreases p.len() - i,
{
    if p.len() == i {
        if i == 0 {
            assert(spec_base_name(p) =~= p.skip(i));
        } else {
            assert(p.last() == '/');
            assert(spec_base_name(p) =~= p.skip(i));
        }
    } else {
        assert(p.last() != '/');
        let q = p.drop_last();
        lemma_base_name_suffix(q, i);
        assert(p.skip(i) =~= q.skip(i).push(p.last()));
    }
}

} // verus!
