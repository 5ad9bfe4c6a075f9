//! Classification of raw lexical tokens into typed path segments.
//!
//! A segment is one identifier along the path from an enclosing declaration to
//! a capture boundary. The single character `$` is the capture marker: used
//! alone it marks an anonymous boundary, as a suffix it marks a named one.
use vstd::prelude::*;

verus! {

/// One lexical path segment, classified by its textual form.
#[derive(Debug, Clone, PartialEq, Eq, PartialOrd, Ord)]
pub enum Segment {
    /// An ordinary scope identifier, not a capture boundary.
    Named(String),
    /// The bare capture marker `$`; contributes no name text.
    AnonymousCaptured,
    /// A token ending in the capture marker, stored with the marker stripped.
    NamedCaptured(String),
}

/// The name text a segment contributes to a display name: the token with the
/// capture marker removed, so the empty sequence for the bare marker.
pub open spec fn spec_segment_text(s: Segment) -> Seq<char> {
    match s {
        Segment::Named(name) => name@,
        Segment::AnonymousCaptured => Seq::<char>::empty(),
        Segment::NamedCaptured(name) => name@,
    }
}

/// The name a segment binds to when it is re-emitted as a parameter or
/// variable: the bare marker keeps the literal marker text so the emitted
/// placeholder stays syntactically valid while signalling anonymity.
pub open spec fn spec_segment_binding(s: Segment) -> Seq<char> {
    match s {
        Segment::Named(name) => name@,
        Segment::AnonymousCaptured => seq!['$'],
        Segment::NamedCaptured(name) => name@,
    }
}

impl Segment {
    /// Classifies a raw token. Total: every string maps to exactly one
    /// variant, determined by its textual form alone.
    pub fn new(input: &str) -> (s: Segment)
        ensures
            input@ =~= seq!['$'] ==> s == Segment::AnonymousCaptured,
            !(input@ =~= seq!['$']) && input@.len() > 0 && input@.last() == '$'
                ==> (s matches Segment::NamedCaptured(name)
                    && name@ == input@.take(input@.len() - 1)),
            !(input@.len() > 0 && input@.last() == '$')
                ==> (s matches Segment::Named(name) && name@ == input@),
    {
        proof {
            reveal_strlit("$");
        }
        let n = input.unicode_len();
        if n == 1 && input.get_char(0) == '$' {
            proof {
                assert(input@ =~= seq!['$']);
            }
            Segment::AnonymousCaptured
        } else if n > 0 && input.get_char(n - 1) == '$' {
            let stripped = input.substring_char(0, n - 1);
            proof {
                assert(stripped@ =~= input@.take(input@.len() - 1));
            }
            Segment::NamedCaptured(stripped.to_owned())
        } else {
            Segment::Named(input.to_owned())
        }
    }

    /// True exactly for the capture-boundary variants.
    pub fn is_qwik(&self) -> (r: bool)
        ensures
            r == (self is AnonymousCaptured || self is NamedCaptured),
    {
        match self {
            Segment::Named(_) => false,
            Segment::AnonymousCaptured => true,
            Segment::NamedCaptured(_) => true,
        }
    }

    /// Renders the segment back to its name text, with the marker removed.
    pub fn to_text(&self) -> (r: String)
        ensures
            r@ == spec_segment_text(*self),
    {
        match self {
            Segment::Named(name) => name.clone(),
            Segment::AnonymousCaptured => String::new(),
            Segment::NamedCaptured(name) => name.clone(),
        }
    }

    /// The name this segment binds to in emitted code; the bare marker binds
    /// to the literal marker text.
    pub fn binding_name(&self) -> (r: String)
        ensures
            r@ == spec_segment_binding(*self),
    {
        match self {
            Segment::Named(name) => name.clone(),
            Segment::AnonymousCaptured => {
                let marker = "$";
                proof {
                    reveal_strlit("$");
                    assert(marker@ =~= seq!['$']);
                }
                marker.to_owned()
            },
            Segment::NamedCaptured(name) => name.clone(),
        }
    }
}

} // verus!
