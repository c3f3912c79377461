//! The diagram classifier: decides from a fenced code block's language tag
//! and the configured tag prefix whether the block holds diagram source, and
//! of which kind.
use vstd::prelude::*;
use vstd::string::*;

use crate::config::str_eq;

verus! {

/// The diagram notation of a block: one of the two well-known kinds, or any
/// other engine name passed through to the rendering service.
#[derive(Debug, Clone, PartialEq, Eq)]
pub enum DiagramKind {
    Mermaid,
    PlantUml,
    /// The prefix-stripped, lowercased language tag.
    Other(String),
}

/// The mathematical value of a `DiagramKind`.
pub enum KindView {
    Mermaid,
    PlantUml,
    Other(Seq<char>),
}

pub open spec fn kind_view(k: DiagramKind) -> KindView {
    match k {
        DiagramKind::Mermaid => KindView::Mermaid,
        DiagramKind::PlantUml => KindView::PlantUml,
        DiagramKind::Other(s) => KindView::Other(s@),
    }
}

/// The tag of a kind: what the cache key and the service request use. An
/// `Other` tag is already lowercased by `classify`.
pub open spec fn kind_tag(k: KindView) -> Seq<char> {
    match k {
        KindView::Mermaid => "mermaid"@,
        KindView::PlantUml => "plantuml"@,
        KindView::Other(s) => s,
    }
}

/// What `str::to_lowercase` returns: a function of the characters alone.
pub uninterp spec fn lower_of(s: Seq<char>) -> Seq<char>;

/// Relies on `str::to_lowercase`: the result depends on the characters alone.
#[verifier::external_body]
fn to_lower(s: &str) -> (r: String)
    ensures
        r@ == lower_of(s@),
{
    s.to_lowercase()
}

pub open spec fn is_prefix_of(p: Seq<char>, s: Seq<char>) -> bool {
    p.len() <= s.len() && s.subrange(0, p.len() as int) == p
}

/// The classification rule. A non-empty configured prefix must head the tag,
/// and is then stripped; the two well-known engine names map to their kinds;
/// any other prefixed tag passes through lowercased; with no prefix
/// configured, only the two exact names classify.
pub open spec fn classify_spec(tag: Seq<char>, prefix: Seq<char>) -> Option<KindView> {
    if prefix.len() > 0 && !is_prefix_of(prefix, tag) {
        None
    } else {
        let stripped = tag.skip(prefix.len() as int);
        if stripped == "mermaid"@ {
            Some(KindView::Mermaid)
        } else if stripped == "plantuml"@ {
            Some(KindView::PlantUml)
        } else if prefix.len() > 0 {
            Some(KindView::Other(lower_of(stripped)))
        } else {
            None
        }
    }
}

/// Classifies a fenced code block's language tag. `None` means the block is
/// an ordinary code sample and is left untouched.
pub fn classify(tag: &str, prefix: &str) -> (r: Option<DiagramKind>)
    ensures
        match r {
            Some(k) => classify_spec(tag@, prefix@) == Some(kind_view(k)),
            None => classify_spec(tag@, prefix@) is None,
        },
{
    let plen = prefix.unicode_len();
    let tlen = tag.unicode_len();
    if plen > tlen {
        // the prefix is non-empty here, and cannot head a shorter tag
        return None;
    }
    let head = tag.substring_char(0, plen);
    if plen > 0 && !str_eq(head, prefix) {
        return None;
    }
    let stripped = tag.substring_char(plen, tlen);
    proof {
        assert(tag@.skip(plen as int) == stripped@);
    }
    if str_eq(stripped, "mermaid") {
        Some(DiagramKind::Mermaid)
    } else if str_eq(stripped, "plantuml") {
        Some(DiagramKind::PlantUml)
    } else if plen > 0 {
        Some(DiagramKind::Other(to_lower(stripped)))
    } else {
        None
    }
}

impl DiagramKind {
    /// The tag of this kind as a fresh string.
    pub fn tag_string(&self) -> (r: String)
        ensures
            r@ == kind_tag(kind_view(*self)),
    {
        match self {
            DiagramKind::Mermaid => String::from_str("mermaid"),
            DiagramKind::PlantUml => String::from_str("plantuml"),
            DiagramKind::Other(s) => s.clone(),
        }
    }
}

} // verus!
