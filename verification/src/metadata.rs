//! Descriptive metadata for the collection and for single tokens.

use vstd::prelude::*;

verus! {

/// Descriptive fields of one token. All fields are optional: a token has no
/// metadata at all until the collection owner reveals it.
pub struct TokenMetadata {
    pub title: Option<String>,
    pub description: Option<String>,
    pub media: Option<String>,
    pub media_hash: Option<String>,
    pub reference: Option<String>,
    pub reference_hash: Option<String>,
    pub extra: Option<String>,
}

/// The mathematical image of a `TokenMetadata` value.
pub struct MetaView {
    pub title: Option<Seq<char>>,
    pub description: Option<Seq<char>>,
    pub media: Option<Seq<char>>,
    pub media_hash: Option<Seq<char>>,
    pub reference: Option<Seq<char>>,
    pub reference_hash: Option<Seq<char>>,
    pub extra: Option<Seq<char>>,
}

pub open spec fn opt_view(o: Option<String>) -> Option<Seq<char>> {
    match o {
        Some(s) => Some(s@),
        None => None,
    }
}

impl DeepView for TokenMetadata {
    type V = MetaView;

    open spec fn deep_view(&self) -> MetaView {
        MetaView {
            title: opt_view(self.title),
            description: opt_view(self.description),
            media: opt_view(self.media),
            media_hash: opt_view(self.media_hash),
            reference: opt_view(self.reference),
            reference_hash: opt_view(self.reference_hash),
            extra: opt_view(self.extra),
        }
    }
}

/// The image of metadata with every field absent.
pub open spec fn empty_meta() -> MetaView {
    MetaView {
        title: None,
        description: None,
        media: None,
        media_hash: None,
        reference: None,
        reference_hash: None,
        extra: None,
    }
}

fn clone_opt(o: &Option<String>) -> (r: Option<String>)
    ensures
        opt_view(r) == opt_view(*o),
{
    match o {
        Some(s) => Some(s.clone()),
        None => None,
    }
}

impl TokenMetadata {
    /// Metadata with every field absent.
    pub fn empty() -> (r: TokenMetadata)
        ensures
            r.deep_view() == empty_meta(),
    {
        TokenMetadata {
            title: None,
            description: None,
            media: None,
            media_hash: None,
            reference: None,
            reference_hash: None,
            extra: None,
        }
    }

    /// A copy with the same image.
    pub fn duplicate(&self) -> (r: TokenMetadata)
        ensures
            r.deep_view() == self.deep_view(),
    {
        TokenMetadata {
            title: clone_opt(&self.title),
            description: clone_opt(&self.description),
            media: clone_opt(&self.media),
            media_hash: clone_opt(&self.media_hash),
            reference: clone_opt(&self.reference),
            reference_hash: clone_opt(&self.reference_hash),
            extra: clone_opt(&self.extra),
        }
    }
}

/// Collection-level metadata, fixed at initialization. `standard` holds the
/// token-standard version string the collection declares.
pub struct NFTContractMetadata {
    pub standard: String,
    pub name: String,
    pub symbol: String,
    pub icon: Option<String>,
    pub base_uri: Option<String>,
    pub reference: Option<String>,
    pub reference_hash: Option<String>,
}

} // verus!
