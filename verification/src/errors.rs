//! The error type shared by the normalizer and the cache.

use vstd::prelude::*;

verus! {

/// What can go wrong while judging and storing feed items.
#[derive(Debug, PartialEq, Eq)]
pub enum BotError {
    /// The text is not a well-formed absolute URL. Holds the text as given.
    InvalidUrl { url: String },
    /// The URL has no host. Holds the URL as the parser writes it.
    NoDomain { url: String },
    /// Stored state exists and could not be read.
    StorageRead { detail: String },
    /// The state could not be written to storage.
    StorageWrite { detail: String },
}

/// A `BotError` with its texts as character sequences.
pub enum BotErrorView {
    InvalidUrl { url: Seq<char> },
    NoDomain { url: Seq<char> },
    StorageRead { detail: Seq<char> },
    StorageWrite { detail: Seq<char> },
}

impl View for BotError {
    type V = BotErrorView;

    open spec fn view(&self) -> BotErrorView {
        match self {
            BotError::InvalidUrl { url } => BotErrorView::InvalidUrl { url: url@ },
            BotError::NoDomain { url } => BotErrorView::NoDomain { url: url@ },
            BotError::StorageRead { detail } => BotErrorView::StorageRead { detail: detail@ },
            BotError::StorageWrite { detail } => BotErrorView::StorageWrite { detail: detail@ },
        }
    }
}

} // verus!
