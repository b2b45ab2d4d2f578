//! A snapshot on disk: the cards that a side held when the last run ended.

use crate::card::{CardView, CardsMap};
use crate::error::CardamomError;
use vstd::prelude::*;

verus! {

/// What reading and decoding a snapshot file gave.
#[derive(Debug)]
pub enum Loaded {
    /// The file could not be opened or read: the reason.
    Unreadable(String),
    /// The file is empty.
    Empty,
    /// The file holds these cards.
    Decoded(CardsMap),
    /// The file holds something else: the reason.
    Undecodable(String),
}

/// What encoding and writing a snapshot file gave.
#[derive(Debug, PartialEq, Eq)]
pub enum Saved {
    Written,
    /// The file could not be opened or written: the reason.
    Unwritable(String),
    /// The cards could not be encoded: the reason.
    Unencodable(String),
}

/// The snapshot of one side: where it lies, and the cards in it.
#[derive(Debug)]
pub struct CachedCards {
    pub file_path: String,
    pub cards: CardsMap,
}

impl CachedCards {
    /// Whether the bytes of a snapshot file have to be decoded: an empty
    /// file stands for no cards.
    pub fn needs_decoding(bytes: &[u8]) -> (needed: bool)
        ensures
            needed == (bytes@.len() > 0),
    {
        bytes.len() > 0
    }

    /// The snapshot at `file_path`, from what reading and decoding the file
    /// gave. An empty file is a snapshot without cards.
    pub fn new(file_path: String, loaded: Loaded) -> (cache: Result<CachedCards, CardamomError>)
        requires
            loaded matches Loaded::Decoded(cards) ==> cards.wf(),
        ensures
            match loaded {
                Loaded::Unreadable(reason) => cache is Err && (cache.unwrap_err()
                    matches CardamomError::ReadCachedCardsError(path, text) && path@ == file_path@
                    && text@ == reason@),
                Loaded::Undecodable(reason) => cache is Err && (cache.unwrap_err()
                    matches CardamomError::ParseCachedCardsError(path, text) && path@ == file_path@
                    && text@ == reason@),
                Loaded::Empty => cache is Ok && cache.unwrap().cards.wf() && cache.unwrap().cards@
                    == Map::<Seq<char>, CardView>::empty() && cache.unwrap().file_path@
                    == file_path@,
                Loaded::Decoded(cards) => cache is Ok && cache.unwrap().cards.wf()
                    && cache.unwrap().cards@ == cards@ && cache.unwrap().file_path@ == file_path@,
            },
    {
        match loaded {
            Loaded::Unreadable(reason) => Err(
                CardamomError::ReadCachedCardsError(file_path, reason),
            ),
            Loaded::Undecodable(reason) => Err(
                CardamomError::ParseCachedCardsError(file_path, reason),
            ),
            Loaded::Empty => Ok(CachedCards { file_path, cards: CardsMap::new() }),
            Loaded::Decoded(cards) => Ok(CachedCards { file_path, cards }),
        }
    }

    /// What came of storing the snapshot.
    pub fn save(&self, saved: Saved) -> (done: Result<(), CardamomError>)
        ensures
            match saved {
                Saved::Written => done is Ok,
                Saved::Unwritable(reason) => done is Err && (done.unwrap_err()
                    matches CardamomError::ReadCachedCardsError(path, text) && path@
                    == self.file_path@ && text@ == reason@),
                Saved::Unencodable(reason) => done is Err && (done.unwrap_err()
                    matches CardamomError::ParseCachedCardsError(path, text) && path@
                    == self.file_path@ && text@ == reason@),
            },
    {
        match saved {
            Saved::Written => Ok(()),
            Saved::Unwritable(reason) => Err(
                CardamomError::ReadCachedCardsError(self.file_path.clone(), reason),
            ),
            Saved::Unencodable(reason) => Err(
                CardamomError::ParseCachedCardsError(self.file_path.clone(), reason),
            ),
        }
    }
}

} // verus!
