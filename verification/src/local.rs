//! The local side of a synchronization: the card files of the sync
//! directory.

use crate::card::{CardView, Cards, CardsMap, Date};
use crate::error::CardamomError;
use crate::paths::{extension, extension_of, file_stem, file_stem_of, join, joined};
use crate::search::first_where;
use vstd::prelude::*;

verus! {

/// What asking for the time of a file's last modification gave.
#[derive(Debug, PartialEq, Eq)]
pub enum Modified {
    /// The time.
    At(Date),
    /// The metadata of the file could not be read: the reason.
    MetadataFailed(String),
    /// The metadata holds no time of modification: the reason.
    ModifiedFailed(String),
}

/// An entry of the sync directory.
#[derive(Debug, PartialEq, Eq)]
pub struct DirEntry {
    pub path: String,
    pub modified: Modified,
}

/// A path that leads to a card file: its extension is `vcf`.
pub open spec fn is_card_path(path: Seq<char>) -> bool {
    extension_of(path) == Some("vcf"@) && file_stem_of(path) is Some
}

/// Whether a path leads to a card file.
pub fn is_card_file(path: &str) -> (is_card: bool)
    ensures
        is_card == is_card_path(path@),
{
    match extension(path) {
        Some(ext) => crate::card::same_text(ext.as_str(), "vcf") && file_stem(path).is_some(),
        None => false,
    }
}

/// The condition that an entry is a card file whose time of modification
/// could not be read.
pub open spec fn is_unreadable() -> spec_fn(DirEntry) -> bool {
    |entry: DirEntry| is_card_path(entry.path@) && !(entry.modified is At)
}

/// The error for an entry whose time of modification could not be read.
pub open spec fn reports_entry(error: CardamomError, entry: DirEntry) -> bool {
    match entry.modified {
        Modified::At(_) => false,
        Modified::MetadataFailed(reason) => error matches CardamomError::GetVcfMetadataError(
            path,
            text,
        ) && path@ == entry.path@ && text@ == reason@,
        Modified::ModifiedFailed(reason) => error matches CardamomError::GetVcfModifiedError(
            path,
            text,
        ) && path@ == entry.path@ && text@ == reason@,
    }
}

/// The card that a card file stands for: the stem of its name is the id,
/// the time of its modification the date. Etag and content stay empty.
pub open spec fn local_card(entry: DirEntry) -> CardView {
    CardView {
        id: file_stem_of(entry.path@).unwrap(),
        etag: Seq::empty(),
        date: entry.modified->At_0,
        content: Seq::empty(),
    }
}

/// The cards of the card files among the entries, by id. Other entries are
/// passed over.
pub open spec fn local_cards(entries: Seq<DirEntry>) -> Map<Seq<char>, CardView>
    decreases entries.len(),
{
    if entries.len() == 0 {
        Map::empty()
    } else if is_card_path(entries.last().path@) && entries.last().modified is At {
        local_cards(entries.drop_last()).insert(
            local_card(entries.last()).id,
            local_card(entries.last()),
        )
    } else {
        local_cards(entries.drop_last())
    }
}

/// The local side: the cards that the sync directory held when the last run
/// ended, and the cards that it holds now.
#[derive(Debug)]
pub struct LocalCards {
    sync_dir: String,
    prev: CardsMap,
    next: CardsMap,
}

impl Cards for LocalCards {
    closed spec fn prev_cards(&self) -> Map<Seq<char>, CardView> {
        self.prev@
    }

    closed spec fn next_cards(&self) -> Map<Seq<char>, CardView> {
        self.next@
    }

    fn prev(&self) -> (cards: &CardsMap) {
        proof {
            use_type_invariant(self);
        }
        &self.prev
    }

    fn next(&self) -> (cards: &CardsMap) {
        proof {
            use_type_invariant(self);
        }
        &self.next
    }
}

impl LocalCards {
    #[verifier::type_invariant]
    spec fn well_formed(&self) -> bool {
        self.prev.wf() && self.next.wf()
    }

    /// The path of the local side's snapshot: `.local` in the sync
    /// directory.
    pub fn snapshot_path(sync_dir: &str) -> (path: String)
        ensures
            path@ == joined(sync_dir@, ".local"@),
    {
        join(sync_dir, ".local")
    }

    /// The local side, from the snapshot of the last run and what listing
    /// the sync directory gave: its entries, or the reason why it could not
    /// be read.
    pub fn new(sync_dir: String, prev: CardsMap, listing: Result<Vec<DirEntry>, String>) -> (local:
        Result<LocalCards, CardamomError>)
        requires
            prev.wf(),
        ensures
            match listing {
                Err(reason) => {
                    &&& local is Err
                    &&& local.unwrap_err() matches CardamomError::ReadLocalCardsDirError(
                        path,
                        text,
                    )
                    &&& path@ == sync_dir@
                    &&& text@ == reason@
                },
                Ok(entries) => match first_where(entries@, is_unreadable()) {
                    Some(i) => local is Err && reports_entry(local.unwrap_err(), entries@[i]),
                    None => {
                        &&& local is Ok
                        &&& local.unwrap().prev_cards() == prev@
                        &&& local.unwrap().next_cards() == local_cards(entries@)
                        &&& local.unwrap().sync_dir_of() == sync_dir@
                    },
                },
            },
    {
        match listing {
            Err(reason) => Err(CardamomError::ReadLocalCardsDirError(sync_dir, reason)),
            Ok(entries) => match crate::build_local_cards(&entries) {
                Ok(next) => Ok(LocalCards { sync_dir, prev, next }),
                Err(error) => Err(error),
            },
        }
    }

    /// The sync directory.
    pub closed spec fn sync_dir_of(&self) -> Seq<char> {
        self.sync_dir@
    }

    /// The sync directory.
    pub fn sync_dir(&self) -> (sync_dir: &String)
        ensures
            sync_dir@ == self.sync_dir_of(),
    {
        &self.sync_dir
    }
}

} // verus!
