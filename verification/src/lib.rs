//! Three-way synchronization of address-book cards between a local
//! directory and a CardDAV server, with a snapshot of what each side held
//! when the last run ended.

pub mod assoc;
pub mod cache;
pub mod card;
pub mod card_parsers;
pub mod card_repository;
pub mod carddav;
pub mod config;
pub mod contact;
pub mod error;
pub mod local;
pub mod output;
pub mod paths;
pub mod remote;
pub mod remote_card_repository;
pub mod run;
pub mod search;
pub mod sync;
pub mod text;

pub use crate::run::{agenda, sync, task, Action, SyncRun, Task};

use crate::assoc::{keyed, lemma_keyed_witness};
use crate::card::{card_entries, Card, CardView, CardsMap};
use crate::error::CardamomError;
use crate::local::{is_card_file, is_unreadable, local_cards, reports_entry, DirEntry, Modified};
use crate::paths::file_stem;
use crate::search::{first_where, lemma_first_where_is, lemma_first_where_none};
use crate::sync::slot;
use vstd::prelude::*;

verus! {

/// What is done to a card of one store.
#[derive(Debug, PartialEq, Eq)]
pub enum HunkKind {
    Add(Card),
    Update(Card),
    Del(String),
}

/// One mutation of the local directory, of the snapshot or of the server.
#[derive(Debug, PartialEq, Eq)]
pub enum Hunk {
    Local(HunkKind),
    Cache(HunkKind),
    Remote(HunkKind),
}

/// The mutations that bring three stores in line, in the order in which
/// they were decided.
pub type Patch = Vec<Hunk>;

/// What is done to a card of one store, as mathematical values.
pub enum HunkKindView {
    Add(CardView),
    Update(CardView),
    Del(Seq<char>),
}

/// One mutation of one of the three stores, as mathematical values.
pub enum HunkView {
    Local(HunkKindView),
    Cache(HunkKindView),
    Remote(HunkKindView),
}

impl View for HunkKind {
    type V = HunkKindView;

    open spec fn view(&self) -> HunkKindView {
        match self {
            HunkKind::Add(card) => HunkKindView::Add(card@),
            HunkKind::Update(card) => HunkKindView::Update(card@),
            HunkKind::Del(id) => HunkKindView::Del(id@),
        }
    }
}

impl View for Hunk {
    type V = HunkView;

    open spec fn view(&self) -> HunkView {
        match self {
            Hunk::Local(kind) => HunkView::Local(kind@),
            Hunk::Cache(kind) => HunkView::Cache(kind@),
            Hunk::Remote(kind) => HunkView::Remote(kind@),
        }
    }
}

/// The hunks of a patch, as mathematical values.
pub open spec fn hunk_views(patch: Seq<Hunk>) -> Seq<HunkView> {
    Seq::new(patch.len(), |i: int| patch[i]@)
}

/// The hunks that bring a card from the local or the remote store to the
/// other one and to the snapshot.
pub open spec fn carried(card: CardView, to_remote: bool, is_new: bool) -> Seq<HunkView> {
    let kind = if is_new {
        HunkKindView::Add(card)
    } else {
        HunkKindView::Update(card)
    };
    if to_remote {
        seq![HunkView::Remote(kind), HunkView::Cache(kind)]
    } else {
        seq![HunkView::Local(kind), HunkView::Cache(kind)]
    }
}

/// The hunks for one id, from what the local directory, the snapshot and
/// the server hold under it. A card that only one side has is added to the
/// other side; a card that the snapshot knows and one side lacks is deleted;
/// of a card that all three hold, the side whose etag left the snapshot's
/// wins, and the later date where both did.
pub open spec fn hunks_for(
    id: Seq<char>,
    local: Option<CardView>,
    cache: Option<CardView>,
    remote: Option<CardView>,
) -> Seq<HunkView> {
    match (local, cache, remote) {
        (Some(card), None, None) => carried(card, true, true),
        (None, Some(_), None) => seq![HunkView::Cache(HunkKindView::Del(id))],
        (None, None, Some(card)) => carried(card, false, true),
        (Some(_), Some(_), None) => seq![
            HunkView::Local(HunkKindView::Del(id)),
            HunkView::Cache(HunkKindView::Del(id)),
        ],
        (None, Some(_), Some(_)) => seq![
            HunkView::Remote(HunkKindView::Del(id)),
            HunkView::Cache(HunkKindView::Del(id)),
        ],
        (Some(local), Some(cache), Some(remote)) => {
            let local_changed = local.etag != cache.etag;
            let remote_changed = cache.etag != remote.etag;
            if local_changed && !remote_changed {
                carried(local, true, false)
            } else if !local_changed && remote_changed {
                carried(remote, false, false)
            } else if local_changed && remote_changed {
                if local.date.after(remote.date) {
                    carried(local, true, false)
                } else {
                    carried(remote, false, false)
                }
            } else {
                Seq::empty()
            }
        },
        _ => Seq::empty(),
    }
}

/// The hunks for the ids of a sequence, one id after the other.
pub open spec fn hunks_in_order(
    order: Seq<Seq<char>>,
    local: Map<Seq<char>, CardView>,
    cache: Map<Seq<char>, CardView>,
    remote: Map<Seq<char>, CardView>,
) -> Seq<HunkView>
    decreases order.len(),
{
    if order.len() == 0 {
        Seq::empty()
    } else {
        hunks_in_order(order.drop_last(), local, cache, remote) + hunks_for(
            order.last(),
            slot(local, order.last()),
            slot(cache, order.last()),
            slot(remote, order.last()),
        )
    }
}

/// An order of the ids of three stores: every id that a store holds, once.
pub open spec fn orders_ids(
    order: Seq<Seq<char>>,
    local: Map<Seq<char>, CardView>,
    cache: Map<Seq<char>, CardView>,
    remote: Map<Seq<char>, CardView>,
) -> bool {
    &&& order.no_duplicates()
    &&& forall|id: Seq<char>|
        order.contains(id) <==> local.contains_key(id) || cache.contains_key(id)
            || remote.contains_key(id)
}

/// The texts of a sequence of strings.
pub open spec fn texts(strings: Seq<String>) -> Seq<Seq<char>> {
    Seq::new(strings.len(), |i: int| strings[i]@)
}

fn carry(patch: &mut Vec<Hunk>, card: &Card, to_remote: bool, is_new: bool)
    ensures
        hunk_views(final(patch)@) == hunk_views(old(patch)@) + carried(card@, to_remote, is_new),
{
    let first = if is_new {
        HunkKind::Add(card.clone())
    } else {
        HunkKind::Update(card.clone())
    };
    let second = if is_new {
        HunkKind::Add(card.clone())
    } else {
        HunkKind::Update(card.clone())
    };
    if to_remote {
        patch.push(Hunk::Remote(first));
    } else {
        patch.push(Hunk::Local(first));
    }
    patch.push(Hunk::Cache(second));
    proof {
        assert(hunk_views(patch@) =~= hunk_views(old(patch)@) + carried(
            card@,
            to_remote,
            is_new,
        ));
    }
}

fn push_hunks(
    patch: &mut Vec<Hunk>,
    id: &String,
    local: Option<&Card>,
    cache: Option<&Card>,
    remote: Option<&Card>,
)
    ensures
        hunk_views(final(patch)@) == hunk_views(old(patch)@) + hunks_for(
            id@,
            crate::sync::card_view(local),
            crate::sync::card_view(cache),
            crate::sync::card_view(remote),
        ),
{
    match (local, cache, remote) {
        (Some(card), None, None) => carry(patch, card, true, true),
        (None, Some(_), None) => {
            patch.push(Hunk::Cache(HunkKind::Del(id.clone())));
        },
        (None, None, Some(card)) => carry(patch, card, false, true),
        (Some(_), Some(_), None) => {
            patch.push(Hunk::Local(HunkKind::Del(id.clone())));
            patch.push(Hunk::Cache(HunkKind::Del(id.clone())));
        },
        (None, Some(_), Some(_)) => {
            patch.push(Hunk::Remote(HunkKind::Del(id.clone())));
            patch.push(Hunk::Cache(HunkKind::Del(id.clone())));
        },
        (Some(local), Some(cache), Some(remote)) => {
            let local_changed = local.etag != cache.etag;
            let remote_changed = cache.etag != remote.etag;
            if local_changed && !remote_changed {
                carry(patch, local, true, false);
            } else if !local_changed && remote_changed {
                carry(patch, remote, false, false);
            } else if local_changed && remote_changed {
                if local.date.is_after(&remote.date) {
                    carry(patch, local, true, false);
                } else {
                    carry(patch, remote, false, false);
                }
            }
        },
        _ => {},
    }
    proof {
        assert(hunk_views(patch@) =~= hunk_views(old(patch)@) + hunks_for(
            id@,
            crate::sync::card_view(local),
            crate::sync::card_view(cache),
            crate::sync::card_view(remote),
        ));
    }
}

proof fn lemma_push_fresh<A>(items: Seq<A>, item: A)
    requires
        items.no_duplicates(),
        !items.contains(item),
    ensures
        items.push(item).no_duplicates(),
        forall|other: A|
            items.push(item).contains(other) <==> items.contains(other) || other == item,
{
    let pushed = items.push(item);
    assert forall|other: A| pushed.contains(other) <==> items.contains(other) || other
        == item by {
        if pushed.contains(other) {
            let m = choose|m: int| 0 <= m < pushed.len() && pushed[m] == other;
            if m < items.len() {
                assert(items[m] == other);
            }
        }
        if items.contains(other) {
            let m = choose|m: int| 0 <= m < items.len() && items[m] == other;
            assert(pushed[m] == other);
        }
        if other == item {
            assert(pushed[items.len() as int] == other);
        }
    }
}

fn holds_text(ids: &Vec<String>, id: &String) -> (held: bool)
    ensures
        held == texts(ids@).contains(id@),
{
    let mut i: usize = 0;
    while i < ids.len()
        invariant
            i <= ids@.len(),
            forall|k: int| 0 <= k < i ==> texts(ids@)[k] != id@,
        decreases ids@.len() - i,
    {
        if ids[i] == *id {
            proof {
                assert(texts(ids@)[i as int] == id@);
            }
            return true;
        }
        i = i + 1;
    }
    false
}

/// Adds the ids of the cards that are not yet among the ids.
fn add_missing(ids: &mut Vec<String>, cards: &Vec<Card>)
    requires
        texts(old(ids)@).no_duplicates(),
    ensures
        texts(final(ids)@).no_duplicates(),
        forall|id: Seq<char>|
            texts(final(ids)@).contains(id) <==> texts(old(ids)@).contains(id) || exists|k: int|
                0 <= k < cards@.len() && (#[trigger] cards@[k]).id@ == id,
{
    let mut j: usize = 0;
    while j < cards.len()
        invariant
            j <= cards@.len(),
            texts(ids@).no_duplicates(),
            forall|id: Seq<char>|
                texts(ids@).contains(id) <==> texts(old(ids)@).contains(id) || exists|k: int|
                    0 <= k < j && (#[trigger] cards@[k]).id@ == id,
        decreases cards@.len() - j,
    {
        let id = &cards[j].id;
        let ghost before = texts(ids@);
        if !holds_text(ids, id) {
            proof {
                lemma_push_fresh(before, id@);
            }
            ids.push(id.clone());
            proof {
                assert(texts(ids@) =~= before.push(id@));
            }
        }
        proof {
            let after = texts(ids@);
            assert(forall|other: Seq<char>|
                after.contains(other) <==> before.contains(other) || other == id@);
            assert forall|other: Seq<char>|
                after.contains(other) <==> texts(old(ids)@).contains(other) || exists|k: int|
                    0 <= k < j + 1 && (#[trigger] cards@[k]).id@ == other by {
                if other == id@ {
                    assert(cards@[j as int].id@ == other);
                }
                if exists|k: int| 0 <= k < j + 1 && (#[trigger] cards@[k]).id@ == other {
                    let k = choose|k: int| 0 <= k < j + 1 && (#[trigger] cards@[k]).id@ == other;
                    if k < j {
                        assert(before.contains(other));
                    }
                }
            }
        }
        j = j + 1;
    }
}

proof fn lemma_card_ids(cards: Seq<Card>, id: Seq<char>)
    ensures
        keyed(card_entries(cards)).contains_key(id) <==> exists|k: int|
            0 <= k < cards.len() && (#[trigger] cards[k]).id@ == id,
{
    if keyed(card_entries(cards)).contains_key(id) {
        let k = lemma_keyed_witness(card_entries(cards), id);
        assert(cards[k].id@ == id);
    }
    if exists|k: int| 0 <= k < cards.len() && (#[trigger] cards[k]).id@ == id {
        let k = choose|k: int| 0 <= k < cards.len() && (#[trigger] cards[k]).id@ == id;
        assert(card_entries(cards)[k].0 == id);
    }
}

/// The ids of three stores: every id that one of them holds, once.
pub fn all_ids(local: &CardsMap, cache: &CardsMap, remote: &CardsMap) -> (ids: Vec<String>)
    requires
        local.wf(),
        cache.wf(),
        remote.wf(),
    ensures
        orders_ids(texts(ids@), local@, cache@, remote@),
{
    let mut ids: Vec<String> = Vec::new();
    let local_cards = local.cards();
    let cache_cards = cache.cards();
    let remote_cards = remote.cards();
    add_missing(&mut ids, local_cards);
    add_missing(&mut ids, cache_cards);
    add_missing(&mut ids, remote_cards);
    proof {
        assert forall|id: Seq<char>|
            texts(ids@).contains(id) <==> local@.contains_key(id) || cache@.contains_key(id)
                || remote@.contains_key(id) by {
            lemma_card_ids(local_cards@, id);
            lemma_card_ids(cache_cards@, id);
            lemma_card_ids(remote_cards@, id);
        }
    }
    ids
}

/// The patch between the local directory, the snapshot and the server: the
/// hunks for each id that one of the three holds, id after id. The order of
/// the ids is not fixed.
pub fn build_patch(local: CardsMap, cache: CardsMap, remote: CardsMap) -> (patch: Patch)
    requires
        local.wf(),
        cache.wf(),
        remote.wf(),
    ensures
        exists|order: Seq<Seq<char>>|
            orders_ids(order, local@, cache@, remote@) && hunk_views(patch@) == #[trigger]
            hunks_in_order(order, local@, cache@, remote@),
{
    let ids = all_ids(&local, &cache, &remote);
    let mut patch: Vec<Hunk> = Vec::new();
    let mut i: usize = 0;
    proof {
        assert(hunk_views(patch@) =~= hunks_in_order(
            texts(ids@).take(0),
            local@,
            cache@,
            remote@,
        ));
    }
    while i < ids.len()
        invariant
            i <= ids@.len(),
            local.wf(),
            cache.wf(),
            remote.wf(),
            hunk_views(patch@) == hunks_in_order(
                texts(ids@).take(i as int),
                local@,
                cache@,
                remote@,
            ),
        decreases ids@.len() - i,
    {
        let id = &ids[i];
        proof {
            assert(texts(ids@).take(i + 1).drop_last() =~= texts(ids@).take(i as int));
            assert(texts(ids@).take(i + 1).last() == id@);
        }
        push_hunks(
            &mut patch,
            id,
            local.get(id.as_str()),
            cache.get(id.as_str()),
            remote.get(id.as_str()),
        );
        i = i + 1;
    }
    proof {
        assert(texts(ids@).take(ids@.len() as int) =~= texts(ids@));
    }
    patch
}

/// The cards of the card files among the entries of a directory: for each
/// file with the extension `vcf` a card with the stem of the file's name as
/// its id, the time of the file's modification as its date, and no etag or
/// content. A card file whose time of modification could not be read fails
/// the whole.
pub fn build_local_cards(entries: &Vec<DirEntry>) -> (cards: Result<CardsMap, CardamomError>)
    ensures
        match first_where(entries@, is_unreadable()) {
            Some(i) => cards is Err && reports_entry(cards.unwrap_err(), entries@[i]),
            None => cards is Ok && cards.unwrap().wf() && cards.unwrap()@ == local_cards(
                entries@,
            ),
        },
{
    let mut cards = CardsMap::new();
    let mut i: usize = 0;
    while i < entries.len()
        invariant
            i <= entries@.len(),
            cards.wf(),
            cards@ == local_cards(entries@.take(i as int)),
            forall|k: int| 0 <= k < i ==> !is_unreadable()(#[trigger] entries@[k]),
        decreases entries@.len() - i,
    {
        proof {
            assert(entries@.take(i + 1).drop_last() =~= entries@.take(i as int));
        }
        let entry = &entries[i];
        if is_card_file(entry.path.as_str()) {
            match &entry.modified {
                Modified::At(date) => {
                    let id = file_stem(entry.path.as_str());
                    cards.insert(Card::new(id.unwrap(), *date));
                },
                Modified::MetadataFailed(reason) => {
                    proof {
                        lemma_first_where_is(entries@, is_unreadable(), i as int);
                    }
                    return Err(
                        CardamomError::GetVcfMetadataError(entry.path.clone(), reason.clone()),
                    );
                },
                Modified::ModifiedFailed(reason) => {
                    proof {
                        lemma_first_where_is(entries@, is_unreadable(), i as int);
                    }
                    return Err(
                        CardamomError::GetVcfModifiedError(entry.path.clone(), reason.clone()),
                    );
                },
            }
        }
        i = i + 1;
    }
    proof {
        lemma_first_where_none(entries@, is_unreadable());
        assert(entries@.take(i as int) =~= entries@);
    }
    Ok(cards)
}

} // verus!
