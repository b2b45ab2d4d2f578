//! The card model: a record, the instant it was last modified, and a map of
//! records keyed by their id.

use crate::assoc::{
    distinct_keys, holds_key, keyed, lemma_keyed_empty, lemma_keyed_len, lemma_keyed_lookup,
    lemma_keyed_push, lemma_keyed_remove, lemma_keyed_update, lemma_keyed_witness,
};
use vstd::prelude::*;

verus! {

/// An instant on the UTC time line: whole seconds since the Unix epoch and the
/// nanoseconds within that second. Two dates are equal when both fields are,
/// and they are ordered by `secs`, then by `nanos`.
#[derive(Debug, Clone, Copy, PartialEq, Eq, Structural, PartialOrd, Ord, Hash)]
pub struct Date {
    pub secs: i64,
    pub nanos: u32,
}

impl Date {
    /// `self` is no earlier than `other`.
    pub open spec fn at_least(self, other: Date) -> bool {
        self.secs > other.secs || (self.secs == other.secs && self.nanos >= other.nanos)
    }

    /// `self` is strictly later than `other`.
    pub open spec fn after(self, other: Date) -> bool {
        self.secs > other.secs || (self.secs == other.secs && self.nanos > other.nanos)
    }

    /// The date at `secs` seconds and `nanos` nanoseconds after the epoch.
    pub fn new(secs: i64, nanos: u32) -> (date: Date)
        ensures
            date == (Date { secs, nanos }),
    {
        Date { secs, nanos }
    }

    /// Whether `self` is no earlier than `other`.
    pub fn is_at_least(&self, other: &Date) -> (b: bool)
        ensures
            b == self.at_least(*other),
    {
        self.secs > other.secs || (self.secs == other.secs && self.nanos >= other.nanos)
    }

    /// Whether `self` is strictly later than `other`.
    pub fn is_after(&self, other: &Date) -> (b: bool)
        ensures
            b == self.after(*other),
    {
        self.secs > other.secs || (self.secs == other.secs && self.nanos > other.nanos)
    }
}

/// The order on dates is total: of two dates, one is at least the other, and
/// `after` is the strict part of `at_least`.
pub proof fn lemma_date_order(a: Date, b: Date, c: Date)
    ensures
        a.at_least(a),
        a.at_least(b) || b.at_least(a),
        a.at_least(b) && b.at_least(a) ==> a == b,
        a.at_least(b) && b.at_least(c) ==> a.at_least(c),
        a.after(b) <==> !b.at_least(a),
{
}

/// An address-book record.
#[derive(Debug, PartialEq, Eq, Hash)]
pub struct Card {
    /// The stable identifier: the stem of the file name or of the URL.
    pub id: String,
    /// The version token issued by the server; empty if the card was never pushed.
    pub etag: String,
    /// When the card was last modified.
    pub date: Date,
    /// The vCard text; empty when only the metadata is known.
    pub content: String,
}

/// What a card is, as mathematical values.
pub struct CardView {
    pub id: Seq<char>,
    pub etag: Seq<char>,
    pub date: Date,
    pub content: Seq<char>,
}

impl View for Card {
    type V = CardView;

    open spec fn view(&self) -> CardView {
        CardView { id: self.id@, etag: self.etag@, date: self.date, content: self.content@ }
    }
}

impl Clone for Card {
    fn clone(&self) -> (card: Card)
        ensures
            card == *self,
    {
        Card {
            id: self.id.clone(),
            etag: self.etag.clone(),
            date: self.date,
            content: self.content.clone(),
        }
    }
}

/// Whether two strings hold the same characters.
pub fn same_text(a: &str, b: &str) -> (same: bool)
    ensures
        same == (a@ == b@),
{
    let a_owned: String = a.to_owned();
    let b_owned: String = b.to_owned();
    a_owned == b_owned
}

impl Card {
    /// A card that holds only metadata: no etag and no content.
    pub fn new(id: String, date: Date) -> (card: Card)
        ensures
            card@ == (CardView { id: id@, etag: Seq::empty(), date, content: Seq::empty() }),
    {
        Card { id, etag: String::new(), date, content: String::new() }
    }

    /// Structural equality on `(id, etag, date, content)`.
    pub fn same_as(&self, other: &Card) -> (same: bool)
        ensures
            same == (self@ == other@),
    {
        self.id == other.id && self.etag == other.etag && self.date == other.date && self.content
            == other.content
    }
}

/// The cards of a sequence as entries: each card beside its id.
pub open spec fn card_entries(cards: Seq<Card>) -> Seq<(Seq<char>, CardView)> {
    Seq::new(cards.len(), |i: int| (cards[i].id@, cards[i]@))
}

/// Every card of the map is stored under its own id.
pub open spec fn keyed_by_id(cards: Map<Seq<char>, CardView>) -> bool {
    forall|id: Seq<char>| #[trigger] cards.contains_key(id) ==> cards[id].id == id
}

/// The map of a sequence of cards stores every card under its own id.
pub proof fn lemma_cards_keyed_by_id(cards: Seq<Card>)
    ensures
        keyed_by_id(keyed(card_entries(cards))),
{
    let entries = card_entries(cards);
    assert forall|id: Seq<char>| #[trigger] keyed(entries).contains_key(id) implies keyed(
        entries,
    )[id].id == id by {
        let i = lemma_keyed_witness(entries, id);
    }
}

/// A map from id to card. Every card is stored under its own id, so an id
/// occurs at most once.
#[derive(Debug)]
pub struct CardsMap {
    cards: Vec<Card>,
}

impl View for CardsMap {
    type V = Map<Seq<char>, CardView>;

    closed spec fn view(&self) -> Map<Seq<char>, CardView> {
        keyed(card_entries(self.cards@))
    }
}

impl CardsMap {
    /// No id is stored twice. Every constructor establishes this and every
    /// method keeps it.
    pub closed spec fn wf(&self) -> bool {
        distinct_keys(card_entries(self.cards@))
    }

    /// The view of a map of cards is finite and keyed by the cards' ids.
    pub proof fn lemma_view(&self)
        requires
            self.wf(),
        ensures
            keyed_by_id(self@),
            self@.dom().finite(),
    {
        lemma_cards_keyed_by_id(self.cards@);
        lemma_keyed_len(card_entries(self.cards@));
    }

    /// The map without cards.
    pub fn new() -> (map: CardsMap)
        ensures
            map.wf(),
            map@ == Map::<Seq<char>, CardView>::empty(),
    {
        let map = CardsMap { cards: Vec::new() };
        proof {
            lemma_keyed_empty(card_entries(map.cards@));
        }
        map
    }

    fn find(&self, id: &str) -> (found: Option<usize>)
        ensures
            match found {
                Some(i) => i < self.cards@.len() && self.cards@[i as int].id@ == id@,
                None => !holds_key(card_entries(self.cards@), id@),
            },
    {
        let key: String = id.to_owned();
        let mut i: usize = 0;
        while i < self.cards.len()
            invariant
                i <= self.cards@.len(),
                key@ == id@,
                forall|k: int| 0 <= k < i ==> self.cards@[k].id@ != id@,
            decreases self.cards@.len() - i,
        {
            if self.cards[i].id == key {
                return Some(i);
            }
            i = i + 1;
        }
        None
    }

    /// The number of cards.
    pub fn len(&self) -> (n: usize)
        requires
            self.wf(),
        ensures
            self@.dom().finite(),
            n == self@.dom().len(),
    {
        proof {
            lemma_keyed_len(card_entries(self.cards@));
        }
        self.cards.len()
    }

    /// Whether the map holds no card.
    pub fn is_empty(&self) -> (empty: bool)
        requires
            self.wf(),
        ensures
            empty == (self@ == Map::<Seq<char>, CardView>::empty()),
    {
        proof {
            if self.cards@.len() == 0 {
                lemma_keyed_empty(card_entries(self.cards@));
            } else {
                lemma_keyed_lookup(card_entries(self.cards@), 0);
            }
        }
        self.cards.len() == 0
    }

    /// Whether a card is stored under `id`.
    pub fn contains_key(&self, id: &str) -> (present: bool)
        ensures
            present == self@.contains_key(id@),
    {
        let found = self.find(id);
        proof {
            if let Some(i) = found {
                assert(card_entries(self.cards@)[i as int].0 == id@);
            }
        }
        found.is_some()
    }

    /// The card stored under `id`, if there is one.
    pub fn get(&self, id: &str) -> (card: Option<&Card>)
        requires
            self.wf(),
        ensures
            card is Some <==> self@.contains_key(id@),
            card is Some ==> card.unwrap()@ == self@[id@],
    {
        match self.find(id) {
            Some(i) => {
                proof {
                    lemma_keyed_lookup(card_entries(self.cards@), i as int);
                }
                Some(&self.cards[i])
            },
            None => None,
        }
    }

    /// Stores `card` under its id, in place of the card that was there.
    pub fn insert(&mut self, card: Card)
        requires
            old(self).wf(),
        ensures
            final(self).wf(),
            final(self)@ == old(self)@.insert(card.id@, card@),
    {
        match self.find(card.id.as_str()) {
            Some(i) => {
                proof {
                    lemma_keyed_update(card_entries(self.cards@), i as int, card.id@, card@);
                    assert(card_entries(self.cards@.update(i as int, card)) =~= card_entries(
                        self.cards@,
                    ).update(i as int, (card.id@, card@)));
                }
                self.cards.set(i, card);
            },
            None => {
                proof {
                    lemma_keyed_push(card_entries(self.cards@), card.id@, card@);
                    assert(card_entries(self.cards@.push(card)) =~= card_entries(
                        self.cards@,
                    ).push((card.id@, card@)));
                }
                self.cards.push(card);
            },
        }
    }

    /// Removes the card stored under `id`, and returns it.
    pub fn remove(&mut self, id: &str) -> (card: Option<Card>)
        requires
            old(self).wf(),
        ensures
            final(self).wf(),
            final(self)@ == old(self)@.remove(id@),
            card is Some <==> old(self)@.contains_key(id@),
            card is Some ==> card.unwrap()@ == old(self)@[id@],
    {
        match self.find(id) {
            Some(i) => {
                proof {
                    lemma_keyed_remove(card_entries(self.cards@), i as int);
                    lemma_keyed_lookup(card_entries(self.cards@), i as int);
                    assert(card_entries(self.cards@.remove(i as int)) =~= card_entries(
                        self.cards@,
                    ).remove(i as int));
                }
                Some(self.cards.remove(i))
            },
            None => {
                assert(old(self)@.remove(id@) =~= old(self)@);
                None
            },
        }
    }

    /// The cards of the map, each once, in no particular order.
    pub fn cards(&self) -> (cards: &Vec<Card>)
        requires
            self.wf(),
        ensures
            distinct_keys(card_entries(cards@)),
            self@ == keyed(card_entries(cards@)),
    {
        &self.cards
    }

    /// The map of these cards. Where two of them share an id, the later one stays.
    pub fn from_cards(cards: Vec<Card>) -> (map: CardsMap)
        ensures
            map.wf(),
            map@ == collected(cards@),
    {
        let mut map = CardsMap::new();
        let mut i: usize = 0;
        while i < cards.len()
            invariant
                i <= cards@.len(),
                map.wf(),
                map@ == collected(cards@.take(i as int)),
            decreases cards@.len() - i,
        {
            let card = cards[i].clone();
            proof {
                assert(cards@.take(i + 1).drop_last() =~= cards@.take(i as int));
            }
            map.insert(card);
            i = i + 1;
        }
        proof {
            assert(cards@.take(cards@.len() as int) =~= cards@);
        }
        map
    }
}

/// The map that results from inserting the cards one after the other.
pub open spec fn collected(cards: Seq<Card>) -> Map<Seq<char>, CardView>
    decreases cards.len(),
{
    if cards.len() == 0 {
        Map::empty()
    } else {
        collected(cards.drop_last()).insert(cards.last().id@, cards.last()@)
    }
}

impl Default for CardsMap {
    fn default() -> (map: CardsMap)
        ensures
            map.wf(),
            map@ == Map::<Seq<char>, CardView>::empty(),
    {
        CardsMap::new()
    }
}

impl Clone for CardsMap {
    fn clone(&self) -> (map: CardsMap)
        ensures
            map@ == self@,
            self.wf() ==> map.wf(),
    {
        let mut cards: Vec<Card> = Vec::new();
        let mut i: usize = 0;
        while i < self.cards.len()
            invariant
                i <= self.cards@.len(),
                cards@ == self.cards@.take(i as int),
            decreases self.cards@.len() - i,
        {
            cards.push(self.cards[i].clone());
            proof {
                assert(cards@ =~= self.cards@.take(i + 1));
            }
            i = i + 1;
        }
        proof {
            assert(cards@ =~= self.cards@);
        }
        CardsMap { cards }
    }
}

/// A side of a synchronization: the cards it held when the last run ended,
/// and the cards it holds now.
pub trait Cards {
    /// What `prev` returns, as a map.
    open spec fn prev_cards(&self) -> Map<Seq<char>, CardView> {
        Map::empty()
    }

    /// What `next` returns, as a map.
    open spec fn next_cards(&self) -> Map<Seq<char>, CardView> {
        Map::empty()
    }

    fn prev(&self) -> (cards: &CardsMap)
        ensures
            cards.wf(),
            cards@ == self.prev_cards(),
    ;

    fn next(&self) -> (cards: &CardsMap)
        ensures
            cards.wf(),
            cards@ == self.next_cards(),
    ;
}

} // verus!
