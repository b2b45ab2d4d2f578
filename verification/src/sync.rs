//! The patch engine: from the previous and the current snapshot of two sides
//! to the set of mutations that brings all four in line.

use crate::assoc::{
    distinct_keys, holds_key, keyed, lemma_keyed_empty, lemma_keyed_len, lemma_keyed_lookup,
    lemma_keyed_push, lemma_keyed_update,
};
use crate::card::{card_entries, Card, CardView, Cards, CardsMap};
use vstd::prelude::*;

verus! {

/// One of the four snapshots that a hunk can be aimed at.
#[derive(Debug, Clone, Copy, PartialEq, Eq, Structural, Hash)]
pub enum Target {
    PrevLeft,
    NextLeft,
    PrevRight,
    NextRight,
}

/// Where a hunk goes: a snapshot, and the id of the card in it.
#[derive(Debug, PartialEq, Eq, Hash)]
pub enum HunkKind {
    PrevLeft(String),
    NextLeft(String),
    PrevRight(String),
    NextRight(String),
}

impl View for HunkKind {
    type V = (Target, Seq<char>);

    open spec fn view(&self) -> (Target, Seq<char>) {
        match self {
            HunkKind::PrevLeft(id) => (Target::PrevLeft, id@),
            HunkKind::NextLeft(id) => (Target::NextLeft, id@),
            HunkKind::PrevRight(id) => (Target::PrevRight, id@),
            HunkKind::NextRight(id) => (Target::NextRight, id@),
        }
    }
}

impl Clone for HunkKind {
    fn clone(&self) -> (kind: HunkKind)
        ensures
            kind == *self,
    {
        match self {
            HunkKind::PrevLeft(id) => HunkKind::PrevLeft(id.clone()),
            HunkKind::NextLeft(id) => HunkKind::NextLeft(id.clone()),
            HunkKind::PrevRight(id) => HunkKind::PrevRight(id.clone()),
            HunkKind::NextRight(id) => HunkKind::NextRight(id.clone()),
        }
    }
}

impl HunkKind {
    /// The kind that aims at `target` for the card `id`.
    pub fn at(target: Target, id: String) -> (kind: HunkKind)
        ensures
            kind@ == (target, id@),
    {
        match target {
            Target::PrevLeft => HunkKind::PrevLeft(id),
            Target::NextLeft => HunkKind::NextLeft(id),
            Target::PrevRight => HunkKind::PrevRight(id),
            Target::NextRight => HunkKind::NextRight(id),
        }
    }

    /// The snapshot that the hunk is aimed at.
    pub fn target(&self) -> (target: Target)
        ensures
            target == self@.0,
    {
        match self {
            HunkKind::PrevLeft(_) => Target::PrevLeft,
            HunkKind::NextLeft(_) => Target::NextLeft,
            HunkKind::PrevRight(_) => Target::PrevRight,
            HunkKind::NextRight(_) => Target::NextRight,
        }
    }

    /// The id of the card that the hunk concerns.
    pub fn id(&self) -> (id: &String)
        ensures
            id@ == self@.1,
    {
        match self {
            HunkKind::PrevLeft(id) => id,
            HunkKind::NextLeft(id) => id,
            HunkKind::PrevRight(id) => id,
            HunkKind::NextRight(id) => id,
        }
    }

    /// Same snapshot and same id.
    pub fn same_as(&self, other: &HunkKind) -> (same: bool)
        ensures
            same == (self@ == other@),
    {
        self.target() == other.target() && *self.id() == *other.id()
    }
}

/// One mutation of one snapshot.
#[derive(Debug, PartialEq, Eq)]
pub enum Hunk {
    Add(Card),
    Update(Card),
    Del(Card),
}

/// What a hunk is, as mathematical values.
pub enum HunkView {
    Add(CardView),
    Update(CardView),
    Del(CardView),
}

impl HunkView {
    /// The card that the hunk carries.
    pub open spec fn card(self) -> CardView {
        match self {
            HunkView::Add(card) => card,
            HunkView::Update(card) => card,
            HunkView::Del(card) => card,
        }
    }
}

impl View for Hunk {
    type V = HunkView;

    open spec fn view(&self) -> HunkView {
        match self {
            Hunk::Add(card) => HunkView::Add(card@),
            Hunk::Update(card) => HunkView::Update(card@),
            Hunk::Del(card) => HunkView::Del(card@),
        }
    }
}

impl Clone for Hunk {
    fn clone(&self) -> (hunk: Hunk)
        ensures
            hunk == *self,
    {
        match self {
            Hunk::Add(card) => Hunk::Add(card.clone()),
            Hunk::Update(card) => Hunk::Update(card.clone()),
            Hunk::Del(card) => Hunk::Del(card.clone()),
        }
    }
}

impl Hunk {
    /// The card that the hunk carries.
    pub fn card(&self) -> (card: &Card)
        ensures
            card@ == self@.card(),
    {
        match self {
            Hunk::Add(card) => card,
            Hunk::Update(card) => card,
            Hunk::Del(card) => card,
        }
    }
}

/// What is decided for one id: at most one hunk for each snapshot.
#[derive(Debug, PartialEq, Eq)]
pub struct Plan {
    pub prev_left: Option<Hunk>,
    pub next_left: Option<Hunk>,
    pub prev_right: Option<Hunk>,
    pub next_right: Option<Hunk>,
}

/// What is decided for one id, as mathematical values.
pub struct PlanView {
    pub prev_left: Option<HunkView>,
    pub next_left: Option<HunkView>,
    pub prev_right: Option<HunkView>,
    pub next_right: Option<HunkView>,
}

impl PlanView {
    /// The hunk that the plan holds for a snapshot.
    pub open spec fn at(self, target: Target) -> Option<HunkView> {
        match target {
            Target::PrevLeft => self.prev_left,
            Target::NextLeft => self.next_left,
            Target::PrevRight => self.prev_right,
            Target::NextRight => self.next_right,
        }
    }
}

/// What a hunk that may be missing is, as mathematical values.
pub open spec fn hunk_view(hunk: Option<Hunk>) -> Option<HunkView> {
    match hunk {
        Some(hunk) => Some(hunk@),
        None => None,
    }
}

impl View for Plan {
    type V = PlanView;

    open spec fn view(&self) -> PlanView {
        PlanView {
            prev_left: hunk_view(self.prev_left),
            next_left: hunk_view(self.next_left),
            prev_right: hunk_view(self.prev_right),
            next_right: hunk_view(self.next_right),
        }
    }
}

/// The newest of the four copies of a card. Of copies with the same date the
/// right side's wins, then the current snapshot's.
pub open spec fn newest_of_four(lp: CardView, ln: CardView, rp: CardView, rn: CardView) -> CardView {
    if rn.date.at_least(rp.date) && rn.date.at_least(ln.date) && rn.date.at_least(lp.date) {
        rn
    } else if rp.date.at_least(ln.date) && rp.date.at_least(lp.date) {
        rp
    } else if ln.date.at_least(lp.date) {
        ln
    } else {
        lp
    }
}

/// `Update(newest)` for a snapshot whose copy is not the newest, nothing otherwise.
pub open spec fn update_unless_same(stored: CardView, newest: CardView) -> Option<HunkView> {
    if stored == newest {
        None
    } else {
        Some(HunkView::Update(newest))
    }
}

/// The presence matrix. For one id, `lp`, `ln`, `rp` and `rn` are what the
/// left side held before and holds now, and what the right side held before
/// and holds now; the result is the hunk decided for each snapshot.
pub open spec fn plan_of(
    lp: Option<CardView>,
    ln: Option<CardView>,
    rp: Option<CardView>,
    rn: Option<CardView>,
) -> PlanView {
    match (lp, ln, rp, rn) {
        // The id is nowhere.
        (None, None, None, None) => PlanView {
            prev_left: None,
            next_left: None,
            prev_right: None,
            next_right: None,
        },
        // Added on the right.
        (None, None, None, Some(card)) => PlanView {
            prev_left: Some(HunkView::Add(card)),
            next_left: Some(HunkView::Add(card)),
            prev_right: Some(HunkView::Add(card)),
            next_right: None,
        },
        // A stale previous snapshot on the right.
        (None, None, Some(card), None) => PlanView {
            prev_left: None,
            next_left: None,
            prev_right: Some(HunkView::Del(card)),
            next_right: None,
        },
        // Only the right side knows the card: the left side lost a run.
        (None, None, Some(prev), Some(next)) => if next.date.at_least(prev.date) {
            PlanView {
                prev_left: Some(HunkView::Add(next)),
                next_left: Some(HunkView::Add(next)),
                prev_right: Some(HunkView::Update(next)),
                next_right: None,
            }
        } else {
            PlanView {
                prev_left: Some(HunkView::Add(prev)),
                next_left: Some(HunkView::Add(prev)),
                prev_right: None,
                next_right: Some(HunkView::Update(prev)),
            }
        },
        // Added on the left.
        (None, Some(card), None, None) => PlanView {
            prev_left: Some(HunkView::Add(card)),
            next_left: None,
            prev_right: Some(HunkView::Add(card)),
            next_right: Some(HunkView::Add(card)),
        },
        // Added on both sides at once.
        (None, Some(left), None, Some(right)) => if right.date.at_least(left.date) {
            PlanView {
                prev_left: Some(HunkView::Add(right)),
                next_left: Some(HunkView::Update(right)),
                prev_right: Some(HunkView::Add(right)),
                next_right: None,
            }
        } else {
            PlanView {
                prev_left: Some(HunkView::Add(left)),
                next_left: None,
                prev_right: Some(HunkView::Add(left)),
                next_right: Some(HunkView::Update(left)),
            }
        },
        // Added on the left, deleted on the right.
        (None, Some(left), Some(right), None) => if right.date.at_least(left.date) {
            PlanView {
                prev_left: None,
                next_left: Some(HunkView::Del(left)),
                prev_right: Some(HunkView::Del(right)),
                next_right: None,
            }
        } else {
            PlanView {
                prev_left: Some(HunkView::Add(left)),
                next_left: None,
                prev_right: Some(HunkView::Update(left)),
                next_right: Some(HunkView::Add(left)),
            }
        },
        // Added on the left, possibly modified on the right.
        (None, Some(left), Some(prev), Some(next)) => if next.date.at_least(left.date) {
            if next.date.at_least(prev.date) {
                PlanView {
                    prev_left: Some(HunkView::Add(next)),
                    next_left: Some(HunkView::Update(next)),
                    prev_right: update_unless_same(prev, next),
                    next_right: None,
                }
            } else {
                PlanView {
                    prev_left: Some(HunkView::Add(prev)),
                    next_left: Some(HunkView::Update(prev)),
                    prev_right: None,
                    next_right: Some(HunkView::Update(prev)),
                }
            }
        } else {
            PlanView {
                prev_left: Some(HunkView::Add(left)),
                next_left: None,
                prev_right: Some(HunkView::Update(left)),
                next_right: Some(HunkView::Update(left)),
            }
        },
        // A stale previous snapshot on the left.
        (Some(card), None, None, None) => PlanView {
            prev_left: Some(HunkView::Del(card)),
            next_left: None,
            prev_right: None,
            next_right: None,
        },
        // Deleted on the left, added on the right.
        (Some(left), None, None, Some(right)) => if right.date.at_least(left.date) {
            PlanView {
                prev_left: Some(HunkView::Update(right)),
                next_left: Some(HunkView::Add(right)),
                prev_right: Some(HunkView::Add(right)),
                next_right: None,
            }
        } else {
            PlanView {
                prev_left: Some(HunkView::Del(left)),
                next_left: None,
                prev_right: None,
                next_right: Some(HunkView::Del(right)),
            }
        },
        // Stale previous snapshots on both sides.
        (Some(left), None, Some(right), None) => PlanView {
            prev_left: Some(HunkView::Del(left)),
            next_left: None,
            prev_right: Some(HunkView::Del(right)),
            next_right: None,
        },
        // Deleted on the left, possibly modified on the right: deleted everywhere.
        (Some(left), None, Some(prev), Some(next)) => PlanView {
            prev_left: Some(HunkView::Del(left)),
            next_left: None,
            prev_right: Some(HunkView::Del(prev)),
            next_right: Some(HunkView::Del(next)),
        },
        // Only the left side knows the card: the right side lost a run.
        (Some(prev), Some(next), None, None) => if next.date.at_least(prev.date) {
            PlanView {
                prev_left: Some(HunkView::Update(next)),
                next_left: None,
                prev_right: Some(HunkView::Add(next)),
                next_right: Some(HunkView::Add(next)),
            }
        } else {
            PlanView {
                prev_left: None,
                next_left: Some(HunkView::Update(prev)),
                prev_right: Some(HunkView::Add(prev)),
                next_right: Some(HunkView::Add(prev)),
            }
        },
        // Possibly modified on the left, added on the right: the newest of the three wins.
        (Some(prev), Some(next), None, Some(right)) => if right.date.at_least(next.date)
            && right.date.at_least(prev.date) {
            PlanView {
                prev_left: Some(HunkView::Update(right)),
                next_left: Some(HunkView::Update(right)),
                prev_right: Some(HunkView::Add(right)),
                next_right: None,
            }
        } else if next.date.at_least(prev.date) {
            PlanView {
                prev_left: update_unless_same(prev, next),
                next_left: None,
                prev_right: Some(HunkView::Add(next)),
                next_right: Some(HunkView::Update(next)),
            }
        } else {
            PlanView {
                prev_left: None,
                next_left: Some(HunkView::Update(prev)),
                prev_right: Some(HunkView::Add(prev)),
                next_right: Some(HunkView::Update(prev)),
            }
        },
        // Possibly modified on the left, deleted on the right: deleted everywhere.
        (Some(prev), Some(next), Some(right), None) => PlanView {
            prev_left: Some(HunkView::Del(prev)),
            next_left: Some(HunkView::Del(next)),
            prev_right: Some(HunkView::Del(right)),
            next_right: None,
        },
        // The id is everywhere: every copy that is not the newest is replaced by it.
        (Some(lp), Some(ln), Some(rp), Some(rn)) => {
            let newest = newest_of_four(lp, ln, rp, rn);
            PlanView {
                prev_left: update_unless_same(lp, newest),
                next_left: update_unless_same(ln, newest),
                prev_right: update_unless_same(rp, newest),
                next_right: update_unless_same(rn, newest),
            }
        },
    }
}

/// What a card that may be missing is, as mathematical values.
pub open spec fn card_view(card: Option<&Card>) -> Option<CardView> {
    match card {
        Some(card) => Some(card@),
        None => None,
    }
}

fn hunk_add(card: &Card) -> (hunk: Option<Hunk>)
    ensures
        hunk_view(hunk) == Some(HunkView::Add(card@)),
{
    Some(Hunk::Add(card.clone()))
}

fn hunk_update(card: &Card) -> (hunk: Option<Hunk>)
    ensures
        hunk_view(hunk) == Some(HunkView::Update(card@)),
{
    Some(Hunk::Update(card.clone()))
}

fn hunk_del(card: &Card) -> (hunk: Option<Hunk>)
    ensures
        hunk_view(hunk) == Some(HunkView::Del(card@)),
{
    Some(Hunk::Del(card.clone()))
}

fn replace_unless_same(stored: &Card, newest: &Card) -> (hunk: Option<Hunk>)
    ensures
        hunk_view(hunk) == update_unless_same(stored@, newest@),
{
    if stored.same_as(newest) {
        None
    } else {
        hunk_update(newest)
    }
}

/// The newest of the four copies of a card: its date is at least that of
/// every copy.
pub fn newest<'a>(lp: &'a Card, ln: &'a Card, rp: &'a Card, rn: &'a Card) -> (card: &'a Card)
    ensures
        card@ == newest_of_four(lp@, ln@, rp@, rn@),
        card@.date.at_least(lp@.date),
        card@.date.at_least(ln@.date),
        card@.date.at_least(rp@.date),
        card@.date.at_least(rn@.date),
        card@ == lp@ || card@ == ln@ || card@ == rp@ || card@ == rn@,
{
    if rn.date.is_at_least(&rp.date) && rn.date.is_at_least(&ln.date) && rn.date.is_at_least(
        &lp.date,
    ) {
        rn
    } else if rp.date.is_at_least(&ln.date) && rp.date.is_at_least(&lp.date) {
        rp
    } else if ln.date.is_at_least(&lp.date) {
        ln
    } else {
        lp
    }
}

impl Plan {
    /// The plan with no hunk.
    pub fn nothing() -> (plan: Plan)
        ensures
            plan@ == plan_of(None, None, None, None),
    {
        Plan { prev_left: None, next_left: None, prev_right: None, next_right: None }
    }

    /// Decides, for one id, the hunk for each snapshot from what the four
    /// snapshots hold under that id.
    pub fn decide(
        lp: Option<&Card>,
        ln: Option<&Card>,
        rp: Option<&Card>,
        rn: Option<&Card>,
    ) -> (plan: Plan)
        ensures
            plan@ == plan_of(card_view(lp), card_view(ln), card_view(rp), card_view(rn)),
    {
        match (lp, ln, rp, rn) {
            (None, None, None, None) => Plan::nothing(),
            (None, None, None, Some(card)) => Plan {
                prev_left: hunk_add(card),
                next_left: hunk_add(card),
                prev_right: hunk_add(card),
                next_right: None,
            },
            (None, None, Some(card), None) => Plan {
                prev_left: None,
                next_left: None,
                prev_right: hunk_del(card),
                next_right: None,
            },
            (None, None, Some(prev), Some(next)) => if next.date.is_at_least(&prev.date) {
                Plan {
                    prev_left: hunk_add(next),
                    next_left: hunk_add(next),
                    prev_right: hunk_update(next),
                    next_right: None,
                }
            } else {
                Plan {
                    prev_left: hunk_add(prev),
                    next_left: hunk_add(prev),
                    prev_right: None,
                    next_right: hunk_update(prev),
                }
            },
            (None, Some(card), None, None) => Plan {
                prev_left: hunk_add(card),
                next_left: None,
                prev_right: hunk_add(card),
                next_right: hunk_add(card),
            },
            (None, Some(left), None, Some(right)) => if right.date.is_at_least(&left.date) {
                Plan {
                    prev_left: hunk_add(right),
                    next_left: hunk_update(right),
                    prev_right: hunk_add(right),
                    next_right: None,
                }
            } else {
                Plan {
                    prev_left: hunk_add(left),
                    next_left: None,
                    prev_right: hunk_add(left),
                    next_right: hunk_update(left),
                }
            },
            (None, Some(left), Some(right), None) => if right.date.is_at_least(&left.date) {
                Plan {
                    prev_left: None,
                    next_left: hunk_del(left),
                    prev_right: hunk_del(right),
                    next_right: None,
                }
            } else {
                Plan {
                    prev_left: hunk_add(left),
                    next_left: None,
                    prev_right: hunk_update(left),
                    next_right: hunk_add(left),
                }
            },
            (None, Some(left), Some(prev), Some(next)) => if next.date.is_at_least(&left.date) {
                if next.date.is_at_least(&prev.date) {
                    Plan {
                        prev_left: hunk_add(next),
                        next_left: hunk_update(next),
                        prev_right: replace_unless_same(prev, next),
                        next_right: None,
                    }
                } else {
                    Plan {
                        prev_left: hunk_add(prev),
                        next_left: hunk_update(prev),
                        prev_right: None,
                        next_right: hunk_update(prev),
                    }
                }
            } else {
                Plan {
                    prev_left: hunk_add(left),
                    next_left: None,
                    prev_right: hunk_update(left),
                    next_right: hunk_update(left),
                }
            },
            (Some(card), None, None, None) => Plan {
                prev_left: hunk_del(card),
                next_left: None,
                prev_right: None,
                next_right: None,
            },
            (Some(left), None, None, Some(right)) => if right.date.is_at_least(&left.date) {
                Plan {
                    prev_left: hunk_update(right),
                    next_left: hunk_add(right),
                    prev_right: hunk_add(right),
                    next_right: None,
                }
            } else {
                Plan {
                    prev_left: hunk_del(left),
                    next_left: None,
                    prev_right: None,
                    next_right: hunk_del(right),
                }
            },
            (Some(left), None, Some(right), None) => Plan {
                prev_left: hunk_del(left),
                next_left: None,
                prev_right: hunk_del(right),
                next_right: None,
            },
            (Some(left), None, Some(prev), Some(next)) => Plan {
                prev_left: hunk_del(left),
                next_left: None,
                prev_right: hunk_del(prev),
                next_right: hunk_del(next),
            },
            (Some(prev), Some(next), None, None) => if next.date.is_at_least(&prev.date) {
                Plan {
                    prev_left: hunk_update(next),
                    next_left: None,
                    prev_right: hunk_add(next),
                    next_right: hunk_add(next),
                }
            } else {
                Plan {
                    prev_left: None,
                    next_left: hunk_update(prev),
                    prev_right: hunk_add(prev),
                    next_right: hunk_add(prev),
                }
            },
            (Some(prev), Some(next), None, Some(right)) => if right.date.is_at_least(&next.date)
                && right.date.is_at_least(&prev.date) {
                Plan {
                    prev_left: hunk_update(right),
                    next_left: hunk_update(right),
                    prev_right: hunk_add(right),
                    next_right: None,
                }
            } else if next.date.is_at_least(&prev.date) {
                Plan {
                    prev_left: replace_unless_same(prev, next),
                    next_left: None,
                    prev_right: hunk_add(next),
                    next_right: hunk_update(next),
                }
            } else {
                Plan {
                    prev_left: None,
                    next_left: hunk_update(prev),
                    prev_right: hunk_add(prev),
                    next_right: hunk_update(prev),
                }
            },
            (Some(prev), Some(next), Some(right), None) => Plan {
                prev_left: hunk_del(prev),
                next_left: hunk_del(next),
                prev_right: hunk_del(right),
                next_right: None,
            },
            (Some(lp), Some(ln), Some(rp), Some(rn)) => {
                let winner = newest(lp, ln, rp, rn);
                Plan {
                    prev_left: replace_unless_same(lp, winner),
                    next_left: replace_unless_same(ln, winner),
                    prev_right: replace_unless_same(rp, winner),
                    next_right: replace_unless_same(rn, winner),
                }
            },
        }
    }
}

/// What a snapshot holds under an id.
pub open spec fn slot(cards: Map<Seq<char>, CardView>, id: Seq<char>) -> Option<CardView> {
    if cards.contains_key(id) {
        Some(cards[id])
    } else {
        None
    }
}

/// The plan for one id, from the four snapshots.
pub open spec fn plan_for(
    id: Seq<char>,
    lp: Map<Seq<char>, CardView>,
    ln: Map<Seq<char>, CardView>,
    rp: Map<Seq<char>, CardView>,
    rn: Map<Seq<char>, CardView>,
) -> PlanView {
    plan_of(slot(lp, id), slot(ln, id), slot(rp, id), slot(rn, id))
}

/// The patch between two sides: for every id and every snapshot, the hunk
/// that the presence matrix decides, if it decides one.
pub open spec fn patch_of(
    lp: Map<Seq<char>, CardView>,
    ln: Map<Seq<char>, CardView>,
    rp: Map<Seq<char>, CardView>,
    rn: Map<Seq<char>, CardView>,
) -> Map<(Target, Seq<char>), HunkView> {
    Map::new(
        |kind: (Target, Seq<char>)| plan_for(kind.1, lp, ln, rp, rn).at(kind.0) is Some,
        |kind: (Target, Seq<char>)| plan_for(kind.1, lp, ln, rp, rn).at(kind.0).unwrap(),
    )
}

/// The part of the patch that concerns the given ids.
pub open spec fn patch_within(
    ids: Set<Seq<char>>,
    lp: Map<Seq<char>, CardView>,
    ln: Map<Seq<char>, CardView>,
    rp: Map<Seq<char>, CardView>,
    rn: Map<Seq<char>, CardView>,
) -> Map<(Target, Seq<char>), HunkView> {
    Map::new(
        |kind: (Target, Seq<char>)|
            ids.contains(kind.1) && plan_for(kind.1, lp, ln, rp, rn).at(kind.0) is Some,
        |kind: (Target, Seq<char>)| plan_for(kind.1, lp, ln, rp, rn).at(kind.0).unwrap(),
    )
}

/// What `Patch::insert` makes of a patch: a hunk for a free place is taken;
/// for an occupied place the hunk whose card has the later date stays, and
/// the one that was there first if the dates are equal.
pub open spec fn inserted(
    patch: Map<(Target, Seq<char>), HunkView>,
    kind: (Target, Seq<char>),
    hunk: HunkView,
) -> Map<(Target, Seq<char>), HunkView> {
    if patch.contains_key(kind) && !hunk.card().date.after(patch[kind].card().date) {
        patch
    } else {
        patch.insert(kind, hunk)
    }
}

/// `inserted`, for a hunk that may be missing.
pub open spec fn placed(
    patch: Map<(Target, Seq<char>), HunkView>,
    kind: (Target, Seq<char>),
    hunk: Option<HunkView>,
) -> Map<(Target, Seq<char>), HunkView> {
    match hunk {
        Some(hunk) => inserted(patch, kind, hunk),
        None => patch,
    }
}

/// A patch after the hunks of one id's plan were inserted into it.
pub open spec fn absorbed(
    patch: Map<(Target, Seq<char>), HunkView>,
    id: Seq<char>,
    plan: PlanView,
) -> Map<(Target, Seq<char>), HunkView> {
    placed(
        placed(
            placed(
                placed(patch, (Target::PrevLeft, id), plan.prev_left),
                (Target::NextLeft, id),
                plan.next_left,
            ),
            (Target::PrevRight, id),
            plan.prev_right,
        ),
        (Target::NextRight, id),
        plan.next_right,
    )
}

/// The patch that results from visiting the ids in the order given, each
/// time inserting the hunks decided for the id.
pub open spec fn folded(
    ids: Seq<Seq<char>>,
    lp: Map<Seq<char>, CardView>,
    ln: Map<Seq<char>, CardView>,
    rp: Map<Seq<char>, CardView>,
    rn: Map<Seq<char>, CardView>,
) -> Map<(Target, Seq<char>), HunkView>
    decreases ids.len(),
{
    if ids.len() == 0 {
        Map::empty()
    } else {
        absorbed(
            folded(ids.drop_last(), lp, ln, rp, rn),
            ids.last(),
            plan_for(ids.last(), lp, ln, rp, rn),
        )
    }
}

/// Visiting one more id adds that id's part of the patch, whether or not the
/// id was visited before.
pub proof fn lemma_absorbed_within(
    ids: Set<Seq<char>>,
    id: Seq<char>,
    lp: Map<Seq<char>, CardView>,
    ln: Map<Seq<char>, CardView>,
    rp: Map<Seq<char>, CardView>,
    rn: Map<Seq<char>, CardView>,
)
    ensures
        absorbed(patch_within(ids, lp, ln, rp, rn), id, plan_for(id, lp, ln, rp, rn))
            == patch_within(ids.insert(id), lp, ln, rp, rn),
{
    let plan = plan_for(id, lp, ln, rp, rn);
    let start = patch_within(ids, lp, ln, rp, rn);
    let one = placed(start, (Target::PrevLeft, id), plan.prev_left);
    let two = placed(one, (Target::NextLeft, id), plan.next_left);
    let three = placed(two, (Target::PrevRight, id), plan.prev_right);
    let four = placed(three, (Target::NextRight, id), plan.next_right);
    let goal = patch_within(ids.insert(id), lp, ln, rp, rn);
    assert(plan.at(Target::PrevLeft) == plan.prev_left);
    assert(plan.at(Target::NextLeft) == plan.next_left);
    assert(plan.at(Target::PrevRight) == plan.prev_right);
    assert(plan.at(Target::NextRight) == plan.next_right);
    assert forall|kind: (Target, Seq<char>)| four.contains_key(kind) == goal.contains_key(
        kind,
    ) && (four.contains_key(kind) ==> four[kind] == goal[kind]) by {
        if kind.1 == id {
            match kind.0 {
                Target::PrevLeft => {},
                Target::NextLeft => {},
                Target::PrevRight => {},
                Target::NextRight => {},
            }
        }
    }
    assert(four =~= goal);
}

/// In whatever order the ids are visited, and however often, the result is
/// the part of the patch that concerns them.
pub proof fn lemma_folded(
    ids: Seq<Seq<char>>,
    lp: Map<Seq<char>, CardView>,
    ln: Map<Seq<char>, CardView>,
    rp: Map<Seq<char>, CardView>,
    rn: Map<Seq<char>, CardView>,
)
    ensures
        folded(ids, lp, ln, rp, rn) == patch_within(ids.to_set(), lp, ln, rp, rn),
    decreases ids.len(),
{
    if ids.len() == 0 {
        assert(patch_within(ids.to_set(), lp, ln, rp, rn) =~= Map::empty());
    } else {
        let front = ids.drop_last();
        lemma_folded(front, lp, ln, rp, rn);
        lemma_absorbed_within(front.to_set(), ids.last(), lp, ln, rp, rn);
        assert(front.to_set().insert(ids.last()) =~= ids.to_set()) by {
            assert forall|id: Seq<char>| front.to_set().insert(ids.last()).contains(id)
                == ids.to_set().contains(id) by {
                if front.contains(id) {
                    let i = choose|i: int| 0 <= i < front.len() && front[i] == id;
                    assert(ids[i] == id);
                }
                if ids.contains(id) {
                    let i = choose|i: int| 0 <= i < ids.len() && ids[i] == id;
                    if i < front.len() {
                        assert(front[i] == id);
                    }
                }
                assert(ids[ids.len() - 1] == ids.last());
            }
        }
    }
}

/// The order in which the ids are visited does not matter: two orders over
/// the same ids give the same patch.
pub proof fn lemma_order_is_irrelevant(
    first: Seq<Seq<char>>,
    second: Seq<Seq<char>>,
    lp: Map<Seq<char>, CardView>,
    ln: Map<Seq<char>, CardView>,
    rp: Map<Seq<char>, CardView>,
    rn: Map<Seq<char>, CardView>,
)
    requires
        first.to_set() == second.to_set(),
    ensures
        folded(first, lp, ln, rp, rn) == folded(second, lp, ln, rp, rn),
{
    lemma_folded(first, lp, ln, rp, rn);
    lemma_folded(second, lp, ln, rp, rn);
}

/// Every hunk of the patch concerns an id that one of the four snapshots
/// holds; and where each snapshot stores its cards under their own ids, the
/// card of the hunk has that id.
pub proof fn lemma_no_phantom_ids(
    lp: Map<Seq<char>, CardView>,
    ln: Map<Seq<char>, CardView>,
    rp: Map<Seq<char>, CardView>,
    rn: Map<Seq<char>, CardView>,
)
    ensures
        forall|kind: (Target, Seq<char>)| #[trigger]
            patch_of(lp, ln, rp, rn).contains_key(kind) ==> lp.contains_key(kind.1)
                || ln.contains_key(kind.1) || rp.contains_key(kind.1) || rn.contains_key(kind.1),
        crate::card::keyed_by_id(lp) && crate::card::keyed_by_id(ln) && crate::card::keyed_by_id(rp)
            && crate::card::keyed_by_id(rn) ==> forall|kind: (Target, Seq<char>)| #[trigger]
            patch_of(lp, ln, rp, rn).contains_key(kind) ==> patch_of(
                lp,
                ln,
                rp,
                rn,
            )[kind].card().id == kind.1,
{
    assert forall|kind: (Target, Seq<char>)| #[trigger]
        patch_of(lp, ln, rp, rn).contains_key(kind) implies lp.contains_key(kind.1)
        || ln.contains_key(kind.1) || rp.contains_key(kind.1) || rn.contains_key(kind.1) by {
        match kind.0 {
            Target::PrevLeft => {},
            Target::NextLeft => {},
            Target::PrevRight => {},
            Target::NextRight => {},
        }
    }
    if crate::card::keyed_by_id(lp) && crate::card::keyed_by_id(ln) && crate::card::keyed_by_id(rp)
        && crate::card::keyed_by_id(rn) {
        assert forall|kind: (Target, Seq<char>)| #[trigger]
            patch_of(lp, ln, rp, rn).contains_key(kind) implies patch_of(
            lp,
            ln,
            rp,
            rn,
        )[kind].card().id == kind.1 by {
            let id = kind.1;
            assert(lp.contains_key(id) ==> lp[id].id == id);
            assert(ln.contains_key(id) ==> ln[id].id == id);
            assert(rp.contains_key(id) ==> rp[id].id == id);
            assert(rn.contains_key(id) ==> rn[id].id == id);
            match kind.0 {
                Target::PrevLeft => {},
                Target::NextLeft => {},
                Target::PrevRight => {},
                Target::NextRight => {},
            }
        }
    }
}

/// Where a set of ids holds every id of the four snapshots, the part of the
/// patch that concerns it is the whole patch.
pub proof fn lemma_patch_within_all(
    ids: Set<Seq<char>>,
    lp: Map<Seq<char>, CardView>,
    ln: Map<Seq<char>, CardView>,
    rp: Map<Seq<char>, CardView>,
    rn: Map<Seq<char>, CardView>,
)
    requires
        forall|id: Seq<char>|
            lp.contains_key(id) || ln.contains_key(id) || rp.contains_key(id) || rn.contains_key(
                id,
            ) ==> ids.contains(id),
    ensures
        patch_within(ids, lp, ln, rp, rn) == patch_of(lp, ln, rp, rn),
{
    lemma_no_phantom_ids(lp, ln, rp, rn);
    assert(patch_within(ids, lp, ln, rp, rn) =~= patch_of(lp, ln, rp, rn));
}

/// The hunks of a sequence as entries: each hunk beside the place it goes to.
pub open spec fn hunk_entries(hunks: Seq<(HunkKind, Hunk)>) -> Seq<((Target, Seq<char>), HunkView)> {
    Seq::new(hunks.len(), |i: int| (hunks[i].0@, hunks[i].1@))
}

/// The ids of a sequence of cards, in order.
pub open spec fn ids_of(cards: Seq<Card>) -> Seq<Seq<char>> {
    Seq::new(cards.len(), |i: int| cards[i].id@)
}

/// A set of hunks with at most one hunk for each snapshot and id.
#[derive(Debug)]
pub struct Patch {
    hunks: Vec<(HunkKind, Hunk)>,
}

impl View for Patch {
    type V = Map<(Target, Seq<char>), HunkView>;

    closed spec fn view(&self) -> Map<(Target, Seq<char>), HunkView> {
        keyed(hunk_entries(self.hunks@))
    }
}

impl Default for Patch {
    fn default() -> (patch: Patch)
        ensures
            patch.wf(),
            patch@ == Map::<(Target, Seq<char>), HunkView>::empty(),
    {
        let patch = Patch { hunks: Vec::new() };
        proof {
            lemma_keyed_empty(hunk_entries(patch.hunks@));
        }
        patch
    }
}

impl Patch {
    /// No snapshot and id occurs twice. Every constructor establishes this
    /// and every method keeps it.
    pub closed spec fn wf(&self) -> bool {
        distinct_keys(hunk_entries(self.hunks@))
    }

    fn find(&self, kind: &HunkKind) -> (found: Option<usize>)
        ensures
            match found {
                Some(i) => i < self.hunks@.len() && self.hunks@[i as int].0@ == kind@,
                None => !holds_key(hunk_entries(self.hunks@), kind@),
            },
    {
        let mut i: usize = 0;
        while i < self.hunks.len()
            invariant
                i <= self.hunks@.len(),
                forall|k: int| 0 <= k < i ==> self.hunks@[k].0@ != kind@,
            decreases self.hunks@.len() - i,
        {
            if self.hunks[i].0.same_as(kind) {
                return Some(i);
            }
            i = i + 1;
        }
        None
    }

    /// Puts a hunk at its place. Where the place is taken, the hunk whose
    /// card has the later date stays.
    pub fn insert(&mut self, kind: HunkKind, next_hunk: Hunk)
        requires
            old(self).wf(),
        ensures
            final(self).wf(),
            final(self)@ == inserted(old(self)@, kind@, next_hunk@),
    {
        match self.find(&kind) {
            Some(i) => {
                proof {
                    lemma_keyed_lookup(hunk_entries(self.hunks@), i as int);
                }
                if next_hunk.card().date.is_after(&self.hunks[i].1.card().date) {
                    proof {
                        lemma_keyed_update(
                            hunk_entries(self.hunks@),
                            i as int,
                            kind@,
                            next_hunk@,
                        );
                        assert(hunk_entries(self.hunks@.update(i as int, (kind, next_hunk)))
                            =~= hunk_entries(self.hunks@).update(i as int, (kind@, next_hunk@)));
                    }
                    self.hunks.set(i, (kind, next_hunk));
                }
            },
            None => {
                proof {
                    lemma_keyed_push(hunk_entries(self.hunks@), kind@, next_hunk@);
                    assert(hunk_entries(self.hunks@.push((kind, next_hunk))) =~= hunk_entries(
                        self.hunks@,
                    ).push((kind@, next_hunk@)));
                }
                self.hunks.push((kind, next_hunk));
            },
        }
    }

    fn place(&mut self, target: Target, id: &String, hunk: Option<Hunk>)
        requires
            old(self).wf(),
        ensures
            final(self).wf(),
            final(self)@ == placed(old(self)@, (target, id@), hunk_view(hunk)),
    {
        match hunk {
            Some(hunk) => self.insert(HunkKind::at(target, id.clone()), hunk),
            None => {},
        }
    }

    /// Inserts the hunks that were decided for one id.
    pub fn absorb(&mut self, id: &String, plan: Plan)
        requires
            old(self).wf(),
        ensures
            final(self).wf(),
            final(self)@ == absorbed(old(self)@, id@, plan@),
    {
        let Plan { prev_left, next_left, prev_right, next_right } = plan;
        self.place(Target::PrevLeft, id, prev_left);
        self.place(Target::NextLeft, id, next_left);
        self.place(Target::PrevRight, id, prev_right);
        self.place(Target::NextRight, id, next_right);
    }

    fn absorb_all(
        &mut self,
        cards: &Vec<Card>,
        lp: &CardsMap,
        ln: &CardsMap,
        rp: &CardsMap,
        rn: &CardsMap,
        Ghost(seen): Ghost<Seq<Seq<char>>>,
    )
        requires
            old(self).wf(),
            lp.wf(),
            ln.wf(),
            rp.wf(),
            rn.wf(),
            old(self)@ == folded(seen, lp@, ln@, rp@, rn@),
        ensures
            final(self).wf(),
            final(self)@ == folded(seen + ids_of(cards@), lp@, ln@, rp@, rn@),
    {
        let mut i: usize = 0;
        proof {
            assert(seen + ids_of(cards@).take(0) =~= seen);
        }
        while i < cards.len()
            invariant
                i <= cards@.len(),
                self.wf(),
                lp.wf(),
                ln.wf(),
                rp.wf(),
                rn.wf(),
                self@ == folded(seen + ids_of(cards@).take(i as int), lp@, ln@, rp@, rn@),
            decreases cards@.len() - i,
        {
            let id = &cards[i].id;
            let plan = Plan::decide(
                lp.get(id.as_str()),
                ln.get(id.as_str()),
                rp.get(id.as_str()),
                rn.get(id.as_str()),
            );
            proof {
                let before = seen + ids_of(cards@).take(i as int);
                let after = seen + ids_of(cards@).take(i + 1);
                assert(after.drop_last() =~= before);
                assert(after.last() == id@);
                assert(plan@ == plan_for(id@, lp@, ln@, rp@, rn@));
            }
            self.absorb(id, plan);
            i = i + 1;
        }
        proof {
            assert(ids_of(cards@).take(cards@.len() as int) =~= ids_of(cards@));
        }
    }

    /// The patch between two sides, from the previous and the current
    /// snapshot of each.
    pub fn between(lp: &CardsMap, ln: &CardsMap, rp: &CardsMap, rn: &CardsMap) -> (patch: Patch)
        requires
            lp.wf(),
            ln.wf(),
            rp.wf(),
            rn.wf(),
        ensures
            patch.wf(),
            patch@ == patch_of(lp@, ln@, rp@, rn@),
            forall|kind: (Target, Seq<char>)| #[trigger]
                patch@.contains_key(kind) ==> lp@.contains_key(kind.1) || ln@.contains_key(kind.1)
                    || rp@.contains_key(kind.1) || rn@.contains_key(kind.1),
            coherent(patch@),
    {
        let mut patch = Patch::default();
        let lp_cards = lp.cards();
        let ln_cards = ln.cards();
        let rp_cards = rp.cards();
        let rn_cards = rn.cards();
        let ghost a = ids_of(lp_cards@);
        let ghost b = ids_of(ln_cards@);
        let ghost c = ids_of(rp_cards@);
        let ghost d = ids_of(rn_cards@);
        proof {
            assert(Seq::<Seq<char>>::empty() + a =~= a);
            assert(folded(Seq::<Seq<char>>::empty(), lp@, ln@, rp@, rn@) =~= Map::empty());
        }
        patch.absorb_all(lp_cards, lp, ln, rp, rn, Ghost(Seq::empty()));
        patch.absorb_all(ln_cards, lp, ln, rp, rn, Ghost(a));
        patch.absorb_all(rp_cards, lp, ln, rp, rn, Ghost(a + b));
        patch.absorb_all(rn_cards, lp, ln, rp, rn, Ghost(a + b + c));
        proof {
            let all = a + b + c + d;
            lemma_folded(all, lp@, ln@, rp@, rn@);
            lemma_ids_cover(lp_cards@);
            lemma_ids_cover(ln_cards@);
            lemma_ids_cover(rp_cards@);
            lemma_ids_cover(rn_cards@);
            assert forall|id: Seq<char>|
                lp@.contains_key(id) || ln@.contains_key(id) || rp@.contains_key(id)
                    || rn@.contains_key(id) implies all.to_set().contains(id) by {
                if lp@.contains_key(id) {
                    let i = choose|i: int| 0 <= i < a.len() && a[i] == id;
                    assert(all[i] == id);
                } else if ln@.contains_key(id) {
                    let i = choose|i: int| 0 <= i < b.len() && b[i] == id;
                    assert(all[a.len() + i] == id);
                } else if rp@.contains_key(id) {
                    let i = choose|i: int| 0 <= i < c.len() && c[i] == id;
                    assert(all[a.len() + b.len() + i] == id);
                } else {
                    let i = choose|i: int| 0 <= i < d.len() && d[i] == id;
                    assert(all[a.len() + b.len() + c.len() + i] == id);
                }
            }
            lemma_patch_within_all(all.to_set(), lp@, ln@, rp@, rn@);
            lemma_no_phantom_ids(lp@, ln@, rp@, rn@);
            lp.lemma_view();
            ln.lemma_view();
            rp.lemma_view();
            rn.lemma_view();
        }
        patch
    }

    /// The patch between a left and a right side.
    pub fn new<L: Cards, R: Cards>(left: L, right: R) -> (patch: Patch)
        ensures
            patch.wf(),
            patch@ == patch_of(
                left.prev_cards(),
                left.next_cards(),
                right.prev_cards(),
                right.next_cards(),
            ),
            forall|kind: (Target, Seq<char>)| #[trigger]
                patch@.contains_key(kind) ==> left.prev_cards().contains_key(kind.1)
                    || left.next_cards().contains_key(kind.1) || right.prev_cards().contains_key(
                    kind.1,
                ) || right.next_cards().contains_key(kind.1),
            coherent(patch@),
    {
        Patch::between(left.prev(), left.next(), right.prev(), right.next())
    }

    /// The number of hunks.
    pub fn len(&self) -> (n: usize)
        requires
            self.wf(),
        ensures
            self@.dom().finite(),
            n == self@.dom().len(),
    {
        proof {
            lemma_keyed_len(hunk_entries(self.hunks@));
        }
        self.hunks.len()
    }

    /// Whether the patch holds no hunk.
    pub fn is_empty(&self) -> (empty: bool)
        requires
            self.wf(),
        ensures
            empty == (self@ == Map::<(Target, Seq<char>), HunkView>::empty()),
    {
        proof {
            if self.hunks@.len() == 0 {
                lemma_keyed_empty(hunk_entries(self.hunks@));
            } else {
                lemma_keyed_lookup(hunk_entries(self.hunks@), 0);
            }
        }
        self.hunks.len() == 0
    }

    /// The hunk at a place, if there is one.
    pub fn get(&self, kind: &HunkKind) -> (hunk: Option<&Hunk>)
        requires
            self.wf(),
        ensures
            hunk is Some <==> self@.contains_key(kind@),
            hunk is Some ==> hunk.unwrap()@ == self@[kind@],
    {
        match self.find(kind) {
            Some(i) => {
                proof {
                    lemma_keyed_lookup(hunk_entries(self.hunks@), i as int);
                }
                Some(&self.hunks[i].1)
            },
            None => None,
        }
    }

    /// Applies the hunks that are aimed at one snapshot to that snapshot.
    pub fn apply(&self, target: Target, cards: &mut CardsMap)
        requires
            self.wf(),
            old(cards).wf(),
            coherent(self@),
        ensures
            final(cards).wf(),
            final(cards)@ == applied(old(cards)@, target, self@),
    {
        let ghost entries = hunk_entries(self.hunks@);
        let mut i: usize = 0;
        proof {
            lemma_keyed_empty(entries.take(0));
            assert(cards@ =~= applied(cards@, target, keyed(entries.take(0))));
        }
        while i < self.hunks.len()
            invariant
                i <= self.hunks@.len(),
                entries == hunk_entries(self.hunks@),
                distinct_keys(entries),
                coherent(keyed(entries)),
                cards.wf(),
                distinct_keys(entries.take(i as int)),
                cards@ == applied(old(cards)@, target, keyed(entries.take(i as int))),
            decreases self.hunks@.len() - i,
        {
            let kind = &self.hunks[i].0;
            let hunk = &self.hunks[i].1;
            proof {
                let seen = entries.take(i as int);
                assert(entries.take(i + 1) =~= seen.push((kind@, hunk@)));
                if holds_key(seen, kind@) {
                    let k = crate::assoc::position_of(seen, kind@);
                    assert(entries[k].0 == entries[i as int].0);
                }
                lemma_keyed_push(seen, kind@, hunk@);
                lemma_keyed_lookup(entries, i as int);
                assert(hunk@.card().id == kind@.1);
            }
            let ghost before = cards@;
            if kind.target() == target {
                match hunk {
                    Hunk::Add(card) => cards.insert(card.clone()),
                    Hunk::Update(card) => cards.insert(card.clone()),
                    Hunk::Del(_) => {
                        cards.remove(kind.id().as_str());
                    },
                }
            }
            proof {
                assert(cards@ =~= applied(old(cards)@, target, keyed(entries.take(i + 1))));
            }
            i = i + 1;
        }
        proof {
            assert(entries.take(self.hunks@.len() as int) =~= entries);
        }
    }

    /// The hunks, each beside its place, in no particular order.
    pub fn hunks(&self) -> (hunks: &Vec<(HunkKind, Hunk)>)
        requires
            self.wf(),
        ensures
            distinct_keys(hunk_entries(hunks@)),
            self@ == keyed(hunk_entries(hunks@)),
    {
        &self.hunks
    }
}

/// Every id that the map of the cards holds occurs among the cards' ids.
pub proof fn lemma_ids_cover(cards: Seq<Card>)
    ensures
        forall|id: Seq<char>| #[trigger]
            keyed(card_entries(cards)).contains_key(id) ==> exists|i: int|
                0 <= i < ids_of(cards).len() && ids_of(cards)[i] == id,
{
    assert forall|id: Seq<char>| #[trigger]
        keyed(card_entries(cards)).contains_key(id) implies exists|i: int|
        0 <= i < ids_of(cards).len() && ids_of(cards)[i] == id by {
        let i = crate::assoc::lemma_keyed_witness(card_entries(cards), id);
        assert(ids_of(cards)[i] == id);
    }
}

/// What a snapshot holds under an id after a hunk for that id, if there is
/// one, was applied: the card of an `Add` or an `Update`, nothing after a `Del`.
pub open spec fn after_hunk(stored: Option<CardView>, hunk: Option<HunkView>) -> Option<CardView> {
    match hunk {
        None => stored,
        Some(HunkView::Del(_)) => None,
        Some(HunkView::Add(card)) => Some(card),
        Some(HunkView::Update(card)) => Some(card),
    }
}

/// A snapshot after the hunks of a patch that are aimed at it were applied.
pub open spec fn applied(
    cards: Map<Seq<char>, CardView>,
    target: Target,
    patch: Map<(Target, Seq<char>), HunkView>,
) -> Map<Seq<char>, CardView> {
    Map::new(
        |id: Seq<char>|
            after_hunk(
                slot(cards, id),
                if patch.contains_key((target, id)) {
                    Some(patch[(target, id)])
                } else {
                    None
                },
            ) is Some,
        |id: Seq<char>|
            after_hunk(
                slot(cards, id),
                if patch.contains_key((target, id)) {
                    Some(patch[(target, id)])
                } else {
                    None
                },
            ).unwrap(),
    )
}

/// The newest of the four copies of a card is one of them, and no copy has a
/// later date.
pub proof fn lemma_newest_of_four(lp: CardView, ln: CardView, rp: CardView, rn: CardView)
    ensures
        newest_of_four(lp, ln, rp, rn).date.at_least(lp.date),
        newest_of_four(lp, ln, rp, rn).date.at_least(ln.date),
        newest_of_four(lp, ln, rp, rn).date.at_least(rp.date),
        newest_of_four(lp, ln, rp, rn).date.at_least(rn.date),
        newest_of_four(lp, ln, rp, rn) == lp || newest_of_four(lp, ln, rp, rn) == ln
            || newest_of_four(lp, ln, rp, rn) == rp || newest_of_four(lp, ln, rp, rn) == rn,
{
}

/// Where an id is in all four snapshots, every hunk decided for it is an
/// `Update` with one and the same card, and the date of that card is at
/// least the date of each of the four copies.
pub proof fn lemma_chosen_card_is_newest(
    lp: CardView,
    ln: CardView,
    rp: CardView,
    rn: CardView,
    target: Target,
)
    requires
        plan_of(Some(lp), Some(ln), Some(rp), Some(rn)).at(target) is Some,
    ensures
        ({
            let hunk = plan_of(Some(lp), Some(ln), Some(rp), Some(rn)).at(target).unwrap();
            &&& hunk == HunkView::Update(newest_of_four(lp, ln, rp, rn))
            &&& hunk.card().date.at_least(lp.date)
            &&& hunk.card().date.at_least(ln.date)
            &&& hunk.card().date.at_least(rp.date)
            &&& hunk.card().date.at_least(rn.date)
        }),
{
    lemma_newest_of_four(lp, ln, rp, rn);
    match target {
        Target::PrevLeft => {},
        Target::NextLeft => {},
        Target::PrevRight => {},
        Target::NextRight => {},
    }
}

/// Every hunk of the patch carries a card with the id of its place.
pub open spec fn coherent(patch: Map<(Target, Seq<char>), HunkView>) -> bool {
    forall|kind: (Target, Seq<char>)| #[trigger]
        patch.contains_key(kind) ==> patch[kind].card().id == kind.1
}

/// The plan with no hunk.
pub open spec fn no_hunks() -> PlanView {
    PlanView { prev_left: None, next_left: None, prev_right: None, next_right: None }
}

/// Either no snapshot holds the card, or all four hold one and the same
/// card.
pub open spec fn same_card_everywhere(
    lp: Option<CardView>,
    ln: Option<CardView>,
    rp: Option<CardView>,
    rn: Option<CardView>,
) -> bool {
    match (lp, ln, rp, rn) {
        (None, None, None, None) => true,
        (Some(lp), Some(ln), Some(rp), Some(rn)) => lp == ln && ln == rp && rp == rn,
        _ => false,
    }
}

/// For one id: once the plan is carried out, either no snapshot holds the
/// id or all four hold one and the same card, with its date, etag and
/// content.
pub proof fn lemma_plan_converges(
    lp: Option<CardView>,
    ln: Option<CardView>,
    rp: Option<CardView>,
    rn: Option<CardView>,
)
    ensures
        ({
            let plan = plan_of(lp, ln, rp, rn);
            same_card_everywhere(
                after_hunk(lp, plan.prev_left),
                after_hunk(ln, plan.next_left),
                after_hunk(rp, plan.prev_right),
                after_hunk(rn, plan.next_right),
            )
        }),
{
}

/// For one id: where the four snapshots hold nothing or one and the same
/// card, nothing is left to do.
pub proof fn lemma_settled_needs_no_hunk(
    lp: Option<CardView>,
    ln: Option<CardView>,
    rp: Option<CardView>,
    rn: Option<CardView>,
)
    requires
        same_card_everywhere(lp, ln, rp, rn),
    ensures
        plan_of(lp, ln, rp, rn) == no_hunks(),
{
}

/// For one id: once the plan is carried out, the plan for what the four
/// snapshots then hold is empty.
pub proof fn lemma_plan_settles(
    lp: Option<CardView>,
    ln: Option<CardView>,
    rp: Option<CardView>,
    rn: Option<CardView>,
)
    ensures
        ({
            let plan = plan_of(lp, ln, rp, rn);
            plan_of(
                after_hunk(lp, plan.prev_left),
                after_hunk(ln, plan.next_left),
                after_hunk(rp, plan.prev_right),
                after_hunk(rn, plan.next_right),
            ) == no_hunks()
        }),
{
    let plan = plan_of(lp, ln, rp, rn);
    lemma_plan_converges(lp, ln, rp, rn);
    lemma_settled_needs_no_hunk(
        after_hunk(lp, plan.prev_left),
        after_hunk(ln, plan.next_left),
        after_hunk(rp, plan.prev_right),
        after_hunk(rn, plan.next_right),
    );
}

/// What a snapshot holds under an id once a patch is applied, by the plan
/// for that id.
pub proof fn lemma_applied_slot(
    id: Seq<char>,
    target: Target,
    lp: Map<Seq<char>, CardView>,
    ln: Map<Seq<char>, CardView>,
    rp: Map<Seq<char>, CardView>,
    rn: Map<Seq<char>, CardView>,
    cards: Map<Seq<char>, CardView>,
)
    ensures
        slot(applied(cards, target, patch_of(lp, ln, rp, rn)), id) == after_hunk(
            slot(cards, id),
            plan_for(id, lp, ln, rp, rn).at(target),
        ),
{
    let patch = patch_of(lp, ln, rp, rn);
    let hunk = plan_for(id, lp, ln, rp, rn).at(target);
    assert(patch.contains_key((target, id)) <==> hunk is Some);
    if hunk is Some {
        assert(patch[(target, id)] == hunk.unwrap());
    }
}

/// Idempotence. Apply the patch between two sides and compute the patch
/// between what results: it is empty.
pub proof fn lemma_patch_is_idempotent(
    lp: Map<Seq<char>, CardView>,
    ln: Map<Seq<char>, CardView>,
    rp: Map<Seq<char>, CardView>,
    rn: Map<Seq<char>, CardView>,
)
    ensures
        ({
            let patch = patch_of(lp, ln, rp, rn);
            patch_of(
                applied(lp, Target::PrevLeft, patch),
                applied(ln, Target::NextLeft, patch),
                applied(rp, Target::PrevRight, patch),
                applied(rn, Target::NextRight, patch),
            ) == Map::<(Target, Seq<char>), HunkView>::empty()
        }),
{
    let patch = patch_of(lp, ln, rp, rn);
    let lp2 = applied(lp, Target::PrevLeft, patch);
    let ln2 = applied(ln, Target::NextLeft, patch);
    let rp2 = applied(rp, Target::PrevRight, patch);
    let rn2 = applied(rn, Target::NextRight, patch);
    let again = patch_of(lp2, ln2, rp2, rn2);
    assert forall|kind: (Target, Seq<char>)| !again.contains_key(kind) by {
        let id = kind.1;
        lemma_applied_slot(id, Target::PrevLeft, lp, ln, rp, rn, lp);
        lemma_applied_slot(id, Target::NextLeft, lp, ln, rp, rn, ln);
        lemma_applied_slot(id, Target::PrevRight, lp, ln, rp, rn, rp);
        lemma_applied_slot(id, Target::NextRight, lp, ln, rp, rn, rn);
        lemma_plan_settles(slot(lp, id), slot(ln, id), slot(rp, id), slot(rn, id));
        assert(plan_for(id, lp2, ln2, rp2, rn2) == no_hunks());
    }
    assert(again =~= Map::<(Target, Seq<char>), HunkView>::empty());
}

/// Convergence. Once the patch between two sides is applied, every id is
/// either in none of the four snapshots or in all of them with one and the
/// same card: the same date, etag and content.
pub proof fn lemma_patch_converges(
    lp: Map<Seq<char>, CardView>,
    ln: Map<Seq<char>, CardView>,
    rp: Map<Seq<char>, CardView>,
    rn: Map<Seq<char>, CardView>,
)
    ensures
        ({
            let patch = patch_of(lp, ln, rp, rn);
            forall|id: Seq<char>|
                same_card_everywhere(
                    #[trigger] slot(applied(lp, Target::PrevLeft, patch), id),
                    slot(applied(ln, Target::NextLeft, patch), id),
                    slot(applied(rp, Target::PrevRight, patch), id),
                    slot(applied(rn, Target::NextRight, patch), id),
                )
        }),
{
    let patch = patch_of(lp, ln, rp, rn);
    assert forall|id: Seq<char>|
        same_card_everywhere(
            #[trigger] slot(applied(lp, Target::PrevLeft, patch), id),
            slot(applied(ln, Target::NextLeft, patch), id),
            slot(applied(rp, Target::PrevRight, patch), id),
            slot(applied(rn, Target::NextRight, patch), id),
        ) by {
        lemma_applied_slot(id, Target::PrevLeft, lp, ln, rp, rn, lp);
        lemma_applied_slot(id, Target::NextLeft, lp, ln, rp, rn, ln);
        lemma_applied_slot(id, Target::PrevRight, lp, ln, rp, rn, rp);
        lemma_applied_slot(id, Target::NextRight, lp, ln, rp, rn, rn);
        lemma_plan_converges(slot(lp, id), slot(ln, id), slot(rp, id), slot(rn, id));
    }
}

/// What one of the four snapshots holds under an id.
pub open spec fn stored_at(
    target: Target,
    lp: Option<CardView>,
    ln: Option<CardView>,
    rp: Option<CardView>,
    rn: Option<CardView>,
) -> Option<CardView> {
    match target {
        Target::PrevLeft => lp,
        Target::NextLeft => ln,
        Target::PrevRight => rp,
        Target::NextRight => rn,
    }
}

/// For one id: a card that a snapshot holds once the plan is carried out is
/// one of the four copies, and no current copy of either side has a later
/// date.
pub proof fn lemma_plan_keeps_latest(
    lp: Option<CardView>,
    ln: Option<CardView>,
    rp: Option<CardView>,
    rn: Option<CardView>,
    target: Target,
)
    ensures
        ({
            let kept = after_hunk(
                stored_at(target, lp, ln, rp, rn),
                plan_of(lp, ln, rp, rn).at(target),
            );
            kept is Some ==> {
                &&& kept == lp || kept == ln || kept == rp || kept == rn
                &&& ln is Some ==> kept.unwrap().date.at_least(ln.unwrap().date)
                &&& rn is Some ==> kept.unwrap().date.at_least(rn.unwrap().date)
            }
        }),
{
    match target {
        Target::PrevLeft => {},
        Target::NextLeft => {},
        Target::PrevRight => {},
        Target::NextRight => {},
    }
}

/// Once the patch between two sides is applied, every card that a snapshot
/// holds is one of the four copies of that card, and no current copy of
/// either side has a later date.
pub proof fn lemma_patch_keeps_latest(
    lp: Map<Seq<char>, CardView>,
    ln: Map<Seq<char>, CardView>,
    rp: Map<Seq<char>, CardView>,
    rn: Map<Seq<char>, CardView>,
    id: Seq<char>,
)
    ensures
        ({
            let patch = patch_of(lp, ln, rp, rn);
            let left_prev = applied(lp, Target::PrevLeft, patch);
            let left_next = applied(ln, Target::NextLeft, patch);
            let right_prev = applied(rp, Target::PrevRight, patch);
            let right_next = applied(rn, Target::NextRight, patch);
            forall|kept: CardView|
                slot(left_prev, id) == Some(kept) || slot(left_next, id) == Some(kept) || slot(
                    right_prev,
                    id,
                ) == Some(kept) || slot(right_next, id) == Some(kept) ==> {
                    &&& slot(lp, id) == Some(kept) || slot(ln, id) == Some(kept) || slot(rp, id)
                        == Some(kept) || slot(rn, id) == Some(kept)
                    &&& ln.contains_key(id) ==> kept.date.at_least(ln[id].date)
                    &&& rn.contains_key(id) ==> kept.date.at_least(rn[id].date)
                }
        }),
{
    lemma_applied_slot(id, Target::PrevLeft, lp, ln, rp, rn, lp);
    lemma_applied_slot(id, Target::NextLeft, lp, ln, rp, rn, ln);
    lemma_applied_slot(id, Target::PrevRight, lp, ln, rp, rn, rp);
    lemma_applied_slot(id, Target::NextRight, lp, ln, rp, rn, rn);
    lemma_plan_keeps_latest(slot(lp, id), slot(ln, id), slot(rp, id), slot(rn, id), Target::PrevLeft);
    lemma_plan_keeps_latest(slot(lp, id), slot(ln, id), slot(rp, id), slot(rn, id), Target::NextLeft);
    lemma_plan_keeps_latest(
        slot(lp, id),
        slot(ln, id),
        slot(rp, id),
        slot(rn, id),
        Target::PrevRight,
    );
    lemma_plan_keeps_latest(
        slot(lp, id),
        slot(ln, id),
        slot(rp, id),
        slot(rn, id),
        Target::NextRight,
    );
}

} // verus!
