//! A run of the synchronization: what the caller has to carry out on the
//! local directory and on the server, in which order, and when the
//! snapshots may be stored.

use crate::assoc::{distinct_keys, lemma_keyed_lookup, lemma_keyed_witness};
use crate::card::{Card, CardView, Cards, CardsMap};
use crate::error::CardamomError;
use crate::sync::{applied, hunk_entries, patch_of, Hunk, HunkKind, HunkView, Patch, Target};
use vstd::prelude::*;

verus! {

/// A snapshot that the caller itself has to change: the local directory or
/// the server.
pub open spec fn is_outside(target: Target) -> bool {
    target == Target::NextLeft || target == Target::NextRight
}

/// The turn of a hunk: deletions first, then replacements, then additions.
pub open spec fn turn_of(hunk: HunkView) -> int {
    match hunk {
        HunkView::Del(_) => 0,
        HunkView::Update(_) => 1,
        HunkView::Add(_) => 2,
    }
}

/// The hunks that a run hands to its caller, in their order: the hunks of
/// the patch that are aimed at the local directory or at the server, each
/// once, deletions before replacements before additions.
pub open spec fn is_agenda(
    pending: Seq<(HunkKind, Hunk)>,
    patch: Map<(Target, Seq<char>), HunkView>,
) -> bool {
    &&& distinct_keys(hunk_entries(pending))
    &&& forall|i: int|
        0 <= i < pending.len() ==> is_outside((#[trigger] pending[i]).0@.0) && patch.contains_key(
            pending[i].0@,
        ) && patch[pending[i].0@] == pending[i].1@
    &&& forall|kind: (Target, Seq<char>)|
        #![trigger patch.contains_key(kind)]
        patch.contains_key(kind) && is_outside(kind.0) ==> exists|i: int|
            0 <= i < pending.len() && (#[trigger] pending[i]).0@ == kind
    &&& forall|i: int, j: int|
        0 <= i < j < pending.len() ==> turn_of((#[trigger] pending[i]).1@) <= turn_of(
            (#[trigger] pending[j]).1@,
        )
}

spec fn has_turn(entry: (HunkKind, Hunk), turn: int) -> bool {
    is_outside(entry.0@.0) && turn_of(entry.1@) == turn
}

fn turn(hunk: &Hunk) -> (turn: u8)
    ensures
        turn == turn_of(hunk@),
{
    match hunk {
        Hunk::Del(_) => 0,
        Hunk::Update(_) => 1,
        Hunk::Add(_) => 2,
    }
}

fn is_outside_target(target: Target) -> (outside: bool)
    ensures
        outside == is_outside(target),
{
    match target {
        Target::NextLeft => true,
        Target::NextRight => true,
        _ => false,
    }
}

/// Appends the hunks of one turn, and says where in `hunks` each of them
/// stands.
fn gather(
    hunks: &Vec<(HunkKind, Hunk)>,
    wanted: u8,
    pending: &mut Vec<(HunkKind, Hunk)>,
) -> (origin: Ghost<Seq<int>>)
    ensures
        final(pending)@.len() == old(pending)@.len() + origin@.len(),
        final(pending)@.take(old(pending)@.len() as int) == old(pending)@,
        forall|m: int|
            0 <= m < origin@.len() ==> {
                &&& 0 <= #[trigger] origin@[m] < hunks@.len()
                &&& final(pending)@[old(pending)@.len() + m] == hunks@[origin@[m]]
                &&& has_turn(hunks@[origin@[m]], wanted as int)
            },
        forall|a: int, b: int| 0 <= a < b < origin@.len() ==> origin@[a] < origin@[b],
        forall|k: int|
            0 <= k < hunks@.len() && has_turn(#[trigger] hunks@[k], wanted as int) ==> exists|
                m: int,
            |
                0 <= m < origin@.len() && origin@[m] == k,
{
    let ghost mut origin: Seq<int> = Seq::empty();
    let ghost start = pending@.len();
    let mut k: usize = 0;
    proof {
        assert(pending@.take(start as int) =~= pending@);
    }
    while k < hunks.len()
        invariant
            k <= hunks@.len(),
            start == old(pending)@.len(),
            pending@.len() == start + origin.len(),
            pending@.take(start as int) == old(pending)@,
            forall|m: int|
                0 <= m < origin.len() ==> 0 <= #[trigger] origin[m] < k && pending@[start + m]
                    == hunks@[origin[m]] && has_turn(hunks@[origin[m]], wanted as int),
            forall|a: int, b: int| 0 <= a < b < origin.len() ==> origin[a] < origin[b],
            forall|i: int|
                0 <= i < k && has_turn(#[trigger] hunks@[i], wanted as int) ==> exists|m: int|
                    0 <= m < origin.len() && origin[m] == i,
        decreases hunks@.len() - k,
    {
        let kind = &hunks[k].0;
        let hunk = &hunks[k].1;
        if is_outside_target(kind.target()) && turn(hunk) == wanted {
            let ghost before = pending@;
            let ghost origin_before = origin;
            pending.push((kind.clone(), hunk.clone()));
            proof {
                origin = origin.push(k as int);
                assert(pending@.take(start as int) =~= before.take(start as int));
                assert forall|m: int| 0 <= m < origin.len() implies 0 <= #[trigger] origin[m] < k
                    + 1 && pending@[start + m] == hunks@[origin[m]] && has_turn(
                    hunks@[origin[m]],
                    wanted as int,
                ) by {
                    if m < origin_before.len() {
                        assert(origin[m] == origin_before[m]);
                        assert(pending@[start + m] == before[start + m]);
                    }
                }
                assert forall|i: int|
                    0 <= i < k + 1 && has_turn(#[trigger] hunks@[i], wanted as int) implies exists|
                    m: int,
                |
                    0 <= m < origin.len() && origin[m] == i by {
                    if i < k {
                        let m = choose|m: int| 0 <= m < origin_before.len() && origin_before[m] == i;
                        assert(origin[m] == i);
                    } else {
                        assert(origin[origin.len() - 1] == i);
                    }
                }
            }
        }
        k = k + 1;
    }
    Ghost(origin)
}

/// The hunks of a patch that are aimed at the local directory or at the
/// server, deletions before replacements before additions.
pub fn agenda(patch: &Patch) -> (pending: Vec<
    (HunkKind, Hunk),
>)
    requires
        patch.wf(),
    ensures
        is_agenda(pending@, patch@),
{
    let hunks = patch.hunks();
    let mut pending: Vec<(HunkKind, Hunk)> = Vec::new();
    let Ghost(dels) = gather(hunks, 0, &mut pending);
    let ghost after_dels = pending@;
    let Ghost(updates) = gather(hunks, 1, &mut pending);
    let ghost after_updates = pending@;
    let Ghost(adds) = gather(hunks, 2, &mut pending);
    proof {
        let origin = dels + updates + adds;
        let entries = hunk_entries(hunks@);
        assert(pending@.len() == origin.len());
        assert forall|m: int| 0 <= m < origin.len() implies 0 <= #[trigger] origin[m] < hunks@.len()
            && pending@[m] == hunks@[origin[m]] && is_outside(hunks@[origin[m]].0@.0) && turn_of(
            hunks@[origin[m]].1@,
        ) == (if m < dels.len() {
            0int
        } else if m < dels.len() + updates.len() {
            1int
        } else {
            2int
        }) by {
            if m < dels.len() {
                assert(origin[m] == dels[m]);
                assert(after_dels[m] == hunks@[dels[m]]);
                assert(after_updates.take(after_dels.len() as int)[m] == after_dels[m]);
                assert(pending@.take(after_updates.len() as int)[m] == after_updates[m]);
            } else if m < dels.len() + updates.len() {
                assert(origin[m] == updates[m - dels.len()]);
                assert(after_updates[dels.len() + (m - dels.len())] == hunks@[updates[m
                    - dels.len()]]);
                assert(pending@.take(after_updates.len() as int)[m] == after_updates[m]);
            } else {
                let n = m - dels.len() - updates.len();
                assert(origin[m] == adds[n]);
                assert(pending@[after_updates.len() + n] == hunks@[adds[n]]);
            }
        }
        assert forall|a: int, b: int| 0 <= a < b < origin.len() implies origin[a]
            != origin[b] by {
            assert(turn_of(hunks@[origin[a]].1@) <= turn_of(hunks@[origin[b]].1@));
            if turn_of(hunks@[origin[a]].1@) == turn_of(hunks@[origin[b]].1@) {
                if b < dels.len() {
                    assert(dels[a] < dels[b]);
                } else if a >= dels.len() && b < dels.len() + updates.len() {
                    assert(updates[a - dels.len()] < updates[b - dels.len()]);
                } else {
                    assert(adds[a - dels.len() - updates.len()] < adds[b - dels.len()
                        - updates.len()]);
                }
            }
        }
        let pending_entries = hunk_entries(pending@);
        assert forall|a: int, b: int| 0 <= a < b < pending_entries.len() implies pending_entries[a].0
            != pending_entries[b].0 by {
            assert(pending@[a] == hunks@[origin[a]]);
            assert(pending@[b] == hunks@[origin[b]]);
            assert(entries[origin[a]].0 == pending_entries[a].0);
            assert(entries[origin[b]].0 == pending_entries[b].0);
            if origin[a] < origin[b] {
                assert(entries[origin[a]].0 != entries[origin[b]].0);
            } else {
                assert(entries[origin[b]].0 != entries[origin[a]].0);
            }
        }
        assert forall|i: int| 0 <= i < pending@.len() implies is_outside(
            (#[trigger] pending@[i]).0@.0,
        ) && patch@.contains_key(pending@[i].0@) && patch@[pending@[i].0@] == pending@[i].1@ by {
            assert(pending@[i] == hunks@[origin[i]]);
            lemma_keyed_lookup(entries, origin[i]);
        }
        assert forall|kind: (Target, Seq<char>)|
            #![trigger patch@.contains_key(kind)]
            patch@.contains_key(kind) && is_outside(kind.0) implies exists|i: int|
            0 <= i < pending@.len() && (#[trigger] pending@[i]).0@ == kind by {
            let k = lemma_keyed_witness(entries, kind);
            assert(hunks@[k].0@ == kind);
            let t = turn_of(hunks@[k].1@);
            if t == 0 {
                assert(has_turn(hunks@[k], 0));
                let m = choose|m: int| 0 <= m < dels.len() && dels[m] == k;
                assert(origin[m] == k);
                assert(pending@[m] == hunks@[origin[m]]);
            } else if t == 1 {
                assert(has_turn(hunks@[k], 1));
                let m = choose|m: int| 0 <= m < updates.len() && updates[m] == k;
                assert(origin[dels.len() + m] == k);
                assert(pending@[dels.len() + m] == hunks@[origin[dels.len() + m]]);
            } else {
                assert(has_turn(hunks@[k], 2));
                let m = choose|m: int| 0 <= m < adds.len() && adds[m] == k;
                assert(origin[dels.len() + updates.len() + m] == k);
                assert(pending@[dels.len() + updates.len() + m] == hunks@[origin[dels.len()
                    + updates.len() + m]]);
            }
        }
        assert forall|i: int, j: int| 0 <= i < j < pending@.len() implies turn_of(
            (#[trigger] pending@[i]).1@,
        ) <= turn_of((#[trigger] pending@[j]).1@) by {
            assert(pending@[i] == hunks@[origin[i]]);
            assert(pending@[j] == hunks@[origin[j]]);
        }
    }
    pending
}

/// What carrying out a hunk asks of the stores. A card without content
/// holds only metadata: its content is fetched from the side that has it
/// before it is written to the other.
#[derive(Debug, PartialEq, Eq)]
pub enum Task {
    /// The hunk is aimed at a snapshot: nothing is to be done outside.
    Nothing,
    /// Delete the card file of this id.
    DeleteLocal(String),
    /// Write this card to its card file.
    WriteLocal(Card),
    /// Read the card of this id from the server and write it to its card
    /// file.
    FetchAndWriteLocal(String),
    /// Delete this card on the server.
    DeleteRemote(Card),
    /// Create this card on the server.
    InsertRemote(Card),
    /// Read the content of this card from its card file and create the card
    /// on the server.
    ReadAndInsertRemote(Card),
    /// Replace this card on the server.
    UpdateRemote(Card),
    /// Read the content of this card from its card file and replace the
    /// card on the server.
    ReadAndUpdateRemote(Card),
}

/// What a task is, as mathematical values.
pub enum TaskView {
    Nothing,
    DeleteLocal(Seq<char>),
    WriteLocal(CardView),
    FetchAndWriteLocal(Seq<char>),
    DeleteRemote(CardView),
    InsertRemote(CardView),
    ReadAndInsertRemote(CardView),
    UpdateRemote(CardView),
    ReadAndUpdateRemote(CardView),
}

impl View for Task {
    type V = TaskView;

    open spec fn view(&self) -> TaskView {
        match self {
            Task::Nothing => TaskView::Nothing,
            Task::DeleteLocal(id) => TaskView::DeleteLocal(id@),
            Task::WriteLocal(card) => TaskView::WriteLocal(card@),
            Task::FetchAndWriteLocal(id) => TaskView::FetchAndWriteLocal(id@),
            Task::DeleteRemote(card) => TaskView::DeleteRemote(card@),
            Task::InsertRemote(card) => TaskView::InsertRemote(card@),
            Task::ReadAndInsertRemote(card) => TaskView::ReadAndInsertRemote(card@),
            Task::UpdateRemote(card) => TaskView::UpdateRemote(card@),
            Task::ReadAndUpdateRemote(card) => TaskView::ReadAndUpdateRemote(card@),
        }
    }
}

/// The task of a hunk. A hunk for the local directory deletes or writes a
/// card file; a hunk for the server deletes, creates or replaces a card; a
/// hunk for a snapshot asks for nothing. Where the card to be written has no
/// content, the content is fetched first: from the server for the local
/// directory, from the card file for the server.
pub open spec fn task_of(kind: (Target, Seq<char>), hunk: HunkView) -> TaskView {
    match kind.0 {
        Target::NextLeft => match hunk {
            HunkView::Del(_) => TaskView::DeleteLocal(kind.1),
            HunkView::Add(card) | HunkView::Update(card) => if card.content.len() == 0 {
                TaskView::FetchAndWriteLocal(kind.1)
            } else {
                TaskView::WriteLocal(card)
            },
        },
        Target::NextRight => match hunk {
            HunkView::Del(card) => TaskView::DeleteRemote(card),
            HunkView::Add(card) => if card.content.len() == 0 {
                TaskView::ReadAndInsertRemote(card)
            } else {
                TaskView::InsertRemote(card)
            },
            HunkView::Update(card) => if card.content.len() == 0 {
                TaskView::ReadAndUpdateRemote(card)
            } else {
                TaskView::UpdateRemote(card)
            },
        },
        _ => TaskView::Nothing,
    }
}

/// The task of a hunk: what the stores have to do to carry it out.
pub fn task(kind: &HunkKind, hunk: &Hunk) -> (task: Task)
    ensures
        task@ == task_of(kind@, hunk@),
{
    let has_content = hunk.card().content.as_str().unicode_len() > 0;
    match kind.target() {
        Target::NextLeft => match hunk {
            Hunk::Del(_) => Task::DeleteLocal(kind.id().clone()),
            _ => if has_content {
                Task::WriteLocal(hunk.card().clone())
            } else {
                Task::FetchAndWriteLocal(kind.id().clone())
            },
        },
        Target::NextRight => match hunk {
            Hunk::Del(card) => Task::DeleteRemote(card.clone()),
            Hunk::Add(card) => if has_content {
                Task::InsertRemote(card.clone())
            } else {
                Task::ReadAndInsertRemote(card.clone())
            },
            Hunk::Update(card) => if has_content {
                Task::UpdateRemote(card.clone())
            } else {
                Task::ReadAndUpdateRemote(card.clone())
            },
        },
        _ => Task::Nothing,
    }
}

/// What a run asks of its caller.
#[derive(Debug, PartialEq, Eq)]
pub enum Action {
    /// Carry out this hunk on the local directory or on the server.
    Apply(HunkKind, Hunk),
    /// Every hunk succeeded: store the two snapshots.
    Persist,
    /// Nothing is left to do.
    Stop,
}

/// A run of the synchronization: the hunks that the caller has to carry
/// out, how many of them it has carried out, and the two snapshots as they
/// will be once the run has succeeded.
#[derive(Debug)]
pub struct SyncRun {
    pending: Vec<(HunkKind, Hunk)>,
    done: usize,
    left: CardsMap,
    right: CardsMap,
    persisted: bool,
    failure: Option<CardamomError>,
}

impl SyncRun {
    #[verifier::type_invariant]
    spec fn well_formed(&self) -> bool {
        &&& self.done <= self.pending@.len()
        &&& self.persisted ==> self.done == self.pending@.len()
        &&& self.left.wf()
        &&& self.right.wf()
    }

    /// The hunks that the caller has to carry out, in their order.
    pub closed spec fn pending(&self) -> Seq<(HunkKind, Hunk)> {
        self.pending@
    }

    /// How many of the hunks were carried out.
    pub closed spec fn done(&self) -> nat {
        self.done as nat
    }

    /// The snapshot of the left side as it will be stored.
    pub closed spec fn left(&self) -> Map<Seq<char>, CardView> {
        self.left@
    }

    /// The snapshot of the right side as it will be stored.
    pub closed spec fn right(&self) -> Map<Seq<char>, CardView> {
        self.right@
    }

    /// Whether the snapshots were stored.
    pub closed spec fn persisted(&self) -> bool {
        self.persisted
    }

    /// The error that ended the run, if one did.
    pub closed spec fn failure(&self) -> Option<CardamomError> {
        self.failure
    }

    /// No more hunks are counted as carried out than there are, and the
    /// snapshots are stored only once every hunk is carried out. This holds
    /// of every run.
    pub open spec fn in_step(&self) -> bool {
        &&& self.done() <= self.pending().len()
        &&& self.persisted() ==> self.done() == self.pending().len()
    }

    /// What the run asks for in its state.
    pub open spec fn action_of(&self) -> Action {
        if self.failure() is Some {
            Action::Stop
        } else if self.done() < self.pending().len() {
            Action::Apply(self.pending()[self.done() as int].0, self.pending()[self.done() as int].1)
        } else if !self.persisted() {
            Action::Persist
        } else {
            Action::Stop
        }
    }

    /// What the caller has to do next: carry out the next hunk; store the
    /// snapshots once every hunk has succeeded; stop after that, or after
    /// the first error.
    pub fn action(&self) -> (action: Action)
        ensures
            action == self.action_of(),
            self.in_step(),
            action is Persist ==> self.done() == self.pending().len(),
    {
        proof {
            use_type_invariant(self);
        }
        if self.failure.is_some() {
            Action::Stop
        } else if self.done < self.pending.len() {
            Action::Apply(self.pending[self.done].0.clone(), self.pending[self.done].1.clone())
        } else if !self.persisted {
            Action::Persist
        } else {
            Action::Stop
        }
    }

    /// Takes note of what came of the action that was asked for. After an
    /// error the hunks that remain are given up and the snapshots are not
    /// stored.
    pub fn report(&mut self, outcome: Result<(), CardamomError>)
        ensures
            old(self).in_step(),
            final(self).in_step(),
            final(self).pending() == old(self).pending(),
            final(self).left() == old(self).left(),
            final(self).right() == old(self).right(),
            match old(self).action_of() {
                Action::Stop => final(self).done() == old(self).done() && final(self).persisted()
                    == old(self).persisted() && final(self).failure() == old(self).failure(),
                Action::Apply(_, _) => match outcome {
                    Ok(_) => final(self).done() == old(self).done() + 1 && final(self).persisted()
                        == old(self).persisted() && final(self).failure() is None,
                    Err(error) => {
                        &&& final(self).done() == old(self).done()
                        &&& final(self).persisted() == old(self).persisted()
                        &&& final(self).failure() == Some(error)
                    },
                },
                Action::Persist => match outcome {
                    Ok(_) => final(self).done() == old(self).done() && final(self).persisted()
                        && final(self).failure() is None,
                    Err(error) => {
                        &&& final(self).done() == old(self).done()
                        &&& !final(self).persisted()
                        &&& final(self).failure() == Some(error)
                    },
                },
            },
    {
        proof {
            use_type_invariant(&*self);
        }
        if self.failure.is_some() {
            return ;
        }
        if self.done < self.pending.len() {
            match outcome {
                Ok(_) => {
                    self.done = self.done + 1;
                },
                Err(error) => {
                    self.failure = Some(error);
                },
            }
        } else if !self.persisted {
            match outcome {
                Ok(_) => {
                    self.persisted = true;
                },
                Err(error) => {
                    self.failure = Some(error);
                },
            }
        }
    }

    /// The snapshot of the left side, to be stored when the run asks for it.
    pub fn left_snapshot(&self) -> (cards: &CardsMap)
        ensures
            cards.wf(),
            cards@ == self.left(),
    {
        proof {
            use_type_invariant(self);
        }
        &self.left
    }

    /// The snapshot of the right side, to be stored when the run asks for it.
    pub fn right_snapshot(&self) -> (cards: &CardsMap)
        ensures
            cards.wf(),
            cards@ == self.right(),
    {
        proof {
            use_type_invariant(self);
        }
        &self.right
    }

    /// How the run ended: well once the snapshots are stored, with the
    /// first error if there was one; `None` while it is under way.
    pub fn result(&self) -> (result: Option<Result<(), &CardamomError>>)
        ensures
            self.in_step(),
            match result {
                Some(Err(error)) => self.failure() == Some(*error),
                Some(Ok(_)) => self.failure() is None && self.persisted() && self.done()
                    == self.pending().len(),
                None => self.failure() is None && !(self.persisted() && self.done()
                    == self.pending().len()),
            },
    {
        proof {
            use_type_invariant(self);
        }
        match &self.failure {
            Some(error) => Some(Err(error)),
            None => if self.persisted && self.done == self.pending.len() {
                Some(Ok(()))
            } else {
                None
            },
        }
    }
}

/// Starts a run between a left and a right side: computes the patch, brings
/// the two snapshots of the last run up to date with the hunks that are
/// aimed at them, and lays out the hunks that the caller has to carry out on
/// the local directory and on the server.
pub fn sync<L: Cards, R: Cards>(left: &L, right: &R) -> (run: SyncRun)
    ensures
        ({
            let patch = patch_of(
                left.prev_cards(),
                left.next_cards(),
                right.prev_cards(),
                right.next_cards(),
            );
            &&& is_agenda(run.pending(), patch)
            &&& run.done() == 0
            &&& run.in_step()
            &&& run.left() == applied(
                left.prev_cards(),
                Target::PrevLeft,
                patch,
            )
            &&& run.right() == applied(
                right.prev_cards(),
                Target::PrevRight,
                patch,
            )
            &&& !run.persisted()
            &&& run.failure() is None
        }),
{
    let patch = Patch::between(left.prev(), left.next(), right.prev(), right.next());
    let mut left_snapshot = left.prev().clone();
    let mut right_snapshot = right.prev().clone();
    patch.apply(Target::PrevLeft, &mut left_snapshot);
    patch.apply(Target::PrevRight, &mut right_snapshot);
    SyncRun {
        pending: agenda(&patch),
        done: 0,
        left: left_snapshot,
        right: right_snapshot,
        persisted: false,
        failure: None,
    }
}

} // verus!
