use cardamom::card::{Card, Cards, CardsMap, Date};
use cardamom::error::CardamomError;
use cardamom::sync::{Hunk, HunkKind, Patch};
use cardamom::{agenda, all_ids, build_patch, task, Action, Task};

struct Side {
    prev: CardsMap,
    next: CardsMap,
}

impl Cards for Side {
    fn prev(&self) -> &CardsMap {
        &self.prev
    }

    fn next(&self) -> &CardsMap {
        &self.next
    }
}

fn card(id: &str, secs: i64) -> Card {
    Card::new(id.to_string(), Date::new(secs, 0))
}

fn tagged(id: &str) -> Card {
    Card {
        id: id.to_string(),
        etag: id.to_string(),
        date: Date::new(1641081600, 0),
        content: String::new(),
    }
}

fn retagged(id: &str, etag: &str, secs: i64) -> Card {
    Card {
        id: id.to_string(),
        etag: etag.to_string(),
        date: Date::new(secs, 0),
        content: String::new(),
    }
}

fn sides() -> (Side, Side) {
    let left = Side {
        prev: CardsMap::from_cards(vec![card("gone-right", 3), card("stale", 1)]),
        next: CardsMap::from_cards(vec![card("gone-right", 4), card("new-left", 10)]),
    };
    let right = Side {
        prev: CardsMap::from_cards(vec![card("gone-right", 3), card("kept", 5)]),
        next: CardsMap::from_cards(vec![card("new-right", 12), card("kept", 6)]),
    };
    (left, right)
}

#[test]
fn lib_test_build_patch() {
    let local = CardsMap::from_cards(vec![
        tagged("everywhere-same"),
        tagged("local-only"),
        tagged("local-and-cache"),
    ]);
    let cache = CardsMap::from_cards(vec![
        tagged("everywhere-same"),
        tagged("cache-only"),
        tagged("local-and-cache"),
        tagged("remote-and-cache"),
    ]);
    let remote = CardsMap::from_cards(vec![
        tagged("everywhere-same"),
        tagged("remote-only"),
        tagged("remote-and-cache"),
    ]);

    let patch = build_patch(local, cache, remote);

    assert!(patch.contains(&cardamom::Hunk::Remote(cardamom::HunkKind::Add(tagged("local-only")))));
    assert!(patch.contains(&cardamom::Hunk::Cache(cardamom::HunkKind::Add(tagged("local-only")))));
    assert!(patch.contains(&cardamom::Hunk::Cache(cardamom::HunkKind::Del("cache-only".into()))));
    assert!(patch.contains(&cardamom::Hunk::Local(cardamom::HunkKind::Add(tagged("remote-only")))));
    assert!(patch.contains(&cardamom::Hunk::Cache(cardamom::HunkKind::Add(tagged("remote-only")))));
    assert!(patch.contains(&cardamom::Hunk::Local(cardamom::HunkKind::Del("local-and-cache".into()))));
    assert!(patch.contains(&cardamom::Hunk::Cache(cardamom::HunkKind::Del("local-and-cache".into()))));
    assert!(patch.contains(&cardamom::Hunk::Remote(cardamom::HunkKind::Del("remote-and-cache".into()))));
    assert!(patch.contains(&cardamom::Hunk::Cache(cardamom::HunkKind::Del("remote-and-cache".into()))));
    assert_eq!(9, patch.len());
}

#[test]
fn build_patch_of_nothing_is_empty() {
    assert_eq!(
        Vec::<cardamom::Hunk>::new(),
        build_patch(CardsMap::new(), CardsMap::new(), CardsMap::new())
    );
}

#[test]
fn build_patch_ignores_a_card_that_the_snapshot_lacks() {
    let local = CardsMap::from_cards(vec![tagged("both")]);
    let remote = CardsMap::from_cards(vec![retagged("both", "other", 5)]);
    assert_eq!(Vec::<cardamom::Hunk>::new(), build_patch(local, CardsMap::new(), remote));
}

#[test]
fn build_patch_follows_the_side_whose_etag_changed() {
    let old = retagged("a", "1", 10);
    let local_new = retagged("a", "2", 30);
    let remote_new = retagged("a", "3", 20);
    let of = |card: &Card| CardsMap::from_cards(vec![card.clone()]);

    assert_eq!(
        vec![
            cardamom::Hunk::Remote(cardamom::HunkKind::Update(local_new.clone())),
            cardamom::Hunk::Cache(cardamom::HunkKind::Update(local_new.clone())),
        ],
        build_patch(of(&local_new), of(&old), of(&old))
    );
    assert_eq!(
        vec![
            cardamom::Hunk::Local(cardamom::HunkKind::Update(remote_new.clone())),
            cardamom::Hunk::Cache(cardamom::HunkKind::Update(remote_new.clone())),
        ],
        build_patch(of(&old), of(&old), of(&remote_new))
    );
    // both changed: the later date wins, the remote side where the dates are equal
    assert_eq!(
        vec![
            cardamom::Hunk::Remote(cardamom::HunkKind::Update(local_new.clone())),
            cardamom::Hunk::Cache(cardamom::HunkKind::Update(local_new.clone())),
        ],
        build_patch(of(&local_new), of(&old), of(&remote_new))
    );
    let remote_tie = retagged("a", "3", 30);
    assert_eq!(
        vec![
            cardamom::Hunk::Local(cardamom::HunkKind::Update(remote_tie.clone())),
            cardamom::Hunk::Cache(cardamom::HunkKind::Update(remote_tie.clone())),
        ],
        build_patch(of(&local_new), of(&old), of(&remote_tie))
    );
    // a changed date alone is no change
    let redated = retagged("a", "1", 99);
    assert_eq!(
        Vec::<cardamom::Hunk>::new(),
        build_patch(of(&redated), of(&old), of(&old))
    );
}

#[test]
fn all_ids_holds_each_id_once() {
    let local = CardsMap::from_cards(vec![tagged("a"), tagged("b")]);
    let cache = CardsMap::from_cards(vec![tagged("b"), tagged("c")]);
    let remote = CardsMap::from_cards(vec![tagged("c"), tagged("a"), tagged("d")]);
    let mut ids = all_ids(&local, &cache, &remote);
    ids.sort();
    assert_eq!(vec!["a", "b", "c", "d"], ids);
}

#[test]
fn the_agenda_holds_the_outside_hunks_in_turn() {
    let (left, right) = sides();
    let patch = Patch::between(&left.prev, &left.next, &right.prev, &right.next);
    let pending = agenda(&patch);

    let kinds: Vec<&HunkKind> = pending.iter().map(|(kind, _)| kind).collect();
    assert_eq!(4, pending.len(), "{:?}", pending);
    assert_eq!(
        (HunkKind::NextLeft("gone-right".into()), Hunk::Del(card("gone-right", 4))),
        pending[0]
    );
    assert_eq!(
        (HunkKind::NextLeft("kept".into()), Hunk::Add(card("kept", 6))),
        *pending
            .iter()
            .find(|(kind, _)| kind == &HunkKind::NextLeft("kept".into()))
            .unwrap()
    );
    assert!(kinds.contains(&&HunkKind::NextRight("new-left".into())));
    assert!(kinds.contains(&&HunkKind::NextLeft("new-right".into())));
    for (kind, hunk) in &pending {
        assert_eq!(Some(hunk), patch.get(kind));
    }

    let turn = |hunk: &Hunk| match hunk {
        Hunk::Del(_) => 0,
        Hunk::Update(_) => 1,
        Hunk::Add(_) => 2,
    };
    for pair in pending.windows(2) {
        assert!(turn(&pair[0].1) <= turn(&pair[1].1));
    }
}

#[test]
fn the_agenda_puts_replacements_between_deletions_and_additions() {
    let left = Side {
        prev: CardsMap::from_cards(vec![card("gone", 3)]),
        next: CardsMap::from_cards(vec![card("gone", 4), card("both", 1), card("mine", 2)]),
    };
    let right = Side {
        prev: CardsMap::from_cards(vec![card("gone", 3)]),
        next: CardsMap::from_cards(vec![card("both", 5)]),
    };
    let patch = Patch::between(&left.prev, &left.next, &right.prev, &right.next);
    assert_eq!(
        vec![
            (HunkKind::NextLeft("gone".into()), Hunk::Del(card("gone", 4))),
            (HunkKind::NextLeft("both".into()), Hunk::Update(card("both", 5))),
            (HunkKind::NextRight("mine".into()), Hunk::Add(card("mine", 2))),
        ],
        agenda(&patch)
    );
}

#[test]
fn a_run_that_succeeds() {
    let (left, right) = sides();
    let mut run = cardamom::sync(&left, &right);
    assert_eq!(None, run.result());

    // the snapshots are brought up to date at once
    assert_eq!(3, run.left_snapshot().len());
    assert_eq!(Some(&card("new-left", 10)), run.left_snapshot().get("new-left"));
    assert_eq!(Some(&card("new-right", 12)), run.left_snapshot().get("new-right"));
    assert_eq!(Some(&card("kept", 6)), run.left_snapshot().get("kept"));
    assert_eq!(None, run.left_snapshot().get("stale"));
    assert_eq!(None, run.left_snapshot().get("gone-right"));
    assert_eq!(3, run.right_snapshot().len());
    assert_eq!(Some(&card("kept", 6)), run.right_snapshot().get("kept"));
    assert_eq!(None, run.right_snapshot().get("gone-right"));

    let mut applied = Vec::new();
    loop {
        match run.action() {
            Action::Apply(kind, hunk) => {
                applied.push((kind, hunk));
                run.report(Ok(()));
            }
            Action::Persist => break,
            Action::Stop => panic!("stopped before the snapshots were stored"),
        }
    }
    assert_eq!(4, applied.len());
    assert_eq!(
        (HunkKind::NextLeft("gone-right".into()), Hunk::Del(card("gone-right", 4))),
        applied[0]
    );
    assert_eq!(None, run.result());
    assert_eq!(Action::Persist, run.action());
    run.report(Ok(()));
    assert_eq!(Action::Stop, run.action());
    assert_eq!(Some(Ok(())), run.result());
    run.report(Err(CardamomError::UnknownError));
    assert_eq!(Some(Ok(())), run.result());
}

#[test]
fn a_run_stops_at_the_first_error() {
    let (left, right) = sides();
    let mut run = cardamom::sync(&left, &right);
    assert!(matches!(run.action(), Action::Apply(_, _)));
    run.report(Ok(()));
    assert!(matches!(run.action(), Action::Apply(_, _)));
    let error = CardamomError::DeleteCardError("kept".to_string(), "412".to_string());
    run.report(Err(CardamomError::DeleteCardError("kept".to_string(), "412".to_string())));
    assert_eq!(Action::Stop, run.action());
    assert_eq!(Some(Err(&error)), run.result());
    run.report(Ok(()));
    assert_eq!(Action::Stop, run.action());
    assert_eq!(Some(Err(&error)), run.result());
}

#[test]
fn a_run_whose_snapshots_cannot_be_stored() {
    let left = Side { prev: CardsMap::new(), next: CardsMap::new() };
    let right = Side { prev: CardsMap::new(), next: CardsMap::new() };
    let mut run = cardamom::sync(&left, &right);
    assert_eq!(Action::Persist, run.action());
    let error = CardamomError::ReadCachedCardsError("/p".to_string(), "full".to_string());
    run.report(Err(CardamomError::ReadCachedCardsError("/p".to_string(), "full".to_string())));
    assert_eq!(Action::Stop, run.action());
    assert_eq!(Some(Err(&error)), run.result());
}

fn with_content(id: &str, content: &str) -> Card {
    Card {
        id: id.to_string(),
        etag: "tag".to_string(),
        date: Date::new(7, 0),
        content: content.to_string(),
    }
}

#[test]
fn the_task_of_a_hunk_for_the_local_directory() {
    let bare = card("a", 1);
    let full = with_content("a", "BEGIN:VCARD");
    let place = HunkKind::NextLeft("a".into());
    assert_eq!(Task::DeleteLocal("a".into()), task(&place, &Hunk::Del(full.clone())));
    assert_eq!(Task::WriteLocal(full.clone()), task(&place, &Hunk::Add(full.clone())));
    assert_eq!(Task::WriteLocal(full.clone()), task(&place, &Hunk::Update(full.clone())));
    assert_eq!(Task::FetchAndWriteLocal("a".into()), task(&place, &Hunk::Add(bare.clone())));
    assert_eq!(Task::FetchAndWriteLocal("a".into()), task(&place, &Hunk::Update(bare)));
}

#[test]
fn the_task_of_a_hunk_for_the_server() {
    let bare = card("a", 1);
    let full = with_content("a", "BEGIN:VCARD");
    let place = HunkKind::NextRight("a".into());
    assert_eq!(Task::DeleteRemote(bare.clone()), task(&place, &Hunk::Del(bare.clone())));
    assert_eq!(Task::InsertRemote(full.clone()), task(&place, &Hunk::Add(full.clone())));
    assert_eq!(Task::UpdateRemote(full.clone()), task(&place, &Hunk::Update(full.clone())));
    assert_eq!(Task::ReadAndInsertRemote(bare.clone()), task(&place, &Hunk::Add(bare.clone())));
    assert_eq!(Task::ReadAndUpdateRemote(bare.clone()), task(&place, &Hunk::Update(bare)));
}

#[test]
fn a_hunk_for_a_snapshot_asks_for_nothing() {
    let full = with_content("a", "BEGIN:VCARD");
    for place in [HunkKind::PrevLeft("a".into()), HunkKind::PrevRight("a".into())] {
        assert_eq!(Task::Nothing, task(&place, &Hunk::Del(full.clone())));
        assert_eq!(Task::Nothing, task(&place, &Hunk::Add(full.clone())));
        assert_eq!(Task::Nothing, task(&place, &Hunk::Update(full.clone())));
    }
}

#[test]
fn every_hunk_of_the_agenda_has_a_task() {
    let (left, right) = sides();
    let patch = Patch::between(&left.prev, &left.next, &right.prev, &right.next);
    for (kind, hunk) in agenda(&patch) {
        assert_ne!(Task::Nothing, task(&kind, &hunk));
    }
}
