//! Bringing images into a destination directory: what is done with each
//! item, what came of it, and what a run leaves behind.
//!
//! An item whose destination exists is skipped; this alone keeps a second
//! run from doing the work of the first again. Every other item is
//! transferred on its own, and what comes of it touches no other item.

use vstd::prelude::*;

verus! {

/// Where an image comes from.
#[derive(Debug, PartialEq, Eq, Clone)]
pub enum Source {
    RemoteUrl(String),
    LocalPath(String),
}

/// One piece of work: an image and the path of the file it is to become.
#[derive(Debug, PartialEq, Eq, Clone)]
pub struct TransferItem {
    pub source: Source,
    pub destination: String,
}

/// What is done with an item.
#[derive(Debug, PartialEq, Eq, Clone)]
pub enum Action {
    Skip,
    Download { url: String, to: String },
    Copy { from: String, to: String },
}

/// What came of an item.
#[derive(Debug, PartialEq, Eq, Clone)]
pub enum Outcome {
    Skipped,
    Transferred,
    Failed(String),
}

pub enum SourceView {
    RemoteUrl(Seq<char>),
    LocalPath(Seq<char>),
}

pub struct ItemView {
    pub source: SourceView,
    pub destination: Seq<char>,
}

pub enum ActionView {
    Skip,
    Download { url: Seq<char>, to: Seq<char> },
    Copy { from: Seq<char>, to: Seq<char> },
}

pub enum OutcomeView {
    Skipped,
    Transferred,
    Failed(Seq<char>),
}

impl View for Source {
    type V = SourceView;

    open spec fn view(&self) -> SourceView {
        match self {
            Source::RemoteUrl(u) => SourceView::RemoteUrl(u@),
            Source::LocalPath(p) => SourceView::LocalPath(p@),
        }
    }
}

impl View for TransferItem {
    type V = ItemView;

    open spec fn view(&self) -> ItemView {
        ItemView { source: self.source@, destination: self.destination@ }
    }
}

impl View for Action {
    type V = ActionView;

    open spec fn view(&self) -> ActionView {
        match self {
            Action::Skip => ActionView::Skip,
            Action::Download { url, to } => ActionView::Download { url: url@, to: to@ },
            Action::Copy { from, to } => ActionView::Copy { from: from@, to: to@ },
        }
    }
}

impl View for Outcome {
    type V = OutcomeView;

    open spec fn view(&self) -> OutcomeView {
        match self {
            Outcome::Skipped => OutcomeView::Skipped,
            Outcome::Transferred => OutcomeView::Transferred,
            Outcome::Failed(why) => OutcomeView::Failed(why@),
        }
    }
}

/// What is done with an item: nothing where its destination exists, else
/// a download or a copy to the destination, as its source asks.
pub open spec fn action_of(item: ItemView, exists: bool) -> ActionView {
    if exists {
        ActionView::Skip
    } else {
        match item.source {
            SourceView::RemoteUrl(u) => ActionView::Download { url: u, to: item.destination },
            SourceView::LocalPath(p) => ActionView::Copy { from: p, to: item.destination },
        }
    }
}

/// What came of an item: it was skipped, or its transfer failed for the
/// reason given, or it was transferred.
pub open spec fn outcome_of(action: ActionView, error: Option<Seq<char>>) -> OutcomeView {
    match action {
        ActionView::Skip => OutcomeView::Skipped,
        _ => match error {
            Some(why) => OutcomeView::Failed(why),
            None => OutcomeView::Transferred,
        },
    }
}

/// The positions of the items that failed, in their order.
pub open spec fn failed(outcomes: Seq<OutcomeView>) -> Seq<int>
    decreases outcomes.len(),
{
    if outcomes.len() == 0 {
        Seq::empty()
    } else if outcomes.last() is Failed {
        failed(outcomes.drop_last()).push(outcomes.len() - 1)
    } else {
        failed(outcomes.drop_last())
    }
}

/// What came of each item in a run over the files that exist, where the
/// transfers go as `errors` says.
pub open spec fn run(
    existing: Set<Seq<char>>,
    items: Seq<ItemView>,
    errors: Seq<Option<Seq<char>>>,
) -> Seq<OutcomeView> {
    Seq::new(
        items.len(),
        |i: int| outcome_of(action_of(items[i], existing.contains(items[i].destination)), errors[i]),
    )
}

/// The files that exist after a run: those that did before, and the
/// destination of every item that was transferred.
pub open spec fn existing_after(
    existing: Set<Seq<char>>,
    items: Seq<ItemView>,
    outcomes: Seq<OutcomeView>,
) -> Set<Seq<char>> {
    Set::new(
        |path: Seq<char>|
            existing.contains(path) || exists|i: int|
                0 <= i < items.len() && #[trigger] outcomes[i] is Transferred
                    && items[i].destination == path,
    )
}

pub open spec fn outcome_views(outcomes: Seq<Outcome>) -> Seq<OutcomeView> {
    outcomes.map_values(|o: Outcome| o@)
}

/// Decides what is done with an item, given whether its destination
/// exists.
pub fn plan(item: &TransferItem, exists: bool) -> (r: Action)
    ensures
        r@ == action_of(item@, exists),
{
    if exists {
        Action::Skip
    } else {
        match &item.source {
            Source::RemoteUrl(u) => Action::Download { url: u.clone(), to: item.destination.clone() },
            Source::LocalPath(p) => Action::Copy { from: p.clone(), to: item.destination.clone() },
        }
    }
}

/// Records what came of an item, given what was to be done with it and
/// the reason for which its transfer failed, if it did.
pub fn conclude(action: &Action, error: Option<String>) -> (r: Outcome)
    ensures
        r@ == outcome_of(action@, error.deep_view()),
{
    match action {
        Action::Skip => Outcome::Skipped,
        _ => match error {
            Some(why) => Outcome::Failed(why),
            None => Outcome::Transferred,
        },
    }
}

/// The positions of the items that failed, in their order: the ones to
/// report.
pub fn failures(outcomes: &Vec<Outcome>) -> (r: Vec<usize>)
    ensures
        r@.map_values(|i: usize| i as int) == failed(outcome_views(outcomes@)),
{
    let ghost all = outcome_views(outcomes@);
    let mut r: Vec<usize> = Vec::new();
    let mut i: usize = 0;
    assert(all.take(0) =~= Seq::<OutcomeView>::empty());
    assert(r@.map_values(|i: usize| i as int) =~= Seq::<int>::empty());
    while i < outcomes.len()
        invariant
            i <= outcomes.len(),
            all == outcome_views(outcomes@),
            r@.map_values(|i: usize| i as int) == failed(all.take(i as int)),
        decreases outcomes.len() - i,
    {
        let ghost before = r@.map_values(|i: usize| i as int);
        proof {
            assert(all.take(i + 1).drop_last() =~= all.take(i as int));
            assert(all.take(i + 1).last() == outcomes@[i as int]@);
        }
        match &outcomes[i] {
            Outcome::Failed(_) => {
                r.push(i);
                assert(r@.map_values(|i: usize| i as int) =~= before.push(i as int));
            },
            _ => {},
        }
        i = i + 1;
    }
    assert(all.take(i as int) =~= all);
    r
}

/// What comes of an item in a run depends on that item alone: on whether
/// its destination existed and on how its own transfer went.
pub proof fn lemma_items_isolated(
    existing: Set<Seq<char>>,
    items: Seq<ItemView>,
    errors: Seq<Option<Seq<char>>>,
    other: Seq<Option<Seq<char>>>,
    k: int,
)
    requires
        0 <= k < items.len(),
        errors[k] == other[k],
    ensures
        run(existing, items, errors)[k] == run(existing, items, other)[k],
{
}

/// An item that did not fail in a run is skipped in the next: its
/// destination exists by then.
pub proof fn lemma_not_again(
    existing: Set<Seq<char>>,
    items: Seq<ItemView>,
    errors: Seq<Option<Seq<char>>>,
    later: Seq<Option<Seq<char>>>,
    k: int,
)
    requires
        0 <= k < items.len(),
        !(run(existing, items, errors)[k] is Failed),
    ensures
        run(existing_after(existing, items, run(existing, items, errors)), items, later)[k]
            is Skipped,
{
    let first = run(existing, items, errors);
    let after = existing_after(existing, items, first);
    if !existing.contains(items[k].destination) {
        assert(first[k] is Transferred);
    }
    assert(after.contains(items[k].destination));
}

/// A second run over the same items, after a first in which no transfer
/// failed, transfers nothing: every item is skipped.
pub proof fn lemma_second_run_skips(
    existing: Set<Seq<char>>,
    items: Seq<ItemView>,
    later: Seq<Option<Seq<char>>>,
)
    ensures
        ({
            let none = Seq::new(items.len(), |i: int| None::<Seq<char>>);
            let first = run(existing, items, none);
            let second = run(existing_after(existing, items, first), items, later);
            forall|k: int| 0 <= k < items.len() ==> #[trigger] second[k] is Skipped
        }),
{
    let none = Seq::new(items.len(), |i: int| None::<Seq<char>>);
    let first = run(existing, items, none);
    let second = run(existing_after(existing, items, first), items, later);
    assert forall|k: int| 0 <= k < items.len() implies #[trigger] second[k] is Skipped by {
        lemma_not_again(existing, items, none, later, k);
    }
}

/// The failures among outcomes of which one alone is a failure are that
/// one.
proof fn lemma_failed_one(outcomes: Seq<OutcomeView>, k: int)
    requires
        forall|i: int| 0 <= i < outcomes.len() ==> (#[trigger] outcomes[i] is Failed <==> i == k),
    ensures
        failed(outcomes) == if 0 <= k < outcomes.len() {
            seq![k]
        } else {
            Seq::<int>::empty()
        },
    decreases outcomes.len(),
{
    if outcomes.len() > 0 {
        let rest = outcomes.drop_last();
        assert forall|i: int| 0 <= i < rest.len() implies (#[trigger] rest[i] is Failed <==> i
            == k) by {
            assert(rest[i] == outcomes[i]);
        }
        lemma_failed_one(rest, k);
        assert(outcomes.last() == outcomes[outcomes.len() - 1]);
        if k == outcomes.len() - 1 {
            assert(failed(outcomes) =~= seq![k]);
        }
    }
}

/// Where, of the items that a run transfers, the transfer of one alone
/// fails, that item is the one failure, and every other item's destination
/// exists after the run.
pub proof fn lemma_one_failure(
    existing: Set<Seq<char>>,
    items: Seq<ItemView>,
    errors: Seq<Option<Seq<char>>>,
    k: int,
)
    requires
        0 <= k < items.len(),
        !existing.contains(items[k].destination),
        forall|i: int| 0 <= i < items.len() ==> (#[trigger] errors[i] is Some <==> i == k),
    ensures
        failed(run(existing, items, errors)) == seq![k],
        forall|i: int|
            0 <= i < items.len() && i != k ==> existing_after(
                existing,
                items,
                run(existing, items, errors),
            ).contains(#[trigger] items[i].destination),
{
    let outcomes = run(existing, items, errors);
    assert forall|i: int| 0 <= i < outcomes.len() implies (#[trigger] outcomes[i] is Failed <==> i
        == k) by {
        assert(errors[i] is Some <==> i == k);
    }
    lemma_failed_one(outcomes, k);
    let after = existing_after(existing, items, outcomes);
    assert forall|i: int| 0 <= i < items.len() && i != k implies after.contains(
        #[trigger] items[i].destination,
    ) by {
        assert(errors[i] is None);
        if !existing.contains(items[i].destination) {
            assert(outcomes[i] is Transferred);
        }
    }
}

} // verus!
