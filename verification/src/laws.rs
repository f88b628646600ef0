//! What holds of every store that `create` and `complete` have produced.

use vstd::prelude::*;
use crate::task::TaskView;
use crate::session::{ActionView, EventView, PhaseView, SessionView, open_names, step_spec};
use crate::snapshot::{snapshot_of, snapshot_text};
use crate::store::{
    NameError, StoreView, first_named, first_with_id, has_id, has_name, name_check,
};

verus! {

/// One mutation of the store, with the time at which it happens.
pub enum Operation {
    Create { name: Seq<char>, description: Seq<char>, now: nat },
    Complete { id: nat, now: nat },
}

impl StoreView {
    /// The store after one operation.
    pub open spec fn apply(self, op: Operation) -> StoreView {
        match op {
            Operation::Create { name, description, now } => self.create(name, description, now),
            Operation::Complete { id, now } => self.complete(id, now),
        }
    }

    /// The store after a sequence of operations, the first one first.
    pub open spec fn replay(self, ops: Seq<Operation>) -> StoreView
        decreases ops.len(),
    {
        if ops.len() == 0 {
            self
        } else {
            self.replay(ops.drop_last()).apply(ops.last())
        }
    }
}

/// Where a task at `bound` has the identifier, a first such task stands at or
/// before `bound`.
proof fn lemma_first_at_or_before(tasks: Seq<TaskView>, id: nat, bound: int) -> (at: int)
    requires
        0 <= bound < tasks.len(),
        tasks[bound].id == id,
    ensures
        first_with_id(tasks, id, at),
        at <= bound,
    decreases bound,
{
    if exists|j: int| 0 <= j < bound && tasks[j].id == id {
        let j = choose|j: int| 0 <= j < bound && tasks[j].id == id;
        lemma_first_at_or_before(tasks, id, j)
    } else {
        bound
    }
}

/// The position that `complete` picks is the first one with the identifier.
pub proof fn lemma_completed_position(s: StoreView, id: nat) -> (at: int)
    requires
        has_id(s.tasks, id),
    ensures
        first_with_id(s.tasks, id, at),
        at == choose|at: int| first_with_id(s.tasks, id, at),
{
    let some = choose|i: int| 0 <= i < s.tasks.len() && s.tasks[i].id == id;
    let least = lemma_first_at_or_before(s.tasks, id, some);
    assert(first_with_id(s.tasks, id, least));
    choose|at: int| first_with_id(s.tasks, id, at)
}

/// Creating a task keeps the identifiers unique and dense: the new task gets
/// the one identifier that is free.
pub proof fn lemma_create_keeps_ids(s: StoreView, name: Seq<char>, description: Seq<char>, now: nat)
    requires
        s.ids_dense(),
    ensures
        s.create(name, description, now).ids_dense(),
{
    let t = s.create(name, description, now);
    let n = s.tasks.len() as int;
    assert forall|i: int| 0 <= i < t.all().len() implies t.all()[i].id < t.count() && (i != n
        ==> t.all()[i] == s.all()[if i < n { i } else { i - 1 }]) && (i == n ==> t.all()[i].id
        == s.count()) by {
        if i < n {
            assert(t.all()[i] == s.all()[i]);
        } else if i > n {
            assert(t.all()[i] == s.all()[i - 1]);
        }
    }
    assert forall|i: int, j: int| 0 <= i < j < t.all().len() implies t.all()[i].id != t.all()[j].id by {
        let oi = if i < n { i } else { i - 1 };
        let oj = if j < n { j } else { j - 1 };
        if i != n && j != n {
            assert(s.all()[oi].id != s.all()[oj].id);
        } else if i == n {
            assert(s.all()[oj].id < s.count());
        } else {
            assert(s.all()[oi].id < s.count());
        }
    }
}

/// Completing a task keeps the identifiers unique and dense: the task moves,
/// its identifier moves with it.
pub proof fn lemma_complete_keeps_ids(s: StoreView, id: nat, now: nat)
    requires
        s.ids_dense(),
    ensures
        s.complete(id, now).ids_dense(),
{
    if has_id(s.tasks, id) {
        let at = lemma_completed_position(s, id);
        let t = s.complete(id, now);
        let n = s.tasks.len() as int;
        let last = t.all().len() - 1;
        assert(t.count() == s.count());
        assert forall|i: int| 0 <= i < t.all().len() implies t.all()[i].id == s.all()[origin(
            at,
            last,
            i,
        )].id by {
            if i < at {
                assert(t.all()[i] == s.all()[i]);
            } else if i < last {
                assert(t.all()[i] == s.all()[i + 1]);
            } else {
                assert(t.all()[i] == s.tasks[at].closed_at(now));
                assert(s.all()[at] == s.tasks[at]);
            }
        }
        assert forall|i: int, j: int| 0 <= i < j < t.all().len() implies t.all()[i].id != t.all()[j].id by {
            let oi = origin(at, last, i);
            let oj = origin(at, last, j);
            assert(oi != oj);
            if oi < oj {
                assert(s.all()[oi].id != s.all()[oj].id);
            } else {
                assert(s.all()[oj].id != s.all()[oi].id);
            }
        }
        assert forall|i: int| 0 <= i < t.all().len() implies t.all()[i].id < t.count() by {
            assert(s.all()[origin(at, last, i)].id < s.count());
        }
    }
}

/// Where the task at position `i` stood before the task at `at` was moved to
/// the position `last`.
pub open spec fn origin(at: int, last: int, i: int) -> int {
    if i < at {
        i
    } else if i < last {
        i + 1
    } else {
        at
    }
}

/// For every sequence of create and complete operations on a store whose
/// identifiers are unique and dense, such as the empty one, the identifiers
/// are unique and dense afterwards, and so after every step on the way.
pub proof fn lemma_ids_stay_unique(start: StoreView, ops: Seq<Operation>)
    requires
        start.ids_dense(),
    ensures
        start.replay(ops).ids_dense(),
        start.replay(ops).ids_unique(),
    decreases ops.len(),
{
    if ops.len() > 0 {
        lemma_ids_stay_unique(start, ops.drop_last());
        let before = start.replay(ops.drop_last());
        match ops.last() {
            Operation::Create { name, description, now } => {
                lemma_create_keeps_ids(before, name, description, now);
            },
            Operation::Complete { id, now } => {
                lemma_complete_keeps_ids(before, id, now);
            },
        }
    }
}

/// Whatever sequence of create and complete operations an empty store goes
/// through, no identifier occurs twice among its open and completed tasks.
pub proof fn lemma_ids_unique_from_empty(ops: Seq<Operation>)
    ensures
        StoreView::empty().replay(ops).ids_unique(),
{
    lemma_ids_stay_unique(StoreView::empty(), ops);
}

/// The empty store is valid.
pub proof fn lemma_empty_is_valid()
    ensures
        StoreView::empty().valid(),
{
}

/// Creating a task whose name is not empty and not that of an open task
/// keeps the store valid, and adds exactly one open task.
pub proof fn lemma_create_keeps_valid(
    s: StoreView,
    name: Seq<char>,
    description: Seq<char>,
    now: nat,
)
    requires
        s.valid(),
        name.len() > 0,
        s.lookup(name).is_none(),
    ensures
        s.create(name, description, now).valid(),
        s.create(name, description, now).tasks.len() == s.tasks.len() + 1,
        s.create(name, description, now).tasks.last() == TaskView::fresh(
            s.count(),
            name,
            description,
            now,
        ),
        s.create(name, description, now).completed == s.completed,
{
    lemma_create_keeps_ids(s, name, description, now);
    let t = s.create(name, description, now);
    assert(!has_name(s.tasks, name));
    assert forall|i: int, j: int| 0 <= i < j < t.tasks.len() implies t.tasks[i].name
        != t.tasks[j].name by {
        if j < s.tasks.len() {
            assert(s.tasks[i].name != s.tasks[j].name);
        } else {
            assert(t.tasks[i] == s.tasks[i]);
        }
    }
}

/// Completing keeps the store valid, whatever the identifier.
pub proof fn lemma_complete_keeps_valid(s: StoreView, id: nat, now: nat)
    requires
        s.valid(),
    ensures
        s.complete(id, now).valid(),
{
    lemma_complete_keeps_ids(s, id, now);
    if has_id(s.tasks, id) {
        let at = lemma_completed_position(s, id);
        let t = s.complete(id, now);
        assert forall|i: int| 0 <= i < t.tasks.len() implies t.tasks[i] == s.tasks[if i < at {
            i
        } else {
            i + 1
        }] by {}
        assert forall|i: int, j: int| 0 <= i < j < t.tasks.len() implies t.tasks[i].name
            != t.tasks[j].name by {
            let oi = if i < at { i } else { i + 1 };
            let oj = if j < at { j } else { j + 1 };
            assert(s.tasks[oi].name != s.tasks[oj].name);
        }
        assert forall|i: int| 0 <= i < t.completed.len() implies t.completed[i].completed by {
            if i < s.completed.len() {
                assert(t.completed[i] == s.completed[i]);
            }
        }
    }
}

/// Completing the identifier of an open task moves that task, with every
/// field but the two of its completion kept, to the end of the completed
/// tasks; the open tasks lose it and nothing else; and where identifiers are
/// unique, no open task has the identifier afterwards.
pub proof fn lemma_complete_moves_task(s: StoreView, id: nat, now: nat) -> (at: int)
    requires
        has_id(s.tasks, id),
    ensures
        first_with_id(s.tasks, id, at),
        s.complete(id, now).tasks == s.tasks.remove(at),
        s.complete(id, now).completed == s.completed.push(
            TaskView { completed: true, time_completed: now, ..s.tasks[at] },
        ),
        s.complete(id, now).count() == s.count(),
        s.ids_unique() ==> !has_id(s.complete(id, now).tasks, id),
{
    let at = lemma_completed_position(s, id);
    let t = s.complete(id, now);
    if s.ids_unique() && has_id(t.tasks, id) {
        let k = choose|k: int| 0 <= k < t.tasks.len() && t.tasks[k].id == id;
        let ok = if k < at { k } else { k + 1 };
        assert(t.tasks[k] == s.tasks[ok]);
        assert(s.all()[ok] == s.tasks[ok]);
        assert(s.all()[at] == s.tasks[at]);
        if ok < at {
            assert(s.all()[ok].id != s.all()[at].id);
        } else {
            assert(s.all()[at].id != s.all()[ok].id);
        }
    }
    at
}

/// Completing an identifier that no open task has changes nothing.
pub proof fn lemma_complete_unknown_id(s: StoreView, id: nat, now: nat)
    requires
        !has_id(s.tasks, id),
    ensures
        s.complete(id, now) == s,
{
}

/// Once a task is created, its name is taken: a second task of that name is
/// turned away as long as the first one is open.
pub proof fn lemma_name_taken_after_create(
    s: StoreView,
    name: Seq<char>,
    description: Seq<char>,
    now: nat,
)
    requires
        name.len() > 0,
    ensures
        name_check(s.create(name, description, now), name) == Err::<(), NameError>(
            NameError::Taken,
        ),
{
    let t = s.create(name, description, now);
    assert(t.tasks[s.tasks.len() as int].name == name);
    assert(has_name(t.tasks, name));
}

/// Once the open task of a name is completed, the name is free again: only
/// the open tasks count.
pub proof fn lemma_name_free_after_complete(s: StoreView, at: int, now: nat)
    requires
        s.names_unique(),
        first_with_id(s.tasks, s.tasks[at].id, at),
    ensures
        name_check(s.complete(s.tasks[at].id, now), s.tasks[at].name) == Ok::<(), NameError>(()),
{
    let id = s.tasks[at].id;
    let name = s.tasks[at].name;
    assert(has_id(s.tasks, id));
    let chosen = lemma_completed_position(s, id);
    assert(chosen == at) by {
        if chosen < at {
            assert(s.tasks[chosen].id != id);
        } else if at < chosen {
            assert(s.tasks[at].id != id);
        }
    }
    let t = s.complete(id, now);
    if has_name(t.tasks, name) {
        let k = choose|k: int| 0 <= k < t.tasks.len() && t.tasks[k].name == name;
        let ok = if k < at { k } else { k + 1 };
        assert(t.tasks[k] == s.tasks[ok]);
        if ok < at {
            assert(s.tasks[ok].name != s.tasks[at].name);
        } else {
            assert(s.tasks[at].name != s.tasks[ok].name);
        }
    }
}

/// The store of the session is valid, and a name that waits for its
/// description has passed the check.
pub open spec fn consistent(session: SessionView) -> bool {
    &&& session.store.valid()
    &&& match session.phase {
        PhaseView::Describing { name } => name_check(session.store, name) is Ok,
        _ => true,
    }
}

/// The event does not bring a store from the file that is not valid.
pub open spec fn brings_valid_store(session: SessionView, event: EventView) -> bool {
    match (session.phase, event) {
        (PhaseView::Idle, EventView::Loaded { text }) => match snapshot_of(text) {
            Ok(store) => store.valid(),
            Err(_) => true,
        },
        _ => true,
    }
}

/// A step of the loop keeps the session consistent: as long as the file
/// holds valid stores, the loop never makes an invalid one, and never
/// creates a task under a name that is empty or taken.
pub proof fn lemma_step_keeps_consistent(session: SessionView, event: EventView)
    requires
        consistent(session),
        brings_valid_store(session, event),
    ensures
        consistent(step_spec(session, event).0),
{
    let store = session.store;
    match (session.phase, event) {
        (PhaseView::Describing { name }, EventView::Described { description, now }) => {
            lemma_create_keeps_valid(store, name, description, now);
        },
        (PhaseView::Confirming { name }, EventView::Confirmed { now }) => {
            if store.lookup(name) is Some {
                lemma_complete_keeps_valid(store, store.lookup(name)->Some_0, now);
            }
        },
        _ => {},
    }
}

/// Where no task is marked completed, the menu names every task, each at
/// its own place.
pub proof fn lemma_open_names_are_all(tasks: Seq<TaskView>)
    requires
        forall|i: int| 0 <= i < tasks.len() ==> !tasks[i].completed,
    ensures
        open_names(tasks) == Seq::new(tasks.len(), |i: int| tasks[i].name),
    decreases tasks.len(),
{
    if tasks.len() > 0 {
        lemma_open_names_are_all(tasks.drop_last());
        assert(open_names(tasks) =~= Seq::new(tasks.len(), |i: int| tasks[i].name));
    } else {
        assert(open_names(tasks) =~= Seq::new(tasks.len(), |i: int| tasks[i].name));
    }
}

/// Picking an open task from the menu and confirming completes that task,
/// as completing its identifier does, and what is saved is the store after
/// it. This holds of every store whose open tasks are not marked completed
/// and differ in their names, whatever the names are.
pub proof fn lemma_pick_and_confirm(store: StoreView, k: int, now: nat)
    requires
        store.flags_consistent(),
        store.names_unique(),
        0 <= k < store.tasks.len(),
    ensures
        ({
            let picked = step_spec(
                SessionView { store, phase: PhaseView::Choosing },
                EventView::Selected { index: k as nat },
            );
            let after = store.complete(store.tasks[k].id, now);
            &&& picked == (
                SessionView { store, phase: PhaseView::Confirming { name: store.tasks[k].name } },
                ActionView::AskConfirmation,
            )
            &&& step_spec(picked.0, EventView::Confirmed { now }) == (
                SessionView { store: after, phase: PhaseView::Saving },
                ActionView::Save { text: snapshot_text(after) },
            )
        }),
{
    lemma_open_names_are_all(store.tasks);
    let name = store.tasks[k].name;
    assert(first_named(store.tasks, name, k)) by {
        assert forall|j: int| 0 <= j < k implies store.tasks[j].name != name by {
            assert(store.tasks[j].name != store.tasks[k].name);
        }
    }
    let at = choose|at: int| first_named(store.tasks, name, at);
    assert(at == k) by {
        if at < k {
            assert(store.tasks[at].name != store.tasks[k].name);
        } else if k < at {
            assert(store.tasks[k].name != name);
        }
    }
    assert(store.lookup(name) == Some(store.tasks[k].id));
}

/// Picking the last entry of the menu asks for the name of a new task,
/// whatever the open tasks are called.
pub proof fn lemma_last_entry_is_new_task(store: StoreView)
    ensures
        step_spec(
            SessionView { store, phase: PhaseView::Choosing },
            EventView::Selected { index: open_names(store.tasks).len() },
        ) == (
            SessionView { store, phase: PhaseView::Naming },
            ActionView::AskName { rejected: None },
        ),
{
}

} // verus!
