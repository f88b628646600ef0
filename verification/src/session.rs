//! The decisions of the interactive loop.
//!
//! The program around the library reads the file, shows the prompts, reads
//! the clock and writes the file. After each of these it reports what came
//! of it as an [`Event`]; [`step`] answers with the next thing to do, an
//! [`Action`]. One round runs from `Load` to `Load`: the snapshot is read
//! anew, a menu of the open tasks is shown, and the choice leads either to a
//! new task or, after a confirmation, to the completion of the chosen one.

use vstd::prelude::*;
use crate::snapshot::{
    Failure, ParseError, complete, create, load_from_text, snapshot_of, snapshot_text,
};
use crate::store::{NameError, Store, StoreView, get_id_by_name, name_check, validate_name};
use crate::task::TaskView;

verus! {

/// What the loop is waiting for.
#[derive(Debug, Clone, PartialEq, Eq)]
pub enum Phase {
    /// The text of the backing file.
    Idle,
    /// The user's choice from the menu.
    Choosing,
    /// The name of a new task.
    Naming,
    /// The description of the new task called `name`.
    Describing { name: String },
    /// The user's word on whether the open task called `name` is completed.
    Confirming { name: String },
    /// The snapshot to be written.
    Saving,
}

/// The state of the loop: the store as it was last read or changed, and what
/// the loop is waiting for.
#[derive(Debug, Clone, PartialEq, Eq)]
pub struct Session {
    pub store: Store,
    pub phase: Phase,
}

/// What the program reports to the loop.
#[derive(Debug, Clone, PartialEq, Eq)]
pub enum Event {
    /// The backing file was read and holds `text`.
    Loaded { text: String },
    /// The user chose the entry of the menu at `index`.
    Selected { index: usize },
    /// The user entered the name of a new task.
    Named { name: String },
    /// The user entered the description of the new task, at the time `now`.
    Described { description: String, now: u64 },
    /// The user confirmed the completion, at the time `now`.
    Confirmed { now: u64 },
    /// The user declined the completion.
    Declined,
    /// The snapshot was written.
    Saved,
}

/// What the loop asks the program to do next.
#[derive(Debug, Clone, PartialEq, Eq)]
pub enum Action {
    /// Read the backing file and report `Loaded`.
    Load,
    /// Show the menu and report `Selected`. Where the file was no snapshot,
    /// `problem` says why, and the menu is that of an empty store.
    Select { items: Vec<String>, problem: Option<ParseError> },
    /// Ask for the name of a new task and report `Named`. `rejected` says
    /// why the last name was not taken.
    AskName { rejected: Option<NameError> },
    /// Ask for the description of the new task and report `Described`.
    AskDescription,
    /// Ask whether the chosen task is completed and report `Confirmed` or
    /// `Declined`.
    AskConfirmation,
    /// Overwrite the backing file with `text` and report `Saved`.
    Save { text: String },
}

/// What a [`Phase`] stands for in contracts.
pub enum PhaseView {
    Idle,
    Choosing,
    Naming,
    Describing { name: Seq<char> },
    Confirming { name: Seq<char> },
    Saving,
}

/// What a [`Session`] stands for in contracts.
pub struct SessionView {
    pub store: StoreView,
    pub phase: PhaseView,
}

/// What an [`Event`] stands for in contracts.
pub enum EventView {
    Loaded { text: Seq<char> },
    Selected { index: nat },
    Named { name: Seq<char> },
    Described { description: Seq<char>, now: nat },
    Confirmed { now: nat },
    Declined,
    Saved,
}

/// What an [`Action`] stands for in contracts.
pub enum ActionView {
    Load,
    Select { items: Seq<Seq<char>>, problem: Option<Failure> },
    AskName { rejected: Option<NameError> },
    AskDescription,
    AskConfirmation,
    Save { text: Seq<char> },
}

impl View for Phase {
    type V = PhaseView;

    open spec fn view(&self) -> PhaseView {
        match self {
            Phase::Idle => PhaseView::Idle,
            Phase::Choosing => PhaseView::Choosing,
            Phase::Naming => PhaseView::Naming,
            Phase::Describing { name } => PhaseView::Describing { name: name@ },
            Phase::Confirming { name } => PhaseView::Confirming { name: name@ },
            Phase::Saving => PhaseView::Saving,
        }
    }
}

impl View for Session {
    type V = SessionView;

    open spec fn view(&self) -> SessionView {
        SessionView { store: self.store@, phase: self.phase@ }
    }
}

impl View for Event {
    type V = EventView;

    open spec fn view(&self) -> EventView {
        match self {
            Event::Loaded { text } => EventView::Loaded { text: text@ },
            Event::Selected { index } => EventView::Selected { index: *index as nat },
            Event::Named { name } => EventView::Named { name: name@ },
            Event::Described { description, now } => EventView::Described {
                description: description@,
                now: *now as nat,
            },
            Event::Confirmed { now } => EventView::Confirmed { now: *now as nat },
            Event::Declined => EventView::Declined,
            Event::Saved => EventView::Saved,
        }
    }
}

/// The views of a sequence of strings, in the same order.
pub open spec fn texts(items: Seq<String>) -> Seq<Seq<char>> {
    Seq::new(items.len(), |i: int| items[i]@)
}

impl View for Action {
    type V = ActionView;

    open spec fn view(&self) -> ActionView {
        match self {
            Action::Load => ActionView::Load,
            Action::Select { items, problem } => ActionView::Select {
                items: texts(items@),
                problem: match problem {
                    Some(e) => Some(e@),
                    None => None,
                },
            },
            Action::AskName { rejected } => ActionView::AskName { rejected: *rejected },
            Action::AskDescription => ActionView::AskDescription,
            Action::AskConfirmation => ActionView::AskConfirmation,
            Action::Save { text } => ActionView::Save { text: text@ },
        }
    }
}

/// The entry of the menu that stands for a new task.
pub open spec fn new_task_label() -> Seq<char> {
    "New Task"@
}

/// The names of the tasks that are not marked completed, in their order.
pub open spec fn open_names(tasks: Seq<TaskView>) -> Seq<Seq<char>>
    decreases tasks.len(),
{
    if tasks.len() == 0 {
        Seq::empty()
    } else if tasks.last().completed {
        open_names(tasks.drop_last())
    } else {
        open_names(tasks.drop_last()).push(tasks.last().name)
    }
}

/// The menu for a store: the names of its open tasks, then the entry for a
/// new task.
pub open spec fn menu_of(store: StoreView) -> Seq<Seq<char>> {
    open_names(store.tasks).push(new_task_label())
}

/// The start of a round: nothing is kept but the store, and the file is
/// read anew.
pub open spec fn restart(store: StoreView) -> (SessionView, ActionView) {
    (SessionView { store, phase: PhaseView::Idle }, ActionView::Load)
}

/// What follows the reading of the file: the menu of the store that was
/// read, or that of an empty store together with the reason.
pub open spec fn begin_spec(loaded: Result<StoreView, Failure>) -> (SessionView, ActionView) {
    match loaded {
        Ok(store) => (
            SessionView { store, phase: PhaseView::Choosing },
            ActionView::Select { items: menu_of(store), problem: None },
        ),
        Err(failure) => (
            SessionView { store: StoreView::empty(), phase: PhaseView::Choosing },
            ActionView::Select { items: menu_of(StoreView::empty()), problem: Some(failure) },
        ),
    }
}

/// What follows a choice from the menu: the last entry, which stands for a
/// new task, leads to the question for a name; every entry before it is the
/// name of a task and leads to the question whether that task is completed.
/// The entry is told by its place, so a task may have any name.
pub open spec fn select_spec(store: StoreView, index: nat) -> (SessionView, ActionView) {
    let items = menu_of(store);
    if index >= items.len() {
        restart(store)
    } else if index == items.len() - 1 {
        (SessionView { store, phase: PhaseView::Naming }, ActionView::AskName { rejected: None })
    } else {
        (
            SessionView { store, phase: PhaseView::Confirming { name: items[index as int] } },
            ActionView::AskConfirmation,
        )
    }
}

/// The next state and action for a state and an event. An event that the
/// phase does not wait for starts the round anew.
pub open spec fn step_spec(session: SessionView, event: EventView) -> (SessionView, ActionView) {
    let store = session.store;
    match (session.phase, event) {
        (PhaseView::Idle, EventView::Loaded { text }) => begin_spec(snapshot_of(text)),
        (PhaseView::Choosing, EventView::Selected { index }) => select_spec(store, index),
        (PhaseView::Naming, EventView::Named { name }) => match name_check(store, name) {
            Ok(_) => (
                SessionView { store, phase: PhaseView::Describing { name } },
                ActionView::AskDescription,
            ),
            Err(e) => (
                SessionView { store, phase: PhaseView::Naming },
                ActionView::AskName { rejected: Some(e) },
            ),
        },
        (PhaseView::Describing { name }, EventView::Described { description, now }) => {
            if store.count() <= usize::MAX {
                let next = store.create(name, description, now);
                (
                    SessionView { store: next, phase: PhaseView::Saving },
                    ActionView::Save { text: snapshot_text(next) },
                )
            } else {
                restart(store)
            }
        },
        (PhaseView::Confirming { name }, EventView::Confirmed { now }) => match store.lookup(
            name,
        ) {
            Some(id) => {
                let next = store.complete(id, now);
                (
                    SessionView { store: next, phase: PhaseView::Saving },
                    ActionView::Save { text: snapshot_text(next) },
                )
            },
            None => restart(store),
        },
        _ => restart(store),
    }
}

/// Builds the menu for a store.
pub fn menu(store: &Store) -> (items: Vec<String>)
    ensures
        texts(items@) == menu_of(store@),
{
    let mut items: Vec<String> = Vec::new();
    let mut i: usize = 0;
    assert(store@.tasks.take(0) =~= Seq::empty());
    assert(texts(items@) =~= Seq::empty());
    while i < store.tasks.len()
        invariant
            i <= store.tasks.len(),
            texts(items@) == open_names(store@.tasks.take(i as int)),
        decreases store.tasks.len() - i,
    {
        let ghost before = texts(items@);
        assert(store@.tasks.take(i + 1).drop_last() =~= store@.tasks.take(i as int));
        if !store.tasks[i].completed {
            items.push(store.tasks[i].name.clone());
            assert(texts(items@) =~= before.push(store@.tasks[i as int].name));
        }
        i += 1;
    }
    assert(store@.tasks.take(i as int) =~= store@.tasks);
    let ghost names = texts(items@);
    items.push("New Task".to_owned());
    assert(texts(items@) =~= names.push(new_task_label()));
    items
}

impl Session {
    /// The state before the first round, and the first thing to do.
    pub fn start() -> (first: (Session, Action))
        ensures
            (first.0@, first.1@) == restart(StoreView::empty()),
    {
        (Session { store: Store::new(), phase: Phase::Idle }, Action::Load)
    }

    /// The state and the action after the backing file was read, for every
    /// outcome of the reading.
    pub fn begin(loaded: Result<Store, ParseError>) -> (next: (Session, Action))
        ensures
            (next.0@, next.1@) == begin_spec(
                match loaded {
                    Ok(store) => Ok(store@),
                    Err(e) => Err(e@),
                },
            ),
    {
        match loaded {
            Ok(store) => {
                let items = menu(&store);
                (Session { store, phase: Phase::Choosing }, Action::Select { items, problem: None })
            },
            Err(e) => {
                let store = Store::new();
                let items = menu(&store);
                (
                    Session { store, phase: Phase::Choosing },
                    Action::Select { items, problem: Some(e) },
                )
            },
        }
    }

    /// The state and the action after the user chose from the menu.
    pub fn select(store: Store, index: usize) -> (next: (Session, Action))
        ensures
            (next.0@, next.1@) == select_spec(store@, index as nat),
    {
        let mut items = menu(&store);
        if index >= items.len() {
            return (Session { store, phase: Phase::Idle }, Action::Load);
        }
        if index == items.len() - 1 {
            return (Session { store, phase: Phase::Naming }, Action::AskName { rejected: None });
        }
        let ghost labels = texts(items@);
        let name = items.swap_remove(index);
        assert(name@ == labels[index as int]);
        (Session { store, phase: Phase::Confirming { name } }, Action::AskConfirmation)
    }
}

/// Takes the loop one step further: from the state and what the program
/// reports to the next state and what the program is to do.
pub fn step(session: Session, event: Event) -> (next: (Session, Action))
    ensures
        (next.0@, next.1@) == step_spec(session@, event@),
{
    let Session { store, phase } = session;
    match (phase, event) {
        (Phase::Idle, Event::Loaded { text }) => Session::begin(load_from_text(text.as_str())),
        (Phase::Choosing, Event::Selected { index }) => Session::select(store, index),
        (Phase::Naming, Event::Named { name }) => match validate_name(&store, name.as_str()) {
            Ok(_) => (Session { store, phase: Phase::Describing { name } }, Action::AskDescription),
            Err(e) => (
                Session { store, phase: Phase::Naming },
                Action::AskName { rejected: Some(e) },
            ),
        },
        (Phase::Describing { name }, Event::Described { description, now }) => {
            let mut store = store;
            if store.tasks.len() <= usize::MAX - store.completed.len() {
                let text = create(&mut store, name, description, now);
                (Session { store, phase: Phase::Saving }, Action::Save { text })
            } else {
                (Session { store, phase: Phase::Idle }, Action::Load)
            }
        },
        (Phase::Confirming { name }, Event::Confirmed { now }) => {
            let mut store = store;
            match get_id_by_name(&store, name.as_str()) {
                Some(id) => {
                    let text = complete(&mut store, id, now);
                    (Session { store, phase: Phase::Saving }, Action::Save { text })
                },
                None => (Session { store, phase: Phase::Idle }, Action::Load),
            }
        },
        (_, _) => (Session { store, phase: Phase::Idle }, Action::Load),
    }
}

} // verus!
