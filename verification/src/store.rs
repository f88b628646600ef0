//! The store: the open and the completed tasks, and the two mutations.

use vstd::prelude::*;
use crate::laws::{
    lemma_complete_keeps_ids, lemma_complete_keeps_valid, lemma_create_keeps_ids,
    lemma_create_keeps_valid,
};
use crate::task::{Task, TaskView, views};

verus! {

/// The whole state of the task list.
#[derive(Debug, Clone, PartialEq, Eq)]
pub struct Store {
    /// Open tasks, in the order of their creation.
    pub tasks: Vec<Task>,
    /// Completed tasks, in the order of their completion.
    pub completed: Vec<Task>,
}

/// What a [`Store`] stands for in contracts.
pub struct StoreView {
    pub tasks: Seq<TaskView>,
    pub completed: Seq<TaskView>,
}

impl View for Store {
    type V = StoreView;

    open spec fn view(&self) -> StoreView {
        StoreView { tasks: views(self.tasks@), completed: views(self.completed@) }
    }
}

/// `at` is the position of the first task in `tasks` whose name is `name`.
pub open spec fn first_named(tasks: Seq<TaskView>, name: Seq<char>, at: int) -> bool {
    &&& 0 <= at < tasks.len()
    &&& tasks[at].name == name
    &&& forall|j: int| 0 <= j < at ==> tasks[j].name != name
}

/// Some task in `tasks` is called `name`.
pub open spec fn has_name(tasks: Seq<TaskView>, name: Seq<char>) -> bool {
    exists|i: int| 0 <= i < tasks.len() && tasks[i].name == name
}

/// `at` is the position of the first task in `tasks` whose identifier is `id`.
pub open spec fn first_with_id(tasks: Seq<TaskView>, id: nat, at: int) -> bool {
    &&& 0 <= at < tasks.len()
    &&& tasks[at].id == id
    &&& forall|j: int| 0 <= j < at ==> tasks[j].id != id
}

/// Some task in `tasks` has the identifier `id`.
pub open spec fn has_id(tasks: Seq<TaskView>, id: nat) -> bool {
    exists|i: int| 0 <= i < tasks.len() && tasks[i].id == id
}

impl StoreView {
    /// The store without any task.
    pub open spec fn empty() -> StoreView {
        StoreView { tasks: Seq::empty(), completed: Seq::empty() }
    }

    /// How many tasks the store holds, open and completed.
    pub open spec fn count(self) -> nat {
        self.tasks.len() + self.completed.len()
    }

    /// Every task fits the machine types of [`Task`], as in the view of
    /// every [`Store`].
    pub open spec fn representable(self) -> bool {
        &&& forall|i: int| 0 <= i < self.tasks.len() ==> self.tasks[i].representable()
        &&& forall|i: int| 0 <= i < self.completed.len() ==> self.completed[i].representable()
    }

    /// Every task of the store: the open ones, then the completed ones.
    pub open spec fn all(self) -> Seq<TaskView> {
        self.tasks + self.completed
    }

    /// No identifier occurs twice among the open and the completed tasks.
    pub open spec fn ids_unique(self) -> bool {
        forall|i: int, j: int|
            0 <= i < j < self.all().len() ==> self.all()[i].id != self.all()[j].id
    }

    /// The identifiers are unique and all below the number of tasks, which is
    /// what keeps the next identifier free.
    pub open spec fn ids_dense(self) -> bool {
        &&& self.ids_unique()
        &&& forall|i: int| 0 <= i < self.all().len() ==> self.all()[i].id < self.count()
    }

    /// Open tasks carry no completion, completed tasks carry the flag.
    pub open spec fn flags_consistent(self) -> bool {
        &&& forall|i: int|
            0 <= i < self.tasks.len() ==> !self.tasks[i].completed
                && self.tasks[i].time_completed == 0
        &&& forall|i: int| 0 <= i < self.completed.len() ==> self.completed[i].completed
    }

    /// The open tasks have names, and no two of them the same one.
    pub open spec fn names_unique(self) -> bool {
        &&& forall|i: int| 0 <= i < self.tasks.len() ==> self.tasks[i].name.len() > 0
        &&& forall|i: int, j: int|
            0 <= i < j < self.tasks.len() ==> self.tasks[i].name != self.tasks[j].name
    }

    /// Everything that holds of a store that only `create` and `complete`
    /// have touched.
    pub open spec fn valid(self) -> bool {
        &&& self.ids_dense()
        &&& self.flags_consistent()
        &&& self.names_unique()
    }

    /// The identifier of the first open task called `name`, if there is one.
    /// Completed tasks are not looked at.
    pub open spec fn lookup(self, name: Seq<char>) -> Option<nat> {
        if has_name(self.tasks, name) {
            Some(self.tasks[choose|at: int| first_named(self.tasks, name, at)].id)
        } else {
            None
        }
    }

    /// The store after a task with the next identifier was appended to the
    /// open tasks.
    pub open spec fn create(self, name: Seq<char>, description: Seq<char>, now: nat) -> StoreView {
        StoreView {
            tasks: self.tasks.push(TaskView::fresh(self.count(), name, description, now)),
            completed: self.completed,
        }
    }

    /// The store after the first open task with identifier `id` was moved to
    /// the end of the completed tasks; the store itself where no open task
    /// has that identifier.
    pub open spec fn complete(self, id: nat, now: nat) -> StoreView {
        if has_id(self.tasks, id) {
            let at = choose|at: int| first_with_id(self.tasks, id, at);
            StoreView {
                tasks: self.tasks.remove(at),
                completed: self.completed.push(self.tasks[at].closed_at(now)),
            }
        } else {
            self
        }
    }
}

impl Store {
    /// The view of a store fits the machine types.
    pub proof fn lemma_representable(self)
        ensures
            self@.representable(),
    {
    }

    /// A store without any task.
    pub fn new() -> (store: Store)
        ensures
            store@ == StoreView::empty(),
            store@.valid(),
    {
        let store = Store { tasks: Vec::new(), completed: Vec::new() };
        assert(store@.tasks =~= Seq::empty());
        assert(store@.completed =~= Seq::empty());
        store
    }
}

/// The identifier for the next task: the number of tasks that exist, open and
/// completed.
pub fn get_new_id(store: &Store) -> (id: usize)
    requires
        store@.count() <= usize::MAX,
    ensures
        id == store@.count(),
{
    store.completed.len() + store.tasks.len()
}

/// Finds the first open task called `name` and returns its identifier.
/// The comparison is exact; completed tasks are not searched.
pub fn get_id_by_name(store: &Store, name: &str) -> (found: Option<usize>)
    ensures
        match found {
            Some(id) => store@.lookup(name@) == Some(id as nat),
            None => store@.lookup(name@).is_none(),
        },
        found is Some <==> has_name(store@.tasks, name@),
        forall|at: int|
            first_named(store@.tasks, name@, at) ==> found == Some(store.tasks@[at].id),
{
    let wanted = name.to_owned();
    let mut i: usize = 0;
    while i < store.tasks.len()
        invariant
            i <= store.tasks.len(),
            wanted@ == name@,
            forall|j: int| 0 <= j < i ==> store@.tasks[j].name != name@,
        decreases store.tasks.len() - i,
    {
        if store.tasks[i].name == wanted {
            proof {
                let tasks = store@.tasks;
                assert(first_named(tasks, name@, i as int));
                let at = choose|at: int| first_named(tasks, name@, at);
                assert(at == i);
                assert forall|at: int| first_named(tasks, name@, at) implies at == i by {
                    if at < i {
                        assert(tasks[at].name != name@);
                    }
                }
            }
            return Some(store.tasks[i].id);
        }
        i += 1;
    }
    None
}

/// Why a name cannot be given to a new task.
#[derive(Debug, Clone, Copy, PartialEq, Eq, Structural)]
pub enum NameError {
    /// The name is empty.
    Empty,
    /// An open task has the name already.
    Taken,
}

/// Whether a new task may be called `name`: the name has to hold something,
/// and no open task may have it. Completed tasks do not count.
pub open spec fn name_check(store: StoreView, name: Seq<char>) -> Result<(), NameError> {
    if name.len() == 0 {
        Err(NameError::Empty)
    } else if store.lookup(name) is Some {
        Err(NameError::Taken)
    } else {
        Ok(())
    }
}

/// Checks the name for a new task before the task is created.
pub fn validate_name(store: &Store, name: &str) -> (verdict: Result<(), NameError>)
    ensures
        verdict == name_check(store@, name@),
{
    if name.is_empty() {
        Err(NameError::Empty)
    } else if get_id_by_name(store, name).is_some() {
        Err(NameError::Taken)
    } else {
        Ok(())
    }
}

impl NameError {
    /// The rejection in words, for the user.
    pub fn message(self) -> (text: String)
        ensures
            text@ == match self {
                NameError::Empty => "Task name is empty."@,
                NameError::Taken => "Task already exists."@,
            },
    {
        match self {
            NameError::Empty => "Task name is empty.".to_owned(),
            NameError::Taken => "Task already exists.".to_owned(),
        }
    }
}

/// Appends a new open task with the next identifier, created at `now`:
/// not completed, and without a time of completion. The other tasks stay as
/// they are.
///
/// The caller has checked the name: nothing is compared here.
pub fn append_task(store: &mut Store, name: String, description: String, now: u64)
    requires
        old(store)@.count() <= usize::MAX,
    ensures
        final(store)@ == old(store)@.create(name@, description@, now as nat),
        final(store)@.tasks == old(store)@.tasks.push(
            TaskView {
                id: old(store)@.count(),
                name: name@,
                description: description@,
                time_created: now as nat,
                completed: false,
                time_completed: 0,
            },
        ),
        final(store)@.completed == old(store)@.completed,
        old(store)@.ids_dense() ==> final(store)@.ids_dense(),
        old(store)@.valid() && name_check(old(store)@, name@) is Ok ==> final(store)@.valid(),
{
    proof {
        if store@.ids_dense() {
            lemma_create_keeps_ids(store@, name@, description@, now as nat);
        }
        if store@.valid() && name_check(store@, name@) is Ok {
            lemma_create_keeps_valid(store@, name@, description@, now as nat);
        }
    }
    let id = get_new_id(store);
    let task = Task::new(id, name, description, now);
    store.tasks.push(task);
    assert(store@.tasks =~= old(store)@.tasks.push(task@));
}

/// Moves the first open task with identifier `task_id` to the end of the
/// completed tasks and stamps it with `now`; its other fields and the order
/// of the other tasks are kept. Where no open task has that identifier, the
/// store is left as it is.
pub fn complete_task(store: &mut Store, task_id: usize, now: u64)
    ensures
        final(store)@ == old(store)@.complete(task_id as nat, now as nat),
        !has_id(old(store)@.tasks, task_id as nat) ==> *final(store) == *old(store),
        forall|at: int|
            first_with_id(old(store)@.tasks, task_id as nat, at) ==> {
                &&& final(store)@.tasks == old(store)@.tasks.remove(at)
                &&& final(store)@.completed == old(store)@.completed.push(
                    old(store)@.tasks[at].closed_at(now as nat),
                )
            },
        old(store)@.ids_dense() ==> final(store)@.ids_dense(),
        old(store)@.valid() ==> final(store)@.valid(),
{
    let mut i: usize = 0;
    while i < store.tasks.len()
        invariant
            i <= store.tasks.len(),
            *store == *old(store),
            forall|j: int| 0 <= j < i ==> store@.tasks[j].id != task_id,
        decreases store.tasks.len() - i,
    {
        if store.tasks[i].id == task_id {
            proof {
                let tasks = store@.tasks;
                assert(first_with_id(tasks, task_id as nat, i as int));
                let at = choose|at: int| first_with_id(tasks, task_id as nat, at);
                assert(at == i);
                assert forall|at: int| first_with_id(tasks, task_id as nat, at) implies at
                    == i by {
                    if at < i {
                        assert(tasks[at].id != task_id);
                    }
                }
                if store@.ids_dense() {
                    lemma_complete_keeps_ids(store@, task_id as nat, now as nat);
                }
                if store@.valid() {
                    lemma_complete_keeps_valid(store@, task_id as nat, now as nat);
                }
            }
            let task = store.tasks.remove(i);
            let done = task.close(now);
            store.completed.push(done);
            assert(store@.tasks =~= old(store)@.tasks.remove(i as int));
            assert(store@.completed =~= old(store)@.completed.push(done@));
            return ;
        }
        i += 1;
    }
}

} // verus!
