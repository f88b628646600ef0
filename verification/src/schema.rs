//! The shape of a persisted snapshot: which JSON document stands for a store,
//! and which store a JSON document stands for.
//!
//! A snapshot is an object with the arrays `tasks` and `completed`; each of
//! their elements is an object with the six fields of a task.

use vstd::prelude::*;
use json::JsonValue;
use crate::document::{
    Json, as_bool, as_str, as_u64, as_usize, contents, from_bool, from_str, from_u64, insert,
    is_array, item, length, member, new_array, new_object, push,
};
use crate::store::{Store, StoreView};
use crate::task::{Task, TaskView, views};

verus! {

/// Why a JSON document is no snapshot.
#[derive(Debug, Clone, Copy, PartialEq, Eq, Structural)]
pub enum ShapeError {
    /// There is no array under `tasks`.
    Tasks,
    /// There is no array under `completed`.
    Completed,
    /// The element of `tasks` at this position is no task.
    OpenTask(usize),
    /// The element of `completed` at this position is no task.
    CompletedTask(usize),
}

/// The object that stands for a task.
pub open spec fn task_document(task: TaskView) -> Json {
    Json::Object(
        seq![
            ("id"@, Json::unsigned(task.id as u64)),
            ("name"@, Json::Text(task.name)),
            ("description"@, Json::Text(task.description)),
            ("time_created"@, Json::unsigned(task.time_created as u64)),
            ("completed"@, Json::Bool(task.completed)),
            ("time_completed"@, Json::unsigned(task.time_completed as u64)),
        ],
    )
}

/// The objects that stand for a sequence of tasks, in the same order.
pub open spec fn task_documents(tasks: Seq<TaskView>) -> Seq<Json> {
    Seq::new(tasks.len(), |i: int| task_document(tasks[i]))
}

/// The document that stands for a store.
pub open spec fn store_document(store: StoreView) -> Json {
    Json::Object(
        seq![
            ("tasks"@, Json::Array(task_documents(store.tasks))),
            ("completed"@, Json::Array(task_documents(store.completed))),
        ],
    )
}

/// The task that a JSON value stands for: an object that holds an unsigned
/// integer within `usize` under `id`, strings under `name` and `description`,
/// unsigned integers under `time_created` and `time_completed`, and a boolean
/// under `completed`. Other entries are not looked at.
pub open spec fn task_of(value: Json) -> Option<TaskView> {
    let id = value.member("id"@).as_unsigned();
    let name = value.member("name"@);
    let description = value.member("description"@);
    let time_created = value.member("time_created"@).as_unsigned();
    let completed = value.member("completed"@);
    let time_completed = value.member("time_completed"@).as_unsigned();
    if id is Some && id.unwrap() <= usize::MAX && name is Text && description is Text
        && time_created is Some && completed is Bool && time_completed is Some {
        Some(
            TaskView {
                id: id.unwrap() as nat,
                name: name->Text_0,
                description: description->Text_0,
                time_created: time_created.unwrap() as nat,
                completed: completed->Bool_0,
                time_completed: time_completed.unwrap() as nat,
            },
        )
    } else {
        None
    }
}

/// Every element stands for a task.
pub open spec fn all_tasks(items: Seq<Json>) -> bool {
    forall|i: int| 0 <= i < items.len() ==> (#[trigger] task_of(items[i])) is Some
}

/// `at` is the position of the first element that stands for no task.
pub open spec fn first_invalid(items: Seq<Json>, at: int) -> bool {
    &&& 0 <= at < items.len()
    &&& task_of(items[at]) is None
    &&& forall|j: int| 0 <= j < at ==> (#[trigger] task_of(items[j])) is Some
}

/// The tasks that the elements stand for, in the same order.
pub open spec fn tasks_of(items: Seq<Json>) -> Seq<TaskView> {
    Seq::new(items.len(), |i: int| task_of(items[i]).unwrap())
}

/// The elements of an array; none for every other value.
pub open spec fn elements(value: Json) -> Seq<Json> {
    match value {
        Json::Array(items) => items,
        _ => Seq::empty(),
    }
}

/// The store that a JSON document stands for, or the first reason why it
/// stands for none: the two arrays are looked for first, then the open tasks
/// are read, then the completed ones.
pub open spec fn store_of(document: Json) -> Result<StoreView, ShapeError> {
    let open = document.member("tasks"@);
    let closed = document.member("completed"@);
    if !(open is Array) {
        Err(ShapeError::Tasks)
    } else if !(closed is Array) {
        Err(ShapeError::Completed)
    } else if !all_tasks(elements(open)) {
        Err(ShapeError::OpenTask((choose|at: int| first_invalid(elements(open), at)) as usize))
    } else if !all_tasks(elements(closed)) {
        Err(
            ShapeError::CompletedTask(
                (choose|at: int| first_invalid(elements(closed), at)) as usize,
            ),
        )
    } else {
        Ok(StoreView { tasks: tasks_of(elements(open)), completed: tasks_of(elements(closed)) })
    }
}

/// The lengths of the field names, by which they differ from each other.
pub proof fn lemma_field_names()
    ensures
        "id"@.len() == 2,
        "name"@.len() == 4,
        "description"@.len() == 11,
        "time_created"@.len() == 12,
        "completed"@.len() == 9,
        "time_completed"@.len() == 14,
        "tasks"@.len() == 5,
{
    reveal_strlit("id");
    reveal_strlit("name");
    reveal_strlit("description");
    reveal_strlit("time_created");
    reveal_strlit("completed");
    reveal_strlit("time_completed");
    reveal_strlit("tasks");
}

/// Reads a task from a JSON value.
pub fn decode_task(value: &JsonValue) -> (task: Option<Task>)
    ensures
        match task_of(contents(*value)) {
            Some(t) => task is Some && task->Some_0@ == t,
            None => task is None,
        },
{
    let id = match as_usize(member(value, "id")) {
        Some(n) => n,
        None => { return None; },
    };
    let name = match as_str(member(value, "name")) {
        Some(s) => s.to_owned(),
        None => { return None; },
    };
    let description = match as_str(member(value, "description")) {
        Some(s) => s.to_owned(),
        None => { return None; },
    };
    let time_created = match as_u64(member(value, "time_created")) {
        Some(n) => n,
        None => { return None; },
    };
    let completed = match as_bool(member(value, "completed")) {
        Some(b) => b,
        None => { return None; },
    };
    let time_completed = match as_u64(member(value, "time_completed")) {
        Some(n) => n,
        None => { return None; },
    };
    Some(Task { id, name, description, time_created, completed, time_completed })
}

/// Reads the tasks of a JSON array, or finds the first element that is none.
pub(crate) fn decode_tasks(list: &JsonValue) -> (result: Result<Vec<Task>, usize>)
    requires
        contents(*list) is Array,
    ensures
        match result {
            Ok(tasks) => all_tasks(elements(contents(*list))) && views(tasks@) == tasks_of(
                elements(contents(*list)),
            ),
            Err(at) => first_invalid(elements(contents(*list)), at as int),
        },
{
    let ghost items = elements(contents(*list));
    let n = length(list);
    let mut tasks: Vec<Task> = Vec::new();
    let mut i: usize = 0;
    while i < n
        invariant
            i <= n,
            n == items.len(),
            items == elements(contents(*list)),
            contents(*list) is Array,
            tasks@.len() == i,
            forall|j: int| 0 <= j < i ==> (#[trigger] task_of(items[j])) == Some(tasks@[j]@),
        decreases n - i,
    {
        match decode_task(item(list, i)) {
            Some(task) => {
                tasks.push(task);
            },
            None => {
                return Err(i);
            },
        }
        i += 1;
    }
    assert(views(tasks@) =~= tasks_of(items));
    Ok(tasks)
}

/// Reads a store from a JSON document.
pub fn decode_store(document: &JsonValue) -> (result: Result<Store, ShapeError>)
    ensures
        match store_of(contents(*document)) {
            Ok(s) => result is Ok && result->Ok_0@ == s,
            Err(e) => result == Err::<Store, ShapeError>(e),
        },
{
    let open = member(document, "tasks");
    let closed = member(document, "completed");
    if !is_array(open) {
        return Err(ShapeError::Tasks);
    }
    if !is_array(closed) {
        return Err(ShapeError::Completed);
    }
    let tasks = match decode_tasks(open) {
        Ok(tasks) => tasks,
        Err(at) => {
            proof {
                lemma_first_invalid_is_one(elements(contents(*open)), at as int);
            }
            return Err(ShapeError::OpenTask(at));
        },
    };
    let completed = match decode_tasks(closed) {
        Ok(tasks) => tasks,
        Err(at) => {
            proof {
                lemma_first_invalid_is_one(elements(contents(*closed)), at as int);
            }
            return Err(ShapeError::CompletedTask(at));
        },
    };
    Ok(Store { tasks, completed })
}

/// There is one first invalid element at most.
pub proof fn lemma_first_invalid_is_one(items: Seq<Json>, at: int)
    requires
        first_invalid(items, at),
    ensures
        !all_tasks(items),
        at == choose|at: int| first_invalid(items, at),
{
    let other = choose|at: int| first_invalid(items, at);
    if other < at {
        assert(task_of(items[other]) is Some);
    } else if at < other {
        assert(task_of(items[at]) is Some);
    }
}

/// Writes a task as a JSON object, the fields in their fixed order.
pub fn encode_task(task: &Task) -> (value: JsonValue)
    ensures
        contents(value) == task_document(task@),
{
    proof {
        lemma_field_names();
    }
    let mut value = new_object();
    let _ = insert(&mut value, "id", from_u64(task.id as u64));
    assert(contents(value)->Object_0 =~= seq![("id"@, Json::unsigned(task@.id as u64))]);
    let _ = insert(&mut value, "name", from_str(task.name.as_str()));
    let _ = insert(&mut value, "description", from_str(task.description.as_str()));
    let _ = insert(&mut value, "time_created", from_u64(task.time_created));
    let _ = insert(&mut value, "completed", from_bool(task.completed));
    let _ = insert(&mut value, "time_completed", from_u64(task.time_completed));
    assert(contents(value)->Object_0 =~= task_document(task@)->Object_0);
    value
}

/// Writes tasks as a JSON array, in the same order.
pub fn encode_tasks(tasks: &Vec<Task>) -> (value: JsonValue)
    ensures
        contents(value) == Json::Array(task_documents(views(tasks@))),
{
    let mut value = new_array();
    let mut i: usize = 0;
    assert(task_documents(views(tasks@)).take(0) =~= Seq::empty());
    while i < tasks.len()
        invariant
            i <= tasks.len(),
            contents(value) == Json::Array(task_documents(views(tasks@)).take(i as int)),
        decreases tasks.len() - i,
    {
        let _ = push(&mut value, encode_task(&tasks[i]));
        assert(task_documents(views(tasks@)).take(i as int).push(task_document(tasks@[i as int]@))
            =~= task_documents(views(tasks@)).take(i + 1));
        i += 1;
    }
    assert(task_documents(views(tasks@)).take(i as int) =~= task_documents(views(tasks@)));
    value
}

/// Writes a store as a JSON document: `tasks` first, then `completed`.
pub fn encode_store(store: &Store) -> (document: JsonValue)
    ensures
        contents(document) == store_document(store@),
{
    proof {
        lemma_field_names();
    }
    let mut document = new_object();
    let _ = insert(&mut document, "tasks", encode_tasks(&store.tasks));
    let _ = insert(&mut document, "completed", encode_tasks(&store.completed));
    assert(contents(document)->Object_0 =~= store_document(store@)->Object_0);
    document
}

/// Reading the object that was written for a task gives the task back.
pub proof fn lemma_task_round_trip(task: TaskView)
    requires
        task.representable(),
    ensures
        task_of(task_document(task)) == Some(task),
{
    lemma_field_names();
    let d = task_document(task);
    let entries = d->Object_0;
    assert(entries[0].0 == "id"@);
    assert(entries[1].0 == "name"@);
    assert(entries[2].0 == "description"@);
    assert(entries[3].0 == "time_created"@);
    assert(entries[4].0 == "completed"@);
    assert(entries[5].0 == "time_completed"@);
    assert(d.key_position("id"@) == 0);
    assert(d.key_position("name"@) == 1);
    assert(d.key_position("description"@) == 2);
    assert(d.key_position("time_created"@) == 3);
    assert(d.key_position("completed"@) == 4);
    assert(d.key_position("time_completed"@) == 5);
}

/// Reading the document that was written for a store gives the store back:
/// nothing is lost between a store and its snapshot.
pub proof fn lemma_store_round_trip(store: StoreView)
    requires
        store.representable(),
    ensures
        store_of(store_document(store)) == Ok::<StoreView, ShapeError>(store),
{
    lemma_field_names();
    let d = store_document(store);
    let entries = d->Object_0;
    assert(entries[0].0 == "tasks"@);
    assert(entries[1].0 == "completed"@);
    assert(d.key_position("tasks"@) == 0);
    assert(d.key_position("completed"@) == 1);
    let open = task_documents(store.tasks);
    let closed = task_documents(store.completed);
    assert forall|i: int| 0 <= i < open.len() implies (#[trigger] task_of(open[i])) == Some(
        store.tasks[i],
    ) by {
        lemma_task_round_trip(store.tasks[i]);
    }
    assert forall|i: int| 0 <= i < closed.len() implies (#[trigger] task_of(closed[i])) == Some(
        store.completed[i],
    ) by {
        lemma_task_round_trip(store.completed[i]);
    }
    assert(tasks_of(open) =~= store.tasks);
    assert(tasks_of(closed) =~= store.completed);
}

} // verus!
