use taskbook::store::{
    append_task, complete_task, get_id_by_name, get_new_id, validate_name, NameError, Store,
};
use taskbook::task::Task;

fn task(id: usize, name: &str, completed: bool) -> Task {
    Task {
        id,
        name: name.to_string(),
        description: String::new(),
        time_created: 1,
        completed,
        time_completed: if completed { 2 } else { 0 },
    }
}

fn all_ids(store: &Store) -> Vec<usize> {
    let mut ids: Vec<usize> = store.tasks.iter().map(|t| t.id).collect();
    ids.extend(store.completed.iter().map(|t| t.id));
    ids
}

#[test]
fn new_store_is_empty() {
    let store = Store::new();
    assert!(store.tasks.is_empty());
    assert!(store.completed.is_empty());
    assert_eq!(get_new_id(&store), 0);
}

#[test]
fn new_task_record_is_open() {
    let t = Task::new(4, "Read".to_string(), "a book".to_string(), 99);
    assert_eq!(
        t,
        Task {
            id: 4,
            name: "Read".to_string(),
            description: "a book".to_string(),
            time_created: 99,
            completed: false,
            time_completed: 0,
        }
    );
}

#[test]
fn closing_keeps_the_other_fields() {
    let t = Task::new(4, "Read".to_string(), "a book".to_string(), 99).close(120);
    assert_eq!(
        t,
        Task {
            id: 4,
            name: "Read".to_string(),
            description: "a book".to_string(),
            time_created: 99,
            completed: true,
            time_completed: 120,
        }
    );
}

#[test]
fn new_id_is_the_number_of_tasks() {
    let store = Store {
        tasks: vec![task(0, "a", false), task(2, "b", false)],
        completed: vec![task(1, "c", true)],
    };
    assert_eq!(get_new_id(&store), 3);
}

#[test]
fn create_twice_then_complete_the_first() {
    let mut store = Store::new();
    append_task(&mut store, "Buy milk".to_string(), String::new(), 10);
    assert_eq!(store.tasks.len(), 1);
    assert_eq!(store.tasks[0].id, 0);
    assert!(store.completed.is_empty());

    append_task(&mut store, "Walk dog".to_string(), String::new(), 11);
    assert_eq!(store.tasks.len(), 2);
    assert_eq!(store.tasks[1].id, 1);

    complete_task(&mut store, 0, 12);
    assert_eq!(
        store.tasks,
        vec![Task {
            id: 1,
            name: "Walk dog".to_string(),
            description: String::new(),
            time_created: 11,
            completed: false,
            time_completed: 0,
        }]
    );
    assert_eq!(
        store.completed,
        vec![Task {
            id: 0,
            name: "Buy milk".to_string(),
            description: String::new(),
            time_created: 10,
            completed: true,
            time_completed: 12,
        }]
    );
}

#[test]
fn second_create_under_an_open_name_is_rejected() {
    let mut store = Store::new();
    assert_eq!(validate_name(&store, "A"), Ok(()));
    append_task(&mut store, "A".to_string(), "x".to_string(), 1);
    assert_eq!(validate_name(&store, "A"), Err(NameError::Taken));
    assert_eq!(store.tasks.len(), 1);
}

#[test]
fn name_is_free_again_after_completion() {
    let mut store = Store::new();
    append_task(&mut store, "A".to_string(), "x".to_string(), 1);
    let id = get_id_by_name(&store, "A").unwrap();
    complete_task(&mut store, id, 2);
    assert_eq!(validate_name(&store, "A"), Ok(()));
    append_task(&mut store, "A".to_string(), "z".to_string(), 3);
    assert_eq!(store.tasks.len(), 1);
    assert_eq!(store.tasks[0].id, 1);
    assert_eq!(store.tasks[0].description, "z");
    assert_eq!(store.completed.len(), 1);
    assert_eq!(store.completed[0].id, 0);
}

#[test]
fn empty_name_is_rejected() {
    let store = Store::new();
    assert_eq!(validate_name(&store, ""), Err(NameError::Empty));
}

#[test]
fn name_errors_in_words() {
    assert_eq!(NameError::Taken.message(), "Task already exists.");
    assert_eq!(NameError::Empty.message(), "Task name is empty.");
}

#[test]
fn create_adds_exactly_one_open_task() {
    let mut store = Store {
        tasks: vec![task(0, "a", false)],
        completed: vec![task(1, "b", true)],
    };
    let before = store.clone();
    append_task(&mut store, "c".to_string(), "d".to_string(), 77);
    assert_eq!(store.tasks.len(), before.tasks.len() + 1);
    assert_eq!(store.tasks[0], before.tasks[0]);
    assert_eq!(store.completed, before.completed);
    assert_eq!(
        store.tasks[1],
        Task {
            id: 2,
            name: "c".to_string(),
            description: "d".to_string(),
            time_created: 77,
            completed: false,
            time_completed: 0,
        }
    );
}

#[test]
fn create_does_not_compare_names() {
    let mut store = Store::new();
    append_task(&mut store, "A".to_string(), "x".to_string(), 1);
    append_task(&mut store, "A".to_string(), "y".to_string(), 2);
    assert_eq!(store.tasks.len(), 2);
    assert_eq!(get_id_by_name(&store, "A"), Some(0));
}

#[test]
fn complete_moves_the_task_with_its_fields() {
    let mut store = Store::new();
    append_task(&mut store, "a".to_string(), "first".to_string(), 5);
    append_task(&mut store, "b".to_string(), "second".to_string(), 6);
    append_task(&mut store, "c".to_string(), "third".to_string(), 7);
    complete_task(&mut store, 1, 50);
    assert_eq!(store.tasks.iter().map(|t| t.id).collect::<Vec<usize>>(), vec![0, 2]);
    assert_eq!(
        store.completed,
        vec![Task {
            id: 1,
            name: "b".to_string(),
            description: "second".to_string(),
            time_created: 6,
            completed: true,
            time_completed: 50,
        }]
    );
    assert!(store.tasks.iter().all(|t| t.id != 1));
}

#[test]
fn completed_tasks_are_appended_in_order() {
    let mut store = Store::new();
    append_task(&mut store, "a".to_string(), String::new(), 1);
    append_task(&mut store, "b".to_string(), String::new(), 2);
    append_task(&mut store, "c".to_string(), String::new(), 3);
    complete_task(&mut store, 2, 10);
    complete_task(&mut store, 0, 11);
    assert_eq!(store.completed.iter().map(|t| t.id).collect::<Vec<usize>>(), vec![2, 0]);
    assert_eq!(store.tasks.iter().map(|t| t.id).collect::<Vec<usize>>(), vec![1]);
}

#[test]
fn complete_unknown_id_changes_nothing() {
    let mut store = Store::new();
    append_task(&mut store, "a".to_string(), String::new(), 1);
    let before = store.clone();
    complete_task(&mut store, 7, 9);
    assert_eq!(store, before);
}

#[test]
fn complete_twice_changes_nothing_the_second_time() {
    let mut store = Store::new();
    append_task(&mut store, "a".to_string(), String::new(), 1);
    complete_task(&mut store, 0, 9);
    let before = store.clone();
    complete_task(&mut store, 0, 10);
    assert_eq!(store, before);
    assert_eq!(store.completed[0].time_completed, 9);
}

#[test]
fn complete_on_empty_store_changes_nothing() {
    let mut store = Store::new();
    complete_task(&mut store, 0, 9);
    assert_eq!(store, Store::new());
}

#[test]
fn complete_takes_the_first_of_equal_ids() {
    let mut store = Store {
        tasks: vec![task(3, "first", false), task(3, "second", false)],
        completed: vec![],
    };
    complete_task(&mut store, 3, 8);
    assert_eq!(store.tasks.len(), 1);
    assert_eq!(store.tasks[0].name, "second");
    assert_eq!(store.completed[0].name, "first");
    assert_eq!(store.completed[0].time_completed, 8);
}

#[test]
fn lookup_finds_the_first_match() {
    let store = Store {
        tasks: vec![task(4, "x", false), task(5, "dup", false), task(6, "dup", false)],
        completed: vec![],
    };
    assert_eq!(get_id_by_name(&store, "dup"), Some(5));
    assert_eq!(get_id_by_name(&store, "x"), Some(4));
}

#[test]
fn lookup_is_exact() {
    let store = Store { tasks: vec![task(0, "Milk", false)], completed: vec![] };
    assert_eq!(get_id_by_name(&store, "milk"), None);
    assert_eq!(get_id_by_name(&store, "Milk "), None);
    assert_eq!(get_id_by_name(&store, "Mil"), None);
    assert_eq!(get_id_by_name(&store, ""), None);
    assert_eq!(get_id_by_name(&store, "Milk"), Some(0));
}

#[test]
fn lookup_does_not_search_completed_tasks() {
    let store = Store { tasks: vec![], completed: vec![task(0, "done", true)] };
    assert_eq!(get_id_by_name(&store, "done"), None);
}

#[test]
fn ids_stay_unique_over_a_run_of_operations() {
    let mut store = Store::new();
    let mut now = 100;
    for round in 0..20usize {
        append_task(&mut store, format!("task {}", round), String::new(), now);
        now += 1;
        if round % 3 == 1 {
            complete_task(&mut store, round / 2, now);
            now += 1;
        }
        if round % 5 == 4 {
            complete_task(&mut store, 1000 + round, now);
        }
        let mut ids = all_ids(&store);
        let count = ids.len();
        ids.sort();
        ids.dedup();
        assert_eq!(ids.len(), count);
        assert_eq!(ids, (0..count).collect::<Vec<usize>>());
        assert!(store.tasks.iter().all(|t| !t.completed && t.time_completed == 0));
        assert!(store.completed.iter().all(|t| t.completed));
    }
}
