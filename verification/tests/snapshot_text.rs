use taskbook::schema::ShapeError;
use taskbook::snapshot::{complete, create, load_from_text, save_to_text, ParseError};
use taskbook::store::Store;
use taskbook::task::Task;

fn sample() -> Store {
    Store {
        tasks: vec![Task {
            id: 1,
            name: "Walk dog".to_string(),
            description: "around the block".to_string(),
            time_created: 1700000100,
            completed: false,
            time_completed: 0,
        }],
        completed: vec![Task {
            id: 0,
            name: "Buy milk".to_string(),
            description: String::new(),
            time_created: 1700000000,
            completed: true,
            time_completed: 1700000200,
        }],
    }
}

const SAMPLE_TEXT: &str = "{\"tasks\":[{\"id\":1,\"name\":\"Walk dog\",\"description\":\"around the block\",\"time_created\":1700000100,\"completed\":false,\"time_completed\":0}],\"completed\":[{\"id\":0,\"name\":\"Buy milk\",\"description\":\"\",\"time_created\":1700000000,\"completed\":true,\"time_completed\":1700000200}]}";

#[test]
fn empty_store_text() {
    assert_eq!(save_to_text(&Store::new()), "{\"tasks\":[],\"completed\":[]}");
}

#[test]
fn store_text_has_the_fields_in_order() {
    assert_eq!(save_to_text(&sample()), SAMPLE_TEXT);
}

#[test]
fn text_loads_as_the_store() {
    assert_eq!(load_from_text(SAMPLE_TEXT), Ok(sample()));
}

#[test]
fn empty_snapshot_loads_as_the_empty_store() {
    assert_eq!(load_from_text("{\"tasks\":[],\"completed\":[]}"), Ok(Store::new()));
}

#[test]
fn save_load_save_writes_the_same_text() {
    let first = save_to_text(&sample());
    let loaded = load_from_text(&first).unwrap();
    assert_eq!(loaded, sample());
    assert_eq!(save_to_text(&loaded), first);
}

#[test]
fn round_trip_keeps_unusual_strings() {
    let mut store = Store::new();
    let name = "quote \" backslash \\ tab \t newline \n bell \u{7} \u{e9}\u{4e16}\u{1f600}";
    let description = "a description that is longer than thirty bytes, to leave the short form";
    create(&mut store, name.to_string(), description.to_string(), u64::MAX);
    let text = save_to_text(&store);
    let loaded = load_from_text(&text).unwrap();
    assert_eq!(loaded, store);
    assert_eq!(loaded.tasks[0].name, name);
    assert_eq!(loaded.tasks[0].time_created, u64::MAX);
    assert_eq!(save_to_text(&loaded), text);
}

#[test]
fn round_trip_keeps_large_ids() {
    let store = Store {
        tasks: vec![Task {
            id: usize::MAX,
            name: "n".to_string(),
            description: String::new(),
            time_created: 0,
            completed: false,
            time_completed: 0,
        }],
        completed: vec![],
    };
    assert_eq!(load_from_text(&save_to_text(&store)), Ok(store));
}

#[test]
fn create_then_load_shows_one_more_open_task() {
    let mut store = sample();
    let text = create(&mut store, "Call home".to_string(), "before noon".to_string(), 1700000300);
    let loaded = load_from_text(&text).unwrap();
    assert_eq!(loaded.tasks.len(), sample().tasks.len() + 1);
    assert_eq!(loaded.tasks[0], sample().tasks[0]);
    assert_eq!(loaded.completed, sample().completed);
    assert_eq!(
        loaded.tasks[1],
        Task {
            id: 2,
            name: "Call home".to_string(),
            description: "before noon".to_string(),
            time_created: 1700000300,
            completed: false,
            time_completed: 0,
        }
    );
    assert_eq!(loaded, store);
}

#[test]
fn create_on_empty_store_text() {
    let mut store = Store::new();
    let text = create(&mut store, "Buy milk".to_string(), String::new(), 5);
    assert_eq!(
        text,
        "{\"tasks\":[{\"id\":0,\"name\":\"Buy milk\",\"description\":\"\",\"time_created\":5,\"completed\":false,\"time_completed\":0}],\"completed\":[]}"
    );
}

#[test]
fn complete_then_load_shows_the_task_moved() {
    let mut store = sample();
    let text = complete(&mut store, 1, 1700000400);
    let loaded = load_from_text(&text).unwrap();
    assert!(loaded.tasks.is_empty());
    assert_eq!(loaded.completed.len(), 2);
    assert_eq!(loaded.completed[0], sample().completed[0]);
    assert_eq!(
        loaded.completed[1],
        Task {
            id: 1,
            name: "Walk dog".to_string(),
            description: "around the block".to_string(),
            time_created: 1700000100,
            completed: true,
            time_completed: 1700000400,
        }
    );
}

#[test]
fn complete_unknown_id_writes_the_same_text() {
    let mut store = sample();
    let text = complete(&mut store, 42, 1700000400);
    assert_eq!(text, SAMPLE_TEXT);
    assert_eq!(store, sample());
    let again = complete(&mut store, 0, 1700000500);
    assert_eq!(again, SAMPLE_TEXT);
}

#[test]
fn text_that_is_no_json_is_a_syntax_error() {
    match load_from_text("{\"tasks\": [") {
        Err(ParseError::Syntax(message)) => assert_eq!(message, "Unexpected end of JSON"),
        other => panic!("unexpected result: {:?}", other),
    }
    match load_from_text("") {
        Err(ParseError::Syntax(message)) => assert_eq!(message, "Unexpected end of JSON"),
        other => panic!("unexpected result: {:?}", other),
    }
    match load_from_text("{\"tasks\": x}") {
        Err(ParseError::Syntax(message)) => {
            assert_eq!(message, "Unexpected character: x at (1:11)")
        }
        other => panic!("unexpected result: {:?}", other),
    }
}

#[test]
fn syntax_error_message_is_the_parsers() {
    let error = load_from_text("[1,]").unwrap_err();
    assert_eq!(error.message(), "Unexpected character: ] at (1:4)");
}

#[test]
fn shape_error_messages() {
    assert_eq!(ParseError::Shape(ShapeError::Tasks).message(), "no array under \"tasks\"");
    assert_eq!(
        ParseError::Shape(ShapeError::Completed).message(),
        "no array under \"completed\""
    );
    assert_eq!(
        ParseError::Shape(ShapeError::OpenTask(3)).message(),
        "an element of \"tasks\" is not a task"
    );
    assert_eq!(
        ParseError::Shape(ShapeError::CompletedTask(0)).message(),
        "an element of \"completed\" is not a task"
    );
}

#[test]
fn json_of_another_shape_is_a_shape_error() {
    assert_eq!(load_from_text("null"), Err(ParseError::Shape(ShapeError::Tasks)));
    assert_eq!(load_from_text("[]"), Err(ParseError::Shape(ShapeError::Tasks)));
    assert_eq!(load_from_text("{}"), Err(ParseError::Shape(ShapeError::Tasks)));
    assert_eq!(load_from_text("17"), Err(ParseError::Shape(ShapeError::Tasks)));
    assert_eq!(
        load_from_text("{\"tasks\":{},\"completed\":[]}"),
        Err(ParseError::Shape(ShapeError::Tasks))
    );
    assert_eq!(
        load_from_text("{\"tasks\":[]}"),
        Err(ParseError::Shape(ShapeError::Completed))
    );
    assert_eq!(
        load_from_text("{\"tasks\":[],\"completed\":null}"),
        Err(ParseError::Shape(ShapeError::Completed))
    );
    assert_eq!(
        load_from_text("{\"completed\":[]}"),
        Err(ParseError::Shape(ShapeError::Tasks))
    );
}

#[test]
fn missing_lists_come_before_bad_tasks() {
    assert_eq!(
        load_from_text("{\"tasks\":[1],\"completed\":7}"),
        Err(ParseError::Shape(ShapeError::Completed))
    );
}

fn record(id: &str, name: &str, time_created: &str, completed: &str) -> String {
    format!(
        "{{\"id\":{},\"name\":{},\"description\":\"\",\"time_created\":{},\"completed\":{},\"time_completed\":0}}",
        id, name, time_created, completed
    )
}

fn good() -> String {
    record("0", "\"a\"", "1", "false")
}

#[test]
fn first_bad_open_task_is_reported() {
    let bad = record("-1", "\"a\"", "1", "false");
    let text = format!("{{\"tasks\":[{},{},{}],\"completed\":[{}]}}", good(), bad, bad, bad);
    assert_eq!(load_from_text(&text), Err(ParseError::Shape(ShapeError::OpenTask(1))));
}

#[test]
fn first_bad_completed_task_is_reported() {
    let bad = record("0", "5", "1", "true");
    let text = format!(
        "{{\"tasks\":[{}],\"completed\":[{},{},{}]}}",
        good(),
        good(),
        good(),
        bad
    );
    assert_eq!(load_from_text(&text), Err(ParseError::Shape(ShapeError::CompletedTask(2))));
}

fn open_error(record: String) -> Result<Store, ParseError> {
    load_from_text(&format!("{{\"tasks\":[{}],\"completed\":[]}}", record))
}

#[test]
fn task_fields_must_have_their_types() {
    let bad = Err(ParseError::Shape(ShapeError::OpenTask(0)));
    assert!(open_error(good()).is_ok());
    assert_eq!(open_error(record("1.5", "\"a\"", "1", "false")), bad);
    assert_eq!(open_error(record("-3", "\"a\"", "1", "false")), bad);
    assert_eq!(open_error(record("\"0\"", "\"a\"", "1", "false")), bad);
    assert_eq!(open_error(record("null", "\"a\"", "1", "false")), bad);
    assert_eq!(open_error(record("1e2", "\"a\"", "1", "false")), bad);
    assert_eq!(open_error(record("0", "7", "1", "false")), bad);
    assert_eq!(open_error(record("0", "null", "1", "false")), bad);
    assert_eq!(open_error(record("0", "\"a\"", "\"1\"", "false")), bad);
    assert_eq!(open_error(record("0", "\"a\"", "-1", "false")), bad);
    assert_eq!(open_error(record("0", "\"a\"", "1", "0")), bad);
    assert_eq!(open_error(record("0", "\"a\"", "1", "\"false\"")), bad);
    assert_eq!(open_error("{}".to_string()), bad);
    assert_eq!(open_error("[]".to_string()), bad);
    assert_eq!(open_error("3".to_string()), bad);
    assert_eq!(
        open_error("{\"id\":0,\"name\":\"a\",\"description\":\"\",\"time_created\":1,\"completed\":false}".to_string()),
        bad
    );
    assert_eq!(
        open_error("{\"id\":0,\"name\":\"a\",\"time_created\":1,\"completed\":false,\"time_completed\":0}".to_string()),
        bad
    );
}

#[test]
fn field_order_and_other_fields_do_not_matter() {
    let text = "  {\n \"completed\" : [ ],\n \"version\": 3,\n \"tasks\" : [ { \"time_completed\": 0, \"completed\": false, \"note\": [1, 2], \"time_created\": 8, \"description\": \"d\", \"name\": \"n\", \"id\": 12 } ] }";
    let store = load_from_text(text).unwrap();
    assert_eq!(
        store,
        Store {
            tasks: vec![Task {
                id: 12,
                name: "n".to_string(),
                description: "d".to_string(),
                time_created: 8,
                completed: false,
                time_completed: 0,
            }],
            completed: vec![],
        }
    );
}

#[test]
fn flags_are_read_as_they_stand() {
    let text = "{\"tasks\":[{\"id\":0,\"name\":\"a\",\"description\":\"\",\"time_created\":1,\"completed\":true,\"time_completed\":9}],\"completed\":[]}";
    let store = load_from_text(text).unwrap();
    assert!(store.tasks[0].completed);
    assert_eq!(store.tasks[0].time_completed, 9);
}

fn with_fraction(zeros: usize, tail: &str) -> String {
    format!("{{\"tasks\":[],\"completed\":[],\"x\":0.{}{}}}", "0".repeat(zeros), tail)
}

#[test]
fn fraction_that_the_parser_cannot_count_is_an_error() {
    assert_eq!(load_from_text(&with_fraction(32769, "")), Err(ParseError::LongFraction));
    assert_eq!(load_from_text(&with_fraction(32768, "")), Err(ParseError::LongFraction));
    assert_eq!(load_from_text(&with_fraction(40000, "1e5")), Err(ParseError::LongFraction));
    assert_eq!(load_from_text(&format!("0.{}", "0".repeat(32769))), Err(ParseError::LongFraction));
    assert_eq!(
        load_from_text(&format!("[-12.{}]", "7".repeat(50000))),
        Err(ParseError::LongFraction)
    );
}

#[test]
fn long_fraction_comes_before_the_syntax() {
    assert_eq!(load_from_text(&format!("][ .{}", "3".repeat(32768))), Err(ParseError::LongFraction));
}

#[test]
fn longest_fraction_that_is_counted_is_read() {
    assert_eq!(load_from_text(&with_fraction(32767, "")), Ok(Store::new()));
    assert_eq!(load_from_text(&with_fraction(32767, "1")), Err(ParseError::LongFraction));
    assert_eq!(load_from_text(&with_fraction(32766, "1")), Ok(Store::new()));
    assert_eq!(load_from_text(&with_fraction(32767, "e-9")), Ok(Store::new()));
}

#[test]
fn long_fraction_message() {
    assert_eq!(
        ParseError::LongFraction.message(),
        "a number has too many digits behind its decimal point"
    );
}

#[test]
fn digits_inside_a_string_are_no_fraction() {
    let mut store = Store::new();
    let description = format!("pi is 3.{} and \"so\" on \\", "1".repeat(40000));
    create(&mut store, "long".to_string(), description.clone(), 3);
    let text = save_to_text(&store);
    let loaded = load_from_text(&text).unwrap();
    assert_eq!(loaded, store);
    assert_eq!(loaded.tasks[0].description, description);
    assert_eq!(save_to_text(&loaded), text);
}
