//! Snapshots as text: what is read from and written to the backing file.

use vstd::prelude::*;
use crate::document::{
    Json, describe, find_long_fraction, has_long_fraction, parse, parsed, rendered, stringify,
};
use crate::schema::{ShapeError, decode_store, encode_store, lemma_store_round_trip, store_document, store_of};
use crate::store::{Store, StoreView, append_task, complete_task, has_id};
use crate::task::TaskView;

verus! {

/// Why a text is no snapshot.
#[derive(Debug, Clone, PartialEq, Eq)]
pub enum ParseError {
    /// The text is no JSON document. Holds the parser's message.
    Syntax(String),
    /// A number of the text has more digits behind its decimal point than
    /// the parser can count.
    LongFraction,
    /// The text is a JSON document of another shape.
    Shape(ShapeError),
}

/// What a [`ParseError`] stands for in contracts.
pub enum Failure {
    Syntax(Seq<char>),
    LongFraction,
    Shape(ShapeError),
}

impl View for ParseError {
    type V = Failure;

    open spec fn view(&self) -> Failure {
        match self {
            ParseError::Syntax(message) => Failure::Syntax(message@),
            ParseError::LongFraction => Failure::LongFraction,
            ParseError::Shape(e) => Failure::Shape(*e),
        }
    }
}

/// The message for a number with too long a fraction.
pub open spec fn long_fraction_message() -> Seq<char> {
    "a number has too many digits behind its decimal point"@
}

/// The message for a document of another shape.
pub open spec fn shape_message(error: ShapeError) -> Seq<char> {
    match error {
        ShapeError::Tasks => "no array under \"tasks\""@,
        ShapeError::Completed => "no array under \"completed\""@,
        ShapeError::OpenTask(_) => "an element of \"tasks\" is not a task"@,
        ShapeError::CompletedTask(_) => "an element of \"completed\" is not a task"@,
    }
}

impl ParseError {
    /// The error in words, for the user.
    pub fn message(&self) -> (text: String)
        ensures
            match self {
                ParseError::Syntax(m) => text@ == m@,
                ParseError::LongFraction => text@ == long_fraction_message(),
                ParseError::Shape(e) => text@ == shape_message(*e),
            },
    {
        match self {
            ParseError::Syntax(m) => m.clone(),
            ParseError::LongFraction => {
                "a number has too many digits behind its decimal point".to_owned()
            },
            ParseError::Shape(ShapeError::Tasks) => "no array under \"tasks\"".to_owned(),
            ParseError::Shape(ShapeError::Completed) => "no array under \"completed\"".to_owned(),
            ParseError::Shape(ShapeError::OpenTask(_)) => {
                "an element of \"tasks\" is not a task".to_owned()
            },
            ParseError::Shape(ShapeError::CompletedTask(_)) => {
                "an element of \"completed\" is not a task".to_owned()
            },
        }
    }
}

/// The store that a text stands for: no number of the text may have too
/// long a fraction, the text has to be JSON, and the JSON a snapshot.
pub open spec fn snapshot_of(text: Seq<char>) -> Result<StoreView, Failure> {
    if has_long_fraction(text) {
        Err(Failure::LongFraction)
    } else {
        match parsed(text) {
            Err(message) => Err(Failure::Syntax(message)),
            Ok(document) => match store_of(document) {
                Ok(store) => Ok(store),
                Err(e) => Err(Failure::Shape(e)),
            },
        }
    }
}

/// The text that is written for a store.
pub open spec fn snapshot_text(store: StoreView) -> Seq<char> {
    rendered(store_document(store))
}

/// The text that was written for `document` is one that the parser takes,
/// and it reads the text as `document`.
pub open spec fn reads_back(document: Json) -> bool {
    &&& !has_long_fraction(rendered(document))
    &&& parsed(rendered(document)) == Ok::<Json, Seq<char>>(document)
}

/// Reads a store from the text of a snapshot. The text is looked through
/// for a fraction that the parser cannot count before the parser is called.
pub fn load_from_text(text: &str) -> (result: Result<Store, ParseError>)
    ensures
        match snapshot_of(text@) {
            Ok(store) => result is Ok && result->Ok_0@ == store,
            Err(failure) => result is Err && result->Err_0@ == failure,
        },
{
    if find_long_fraction(text) {
        return Err(ParseError::LongFraction);
    }
    match parse(text) {
        Ok(document) => match decode_store(&document) {
            Ok(store) => Ok(store),
            Err(e) => Err(ParseError::Shape(e)),
        },
        Err(e) => Err(ParseError::Syntax(describe(&e))),
    }
}

/// Writes the whole store as the text of a snapshot. Where the parser reads
/// the text back as the document that was written, the text loads as this
/// store.
pub fn save_to_text(store: &Store) -> (text: String)
    ensures
        text@ == snapshot_text(store@),
        reads_back(store_document(store@)) ==> snapshot_of(text@) == Ok::<StoreView, Failure>(
            store@,
        ),
{
    proof {
        store.lemma_representable();
        lemma_store_round_trip(store@);
    }
    stringify(encode_store(store))
}

/// Creates a task as [`append_task`] does and returns the text of the
/// snapshot to be written.
pub fn create(store: &mut Store, name: String, description: String, now: u64) -> (text: String)
    requires
        old(store)@.count() <= usize::MAX,
    ensures
        final(store)@ == old(store)@.create(name@, description@, now as nat),
        text@ == snapshot_text(final(store)@),
        reads_back(store_document(final(store)@)) ==> snapshot_of(text@) == Ok::<
            StoreView,
            Failure,
        >(final(store)@),
{
    append_task(store, name, description, now);
    save_to_text(store)
}

/// Completes a task as [`complete_task`] does and returns the text of the
/// snapshot to be written. For an identifier that no open task has, that is
/// the text of the store as it was.
pub fn complete(store: &mut Store, task_id: usize, now: u64) -> (text: String)
    ensures
        final(store)@ == old(store)@.complete(task_id as nat, now as nat),
        text@ == snapshot_text(final(store)@),
        !has_id(old(store)@.tasks, task_id as nat) ==> *final(store) == *old(store) && text@
            == snapshot_text(old(store)@),
        reads_back(store_document(final(store)@)) ==> snapshot_of(text@) == Ok::<
            StoreView,
            Failure,
        >(final(store)@),
{
    complete_task(store, task_id, now);
    save_to_text(store)
}

/// Saving, loading and saving again writes the same text as saving once, for
/// every store whose document the parser reads back as it was written.
pub proof fn lemma_save_load_save(store: StoreView)
    requires
        store.representable(),
        reads_back(store_document(store)),
    ensures
        snapshot_of(snapshot_text(store)) == Ok::<StoreView, Failure>(store),
        snapshot_text(snapshot_of(snapshot_text(store))->Ok_0) == snapshot_text(store),
{
    lemma_store_round_trip(store);
}

/// Creating a task and loading what was saved shows the store with exactly
/// one more open task: the new one, not completed, created at `now`, under
/// the next identifier. The other tasks are as they were. This holds where
/// the parser reads the saved text back as the document that was written.
pub proof fn lemma_create_then_load(
    store: StoreView,
    name: Seq<char>,
    description: Seq<char>,
    now: nat,
)
    requires
        store.representable(),
        store.count() <= usize::MAX,
        now <= u64::MAX,
        reads_back(store_document(store.create(name, description, now))),
    ensures
        snapshot_of(snapshot_text(store.create(name, description, now))) matches Ok(loaded)
            && loaded.tasks == store.tasks.push(
            TaskView {
                id: store.count(),
                name,
                description,
                time_created: now,
                completed: false,
                time_completed: 0,
            },
        ) && loaded.completed == store.completed,
{
    let next = store.create(name, description, now);
    assert forall|i: int| 0 <= i < next.tasks.len() implies next.tasks[i].representable() by {
        if i < store.tasks.len() {
            assert(next.tasks[i] == store.tasks[i]);
        }
    }
    lemma_store_round_trip(next);
}

/// A text that parses to the document of a store loads as that store.
pub proof fn lemma_load_inverts_save(text: Seq<char>, store: StoreView)
    requires
        store.representable(),
        !has_long_fraction(text),
        parsed(text) == Ok::<Json, Seq<char>>(store_document(store)),
    ensures
        snapshot_of(text) == Ok::<StoreView, Failure>(store),
{
    lemma_store_round_trip(store);
}

/// Completing an identifier that no open task has leaves the text of the
/// snapshot as it was.
pub proof fn lemma_unknown_id_keeps_text(store: StoreView, id: nat, now: nat)
    requires
        !has_id(store.tasks, id),
    ensures
        snapshot_text(store.complete(id, now)) == snapshot_text(store),
{
}

} // verus!
