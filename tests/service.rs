use flashdeck::error::{ApiError, StorageError};
use flashdeck::handlers::card_handlers::{
    create_card, delete_card, get_all_cards, get_card_by_id, get_cards_by_deck,
    update_card,
};
use flashdeck::handlers::deck_handlers::{
    create_deck, delete_deck_by_id, get_all_decks, get_deck_by_id,
    update_deck_by_id,
};
use flashdeck::handlers::{
    create_card_next, require_addressed, require_deleted, require_reference, require_stored,
    update_card_next, update_deck_next, CardResponse,
    CreateCardRequest, CreateDeckRequest, DeckResponse, UpdateCardRequest, UpdateDeckRequest,
};
use flashdeck::models::{card, deck};
use flashdeck::store::Store;

fn deck_req(name: &str, description: Option<&str>) -> CreateDeckRequest {
    CreateDeckRequest { name: name.to_string(), description: description.map(|d| d.to_string()) }
}

fn card_req(question: &str, answer: &str, deck_id: i32) -> CreateCardRequest {
    CreateCardRequest { question: question.to_string(), answer: answer.to_string(), deck_id }
}

fn same_deck(a: &DeckResponse, b: &DeckResponse) -> bool {
    a.id == b.id
        && a.name == b.name
        && a.description == b.description
        && a.created_at == b.created_at
        && a.updated_at == b.updated_at
}

fn same_card(a: &CardResponse, b: &CardResponse) -> bool {
    a.id == b.id
        && a.question == b.question
        && a.answer == b.answer
        && a.deck_id == b.deck_id
        && a.created_at == b.created_at
        && a.updated_at == b.updated_at
}

#[test]
fn spanish_deck_scenario() {
    let mut store = Store::new();
    let deck = create_deck(&mut store, deck_req("Spanish", None), 100).unwrap();
    assert_eq!(deck.created_at, deck.updated_at);
    assert_eq!(deck.id, 1);
    let card = create_card(&mut store, card_req("hola", "hello", 1), 101).unwrap();
    assert_eq!(card.id, 1);
    assert_eq!(card.deck_id, 1);
    let listed = get_cards_by_deck(&store, 1).unwrap();
    assert_eq!(listed.len(), 1);
    assert_eq!(listed[0].id, 1);
    assert_eq!(listed[0].question, "hola");
    assert_eq!(delete_deck_by_id(&mut store, 1), Ok(()));
    assert_eq!(get_card_by_id(&store, 1).unwrap_err(), ApiError::NotFound);
    assert_eq!(get_card_by_id(&store, 1).unwrap_err().status_code(), 404);
}

#[test]
fn card_for_missing_deck_is_rejected() {
    let mut store = Store::new();
    let err = create_card(&mut store, card_req("q", "a", 999), 5).unwrap_err();
    assert_eq!(err, ApiError::ValidationFailure);
    assert_eq!(err.status_code(), 400);
    assert!(get_all_cards(&store).is_empty());
}

#[test]
fn card_for_missing_deck_leaves_existing_rows() {
    let mut store = Store::new();
    create_deck(&mut store, deck_req("A", None), 1).unwrap();
    create_card(&mut store, card_req("q1", "a1", 1), 2).unwrap();
    assert_eq!(create_card(&mut store, card_req("q2", "a2", 2), 3).unwrap_err(), ApiError::ValidationFailure);
    let all = get_all_cards(&store);
    assert_eq!(all.len(), 1);
    assert_eq!(all[0].question, "q1");
    // the rejected insert consumed no id
    assert_eq!(create_card(&mut store, card_req("q3", "a3", 1), 4).unwrap().id, 2);
}

#[test]
fn created_deck_is_fetched_unchanged() {
    let mut store = Store::new();
    let created = create_deck(&mut store, deck_req("French", Some("verbs")), 42).unwrap();
    assert_eq!(created.created_at, 42);
    assert_eq!(created.updated_at, 42);
    let fetched = get_deck_by_id(&store, created.id).unwrap();
    assert!(same_deck(&created, &fetched));
    assert!(fetched.updated_at >= fetched.created_at);
    assert_eq!(fetched.description.as_deref(), Some("verbs"));
}

#[test]
fn empty_names_are_accepted() {
    let mut store = Store::new();
    let deck = create_deck(&mut store, deck_req("", None), 1).unwrap();
    assert_eq!(deck.name, "");
    let card = create_card(&mut store, card_req("", "", deck.id), 2).unwrap();
    assert_eq!(card.question, "");
}

#[test]
fn deleting_deck_cascades_to_its_cards() {
    let mut store = Store::new();
    let a = create_deck(&mut store, deck_req("A", None), 1).unwrap();
    let b = create_deck(&mut store, deck_req("B", None), 2).unwrap();
    let c1 = create_card(&mut store, card_req("1", "one", a.id), 3).unwrap();
    let c2 = create_card(&mut store, card_req("2", "two", b.id), 4).unwrap();
    let c3 = create_card(&mut store, card_req("3", "three", a.id), 5).unwrap();
    assert_eq!(delete_deck_by_id(&mut store, a.id), Ok(()));
    assert_eq!(get_deck_by_id(&store, a.id).unwrap_err(), ApiError::NotFound);
    assert_eq!(get_card_by_id(&store, c1.id).unwrap_err(), ApiError::NotFound);
    assert_eq!(get_card_by_id(&store, c3.id).unwrap_err(), ApiError::NotFound);
    assert!(same_card(&get_card_by_id(&store, c2.id).unwrap(), &c2));
    assert_eq!(get_all_cards(&store).len(), 1);
    assert_eq!(get_all_decks(&store).len(), 1);
}

#[test]
fn deck_update_with_name_only_keeps_description() {
    let mut store = Store::new();
    let d = create_deck(&mut store, deck_req("Old", Some("keep me")), 10).unwrap();
    let patch = UpdateDeckRequest { name: Some("New".to_string()), description: None };
    let u = update_deck_by_id(&mut store, d.id, patch, 20).unwrap();
    assert_eq!(u.name, "New");
    assert_eq!(u.description.as_deref(), Some("keep me"));
    assert_eq!(u.created_at, 10);
    assert_eq!(u.updated_at, 20);
    assert!(same_deck(&get_deck_by_id(&store, d.id).unwrap(), &u));
}

#[test]
fn deck_update_applies_empty_description() {
    let mut store = Store::new();
    let d = create_deck(&mut store, deck_req("N", Some("text")), 1).unwrap();
    let patch = UpdateDeckRequest { name: None, description: Some(String::new()) };
    let u = update_deck_by_id(&mut store, d.id, patch, 2).unwrap();
    assert_eq!(u.name, "N");
    assert_eq!(u.description.as_deref(), Some(""));
}

#[test]
fn empty_update_still_refreshes_timestamp() {
    let mut store = Store::new();
    let d = create_deck(&mut store, deck_req("N", None), 1).unwrap();
    let u = update_deck_by_id(&mut store, d.id, UpdateDeckRequest { name: None, description: None }, 7).unwrap();
    assert_eq!(u.updated_at, 7);
    assert_ne!(u.updated_at, d.updated_at);
    let c = create_card(&mut store, card_req("q", "a", d.id), 8).unwrap();
    let patch = UpdateCardRequest { question: None, answer: None, deck_id: None };
    let cu = update_card(&mut store, c.id, patch, 9).unwrap();
    assert_eq!(cu.updated_at, 9);
    assert_eq!(cu.created_at, 8);
}

#[test]
fn card_update_with_question_only_keeps_answer_and_deck() {
    let mut store = Store::new();
    let d = create_deck(&mut store, deck_req("D", None), 1).unwrap();
    let c = create_card(&mut store, card_req("q", "a", d.id), 2).unwrap();
    let patch = UpdateCardRequest { question: Some("q2".to_string()), answer: None, deck_id: None };
    let u = update_card(&mut store, c.id, patch, 3).unwrap();
    assert_eq!(u.question, "q2");
    assert_eq!(u.answer, "a");
    assert_eq!(u.deck_id, d.id);
    assert_eq!(u.updated_at, 3);
    assert!(same_card(&get_card_by_id(&store, c.id).unwrap(), &u));
}

#[test]
fn card_can_move_to_another_deck() {
    let mut store = Store::new();
    let a = create_deck(&mut store, deck_req("A", None), 1).unwrap();
    let b = create_deck(&mut store, deck_req("B", None), 1).unwrap();
    let c = create_card(&mut store, card_req("q", "a", a.id), 2).unwrap();
    let patch = UpdateCardRequest { question: None, answer: None, deck_id: Some(b.id) };
    assert_eq!(update_card(&mut store, c.id, patch, 3).unwrap().deck_id, b.id);
    assert!(get_cards_by_deck(&store, a.id).unwrap().is_empty());
    assert_eq!(get_cards_by_deck(&store, b.id).unwrap().len(), 1);
}

#[test]
fn card_update_to_missing_deck_writes_nothing() {
    let mut store = Store::new();
    let d = create_deck(&mut store, deck_req("D", None), 1).unwrap();
    let c = create_card(&mut store, card_req("q", "a", d.id), 2).unwrap();
    let patch = UpdateCardRequest { question: Some("changed".to_string()), answer: None, deck_id: Some(77) };
    assert_eq!(update_card(&mut store, c.id, patch, 3).unwrap_err(), ApiError::ValidationFailure);
    assert!(same_card(&get_card_by_id(&store, c.id).unwrap(), &c));
}

#[test]
fn updating_missing_rows_is_not_found() {
    let mut store = Store::new();
    let patch = UpdateDeckRequest { name: Some("x".to_string()), description: None };
    assert_eq!(update_deck_by_id(&mut store, 3, patch, 1).unwrap_err(), ApiError::NotFound);
    let cpatch = UpdateCardRequest { question: None, answer: None, deck_id: Some(1) };
    assert_eq!(update_card(&mut store, 3, cpatch, 1).unwrap_err(), ApiError::NotFound);
}

#[test]
fn cards_of_missing_deck_is_not_found() {
    let mut store = Store::new();
    assert_eq!(get_cards_by_deck(&store, 1).unwrap_err(), ApiError::NotFound);
    let d = create_deck(&mut store, deck_req("D", None), 1).unwrap();
    assert!(get_cards_by_deck(&store, d.id).unwrap().is_empty());
}

#[test]
fn deleting_missing_rows_is_not_found() {
    let mut store = Store::new();
    assert_eq!(delete_deck_by_id(&mut store, 5), Err(ApiError::NotFound));
    assert_eq!(delete_card(&mut store, 5), Err(ApiError::NotFound));
    let d = create_deck(&mut store, deck_req("D", None), 1).unwrap();
    let c = create_card(&mut store, card_req("q", "a", d.id), 1).unwrap();
    assert_eq!(delete_card(&mut store, c.id), Ok(()));
    assert_eq!(delete_card(&mut store, c.id), Err(ApiError::NotFound));
    assert_eq!(delete_deck_by_id(&mut store, d.id), Ok(()));
    assert_eq!(delete_deck_by_id(&mut store, d.id), Err(ApiError::NotFound));
}

#[test]
fn ids_are_never_reused() {
    let mut store = Store::new();
    let a = create_deck(&mut store, deck_req("A", None), 1).unwrap();
    delete_deck_by_id(&mut store, a.id).unwrap();
    let b = create_deck(&mut store, deck_req("B", None), 2).unwrap();
    assert_eq!(b.id, 2);
}

#[test]
fn lists_keep_insertion_order() {
    let mut store = Store::new();
    create_deck(&mut store, deck_req("first", None), 1).unwrap();
    create_deck(&mut store, deck_req("second", None), 2).unwrap();
    let names: Vec<String> = get_all_decks(&store).into_iter().map(|d| d.name).collect();
    assert_eq!(names, vec!["first".to_string(), "second".to_string()]);
}

#[test]
fn decisions_map_storage_results() {
    assert_eq!(require_addressed(Ok(Some(3))), Ok(3));
    assert_eq!(require_addressed::<i32>(Ok(None)), Err(ApiError::NotFound));
    assert_eq!(require_addressed::<i32>(Err(StorageError)), Err(ApiError::StorageFailure));
    assert_eq!(require_reference(Ok(true)), Ok(()));
    assert_eq!(require_reference(Ok(false)), Err(ApiError::ValidationFailure));
    assert_eq!(require_reference(Err(StorageError)), Err(ApiError::StorageFailure));
    assert_eq!(require_deleted(Ok(1)), Ok(()));
    assert_eq!(require_deleted(Ok(0)), Err(ApiError::NotFound));
    assert_eq!(require_deleted(Err(StorageError)), Err(ApiError::StorageFailure));
    assert_eq!(require_stored(Ok(5)), Ok(5));
    assert_eq!(require_stored::<i32>(Err(StorageError)), Err(ApiError::StorageFailure));
    assert_eq!(ApiError::StorageFailure.status_code(), 500);
}


fn stored_card() -> card::Model {
    card::Model {
        id: 4,
        question: "q".to_string(),
        answer: "a".to_string(),
        deck_id: 2,
        created_at: 10,
        updated_at: 10,
    }
}

#[test]
fn card_creation_step_follows_deck_lookup() {
    let ok = create_card_next(Ok(true), card_req("q", "a", 2)).unwrap();
    assert_eq!(ok.question, "q");
    assert_eq!(ok.deck_id, 2);
    let missing = create_card_next(Ok(false), card_req("q", "a", 2)).unwrap_err();
    assert_eq!(missing, ApiError::ValidationFailure);
    let failed = create_card_next(Err(StorageError), card_req("q", "a", 2)).unwrap_err();
    assert_eq!(failed, ApiError::StorageFailure);
}

#[test]
fn card_update_step_checks_before_writing() {
    let patch = || UpdateCardRequest { question: None, answer: Some("b".to_string()), deck_id: Some(3) };
    let row = update_card_next(Ok(Some(stored_card())), patch(), Some(Ok(true)), 20).unwrap();
    assert_eq!(row.id, 4);
    assert_eq!(row.question, "q");
    assert_eq!(row.answer, "b");
    assert_eq!(row.deck_id, 3);
    assert_eq!(row.created_at, 10);
    assert_eq!(row.updated_at, 20);
    let bad_deck = update_card_next(Ok(Some(stored_card())), patch(), Some(Ok(false)), 20);
    assert_eq!(bad_deck.unwrap_err(), ApiError::ValidationFailure);
    let failed_lookup = update_card_next(Ok(Some(stored_card())), patch(), Some(Err(StorageError)), 20);
    assert_eq!(failed_lookup.unwrap_err(), ApiError::StorageFailure);
    let no_card = update_card_next(Ok(None), patch(), Some(Ok(true)), 20);
    assert_eq!(no_card.unwrap_err(), ApiError::NotFound);
    let card_lookup_failed = update_card_next(Err(StorageError), patch(), Some(Ok(false)), 20);
    assert_eq!(card_lookup_failed.unwrap_err(), ApiError::StorageFailure);
    let keep_deck = UpdateCardRequest { question: Some("q2".to_string()), answer: None, deck_id: None };
    let row = update_card_next(Ok(Some(stored_card())), keep_deck, None, 30).unwrap();
    assert_eq!(row.deck_id, 2);
    assert_eq!(row.answer, "a");
    assert_eq!(row.question, "q2");
}

#[test]
fn deck_update_step_follows_lookup() {
    let stored = deck::Model { id: 1, name: "n".to_string(), description: None, created_at: 1, updated_at: 1 };
    let patch = UpdateDeckRequest { name: None, description: Some("d".to_string()) };
    let row = update_deck_next(Ok(Some(stored)), patch, 9).unwrap();
    assert_eq!(row.name, "n");
    assert_eq!(row.description.as_deref(), Some("d"));
    assert_eq!(row.updated_at, 9);
    let patch = UpdateDeckRequest { name: None, description: None };
    assert_eq!(update_deck_next(Ok(None), patch, 9).unwrap_err(), ApiError::NotFound);
    let patch = UpdateDeckRequest { name: None, description: None };
    assert_eq!(update_deck_next(Err(StorageError), patch, 9).unwrap_err(), ApiError::StorageFailure);
}
