use kashshaf::collections::{
    collection_from_row, encode_book_ids, finish_create_collection, finish_rename, finish_update,
    not_found_error, prepare_books_update, prepare_collection, prepare_description_update,
    truncate_description, NewCollection,
};
use kashshaf::error::KashshafError;
use kashshaf::history::{
    history_entry_from_row, is_saved_from_count, listing_limit, prepare_search_record,
    saved_search_from_row,
};

#[test]
fn description_is_cut_to_150_chars() {
    assert_eq!(truncate_description(None), None);
    assert_eq!(truncate_description(Some("short".to_string())), Some("short".to_string()));
    let long: String = "ب".repeat(200);
    let cut = truncate_description(Some(long)).unwrap();
    assert_eq!(cut.chars().count(), 150);
    assert_eq!(cut, "ب".repeat(150));
    let exact: String = "x".repeat(150);
    assert_eq!(truncate_description(Some(exact.clone())), Some(exact));
}

#[test]
fn book_ids_are_stored_as_compact_json() {
    assert_eq!(encode_book_ids(&vec![]), "[]");
    assert_eq!(encode_book_ids(&vec![3, -1, 42]), "[3,-1,42]");
    assert_eq!(encode_book_ids(&vec![i64::MIN, i64::MAX]), format!("[{},{}]", i64::MIN, i64::MAX));
}

#[test]
fn stored_book_ids_read_back() {
    for ids in [vec![], vec![0], vec![5, -7, 123456789], vec![i64::MIN, 0, i64::MAX]] {
        let json = encode_book_ids(&ids);
        let c = collection_from_row(1, "n".to_string(), None, &json, "a".to_string(), "b".to_string());
        assert_eq!(c.book_ids, ids);
    }
}

#[test]
fn unreadable_book_ids_read_as_none() {
    let c = collection_from_row(2, "n".to_string(), Some("d".to_string()), "not json", "a".to_string(), "b".to_string());
    assert!(c.book_ids.is_empty());
    assert_eq!(c.id, 2);
    assert_eq!(c.description, Some("d".to_string()));
    assert_eq!(c.created_at, "a");
    assert_eq!(c.updated_at, "b");
}

#[test]
fn new_collection_at_a_given_time() {
    let n = prepare_collection(
        "Fiqh".to_string(),
        vec![1, 2],
        Some("y".repeat(151)),
        "2024-01-01T00:00:00+00:00".to_string(),
    );
    assert_eq!(n.name, "Fiqh");
    assert_eq!(n.book_ids, vec![1, 2]);
    assert_eq!(n.book_ids_json, "[1,2]");
    assert_eq!(n.description.unwrap().len(), 150);
    assert_eq!(n.created_at, "2024-01-01T00:00:00+00:00");
}

#[test]
fn updates_carry_their_time() {
    let u = prepare_books_update(&vec![-4, 5], "t1".to_string());
    assert_eq!(u.book_ids_json, "[-4,5]");
    assert_eq!(u.updated_at, "t1");
    let u = prepare_description_update(Some("z".repeat(160)), "t2".to_string());
    assert_eq!(u.description, Some("z".repeat(150)));
    assert_eq!(u.updated_at, "t2");
    let u = prepare_description_update(None, "t3".to_string());
    assert_eq!(u.description, None);
}

fn draft() -> NewCollection {
    NewCollection {
        name: "Hadith".to_string(),
        description: None,
        book_ids: vec![9],
        book_ids_json: "[9]".to_string(),
        created_at: "t0".to_string(),
    }
}

#[test]
fn created_collection_carries_its_row_id() {
    let c = finish_create_collection(draft(), Ok(17)).unwrap();
    assert_eq!(c.id, 17);
    assert_eq!(c.name, "Hadith");
    assert_eq!(c.book_ids, vec![9]);
    assert_eq!(c.created_at, "t0");
    assert_eq!(c.updated_at, "t0");
}

#[test]
fn duplicate_collection_name_is_reported() {
    let e = finish_create_collection(
        draft(),
        Err("UNIQUE constraint failed: collections.name".to_string()),
    )
    .err()
    .unwrap();
    assert_eq!(e, KashshafError::Database("Collection \"Hadith\" already exists".to_string()));
    let e = finish_create_collection(draft(), Err("disk I/O error".to_string())).err().unwrap();
    assert_eq!(e, KashshafError::Database("disk I/O error".to_string()));
}

#[test]
fn update_of_missing_collection() {
    assert_eq!(finish_update(4, Ok(1)), Ok(()));
    assert_eq!(
        finish_update(4, Ok(0)),
        Err(KashshafError::Database("Collection with id 4 not found".to_string()))
    );
    assert_eq!(
        finish_update(-12, Ok(0)),
        Err(KashshafError::Database("Collection with id -12 not found".to_string()))
    );
    assert_eq!(finish_update(4, Err("boom".to_string())), Err(KashshafError::Database("boom".to_string())));
    assert_eq!(
        not_found_error(i64::MIN),
        KashshafError::Database(format!("Collection with id {} not found", i64::MIN))
    );
}

#[test]
fn rename_conflicts_and_misses() {
    assert_eq!(finish_rename(1, "B", Ok(1)), Ok(()));
    assert_eq!(
        finish_rename(1, "B", Err("UNIQUE constraint failed: collections.name".to_string())),
        Err(KashshafError::Database("Collection \"B\" already exists".to_string()))
    );
    assert_eq!(
        finish_rename(8, "B", Ok(0)),
        Err(KashshafError::Database("Collection with id 8 not found".to_string()))
    );
}

#[test]
fn history_rows_are_read() {
    let e = history_entry_from_row(
        1,
        "simple".to_string(),
        "{}".to_string(),
        "label".to_string(),
        None,
        Some("1,2".to_string()),
        "t".to_string(),
        1,
    );
    assert_eq!(e.book_filter_count, 0);
    assert!(e.is_saved);
    let e = history_entry_from_row(2, "s".to_string(), "q".to_string(), "l".to_string(), Some(3), None, "t".to_string(), 0);
    assert_eq!(e.book_filter_count, 3);
    assert!(!e.is_saved);
    let s = saved_search_from_row(5, Some(2), "s".to_string(), "q".to_string(), "l".to_string(), None, None, "t".to_string());
    assert_eq!(s.book_filter_count, 0);
    assert_eq!(s.history_id, Some(2));
}

#[test]
fn saved_searches_and_limits() {
    assert!(is_saved_from_count(1));
    assert!(is_saved_from_count(3));
    assert!(!is_saved_from_count(0));
    assert_eq!(listing_limit(None), 100);
    assert_eq!(listing_limit(Some(7)), 7);
    let r = prepare_search_record(None, "s".to_string(), "q".to_string(), "l".to_string(), 2, None, "t".to_string());
    assert_eq!(r.created_at, "t");
    assert_eq!(r.book_filter_count, 2);
}
