use kashshaf::books::{
    all_books_query, book_by_id_query, list_books_filtered_query, list_books_query, row_to_book,
    BookRow, BOOK_COLUMNS,
};

fn sample_row(paginated: Option<i64>, in_corpus: Option<i64>) -> BookRow {
    BookRow {
        id: 7,
        corpus: Some("shamela".to_string()),
        title: "Kitab".to_string(),
        author_id: Some(3),
        death_ah: Some(241),
        century_ah: Some(3),
        genre_id: None,
        page_count: Some(10),
        token_count: Some(1000),
        original_id: None,
        paginated,
        tags: Some("[]".to_string()),
        book_meta: None,
        author_meta: None,
        in_corpus,
    }
}

#[test]
fn stored_flags_become_booleans() {
    let b = row_to_book(sample_row(Some(1), Some(0)));
    assert_eq!(b.paginated, Some(true));
    assert_eq!(b.in_corpus, Some(false));
    let b = row_to_book(sample_row(Some(5), None));
    assert_eq!(b.paginated, Some(true));
    assert_eq!(b.in_corpus, None);
    assert_eq!(b.id, 7);
    assert_eq!(b.title, "Kitab");
    assert_eq!(b.death_ah, Some(241));
}

#[test]
fn fixed_book_statements() {
    assert_eq!(
        all_books_query(),
        format!("SELECT {} FROM books ORDER BY death_ah ASC NULLS LAST, id ASC", BOOK_COLUMNS)
    );
    assert_eq!(book_by_id_query(), format!("SELECT {} FROM books WHERE id = ?", BOOK_COLUMNS));
}

#[test]
fn plain_listing_adds_present_filters() {
    let q = list_books_query(Some(4), &Some("x".to_string()), None, None, Some(20));
    assert_eq!(
        q.sql,
        format!(
            "SELECT {} FROM books WHERE 1=1 AND genre_id = ?1 AND corpus = ?2 ORDER BY id LIMIT ?4 OFFSET ?5",
            BOOK_COLUMNS
        )
    );
    assert_eq!(q.limit, 100);
    assert_eq!(q.offset, 20);
    let q = list_books_query(None, &None, Some(3), Some(5), None);
    assert_eq!(
        q.sql,
        format!("SELECT {} FROM books WHERE 1=1 AND century_ah = ?3 ORDER BY id LIMIT ?4 OFFSET ?5", BOOK_COLUMNS)
    );
    assert_eq!((q.limit, q.offset), (5, 0));
}

#[test]
fn filtered_listing_numbers_its_slots() {
    let q = list_books_filtered_query(Some(100), Some(300), &Some(vec![4, 9, 12]), None, Some(50));
    assert_eq!(
        q.sql,
        format!(
            "SELECT {} FROM books WHERE 1=1 AND death_ah >= ?1 AND death_ah <= ?2 AND genre_id IN (?3,?4,?5) ORDER BY death_ah ASC NULLS LAST, id ASC LIMIT ?6 OFFSET ?7",
            BOOK_COLUMNS
        )
    );
    assert_eq!(q.params, vec![100, 300, 4, 9, 12, 10000, 50]);
}

#[test]
fn filtered_listing_without_filters() {
    let q = list_books_filtered_query(None, None, &Some(vec![]), Some(10), None);
    assert_eq!(
        q.sql,
        format!(
            "SELECT {} FROM books WHERE 1=1 ORDER BY death_ah ASC NULLS LAST, id ASC LIMIT ?1 OFFSET ?2",
            BOOK_COLUMNS
        )
    );
    assert_eq!(q.params, vec![10, 0]);
    let q = list_books_filtered_query(None, Some(-5), &None, None, None);
    assert_eq!(
        q.sql,
        format!(
            "SELECT {} FROM books WHERE 1=1 AND death_ah <= ?1 ORDER BY death_ah ASC NULLS LAST, id ASC LIMIT ?2 OFFSET ?3",
            BOOK_COLUMNS
        )
    );
    assert_eq!(q.params, vec![-5, 10000, 0]);
}

#[test]
fn filtered_listing_with_many_genres() {
    let genres: Vec<i64> = (1..=12).collect();
    let q = list_books_filtered_query(Some(1), None, &Some(genres.clone()), None, None);
    let slots: Vec<String> = (2..=13).map(|k| format!("?{}", k)).collect();
    assert_eq!(
        q.sql,
        format!(
            "SELECT {} FROM books WHERE 1=1 AND death_ah >= ?1 AND genre_id IN ({}) ORDER BY death_ah ASC NULLS LAST, id ASC LIMIT ?14 OFFSET ?15",
            BOOK_COLUMNS,
            slots.join(",")
        )
    );
    assert_eq!(q.params.len(), 15);
}
