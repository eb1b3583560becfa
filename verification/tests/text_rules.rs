use kashshaf::authors::{is_author_query_searchable, search_authors, AuthorRow};
use kashshaf::normalize::normalize_arabic_for_search;

#[test]
fn normalize_folds_alef_forms() {
    assert_eq!(normalize_arabic_for_search("أحمد"), "احمد");
    assert_eq!(normalize_arabic_for_search("إسلام"), "اسلام");
    assert_eq!(normalize_arabic_for_search("آمن"), "امن");
}

#[test]
fn normalize_drops_vowel_marks() {
    assert_eq!(normalize_arabic_for_search("مُحَمَّد"), "محمد");
    assert_eq!(normalize_arabic_for_search("ٱلله"), "لله");
    assert_eq!(normalize_arabic_for_search("هٰذا"), "هذا");
}

#[test]
fn normalize_folds_persian_and_urdu_letters() {
    assert_eq!(normalize_arabic_for_search("کتاب"), "كتاب");
    assert_eq!(normalize_arabic_for_search("پچژڤڨ"), "بجزفق");
    assert_eq!(normalize_arabic_for_search("یےۀەۃٹگڭ"), "ييههةتكك");
    assert_eq!(normalize_arabic_for_search("مؤمن"), "مومن");
    assert_eq!(normalize_arabic_for_search("شئ على"), "شي علي");
}

#[test]
fn normalize_keeps_other_text() {
    assert_eq!(normalize_arabic_for_search("Ibn Sina 123"), "Ibn Sina 123");
    assert_eq!(normalize_arabic_for_search(""), "");
}

#[test]
fn normalize_is_idempotent_on_examples() {
    for s in ["أَحْمَدُ بنُ حَنْبَل", "کتاب الۀ", "abc"] {
        let once = normalize_arabic_for_search(s);
        assert_eq!(normalize_arabic_for_search(&once), once);
        assert!(once.chars().count() <= s.chars().count());
    }
}

fn row(id: i64, name: &str, death: Option<i64>, count: i64) -> AuthorRow {
    (id, name.to_string(), death, count)
}

#[test]
fn author_query_length_is_counted_in_bytes() {
    assert!(!is_author_query_searchable("ab"));
    assert!(is_author_query_searchable("abc"));
    // Two Arabic letters are four bytes.
    assert!(is_author_query_searchable("اب"));
    assert!(!is_author_query_searchable("ا"));
}

#[test]
fn short_author_query_finds_nothing() {
    let rows = vec![row(1, "ab", Some(100), 2)];
    assert!(search_authors("ab", &rows).is_empty());
}

#[test]
fn author_search_normalizes_and_lowercases() {
    let rows = vec![
        row(1, "أحمد بن حنبل", Some(241), 3),
        row(2, "الشافعي", None, 5),
        row(3, "AHMAD Test", Some(10), 1),
        row(4, "اَحْمَد", Some(300), 2),
    ];
    let found = search_authors("احمد", &rows);
    assert_eq!(found, vec![(1, "أحمد بن حنبل".to_string(), 241, 3), (4, "اَحْمَد".to_string(), 300, 2)]);
    let found = search_authors("ahmad", &rows);
    assert_eq!(found, vec![(3, "AHMAD Test".to_string(), 10, 1)]);
    let found = search_authors("شافعي", &rows);
    assert_eq!(found, vec![(2, "الشافعي".to_string(), 0, 5)]);
}

#[test]
fn author_search_returns_at_most_fifty_in_order() {
    let rows: Vec<AuthorRow> = (0..80).map(|i| row(i, &format!("name{}", i), Some(i), 1)).collect();
    let found = search_authors("name", &rows);
    assert_eq!(found.len(), 50);
    for (k, f) in found.iter().enumerate() {
        assert_eq!(f.0, k as i64);
    }
    let found = search_authors("name7", &rows);
    let ids: Vec<i64> = found.iter().map(|f| f.0).collect();
    assert_eq!(ids, vec![7, 70, 71, 72, 73, 74, 75, 76, 77, 78, 79]);
}
