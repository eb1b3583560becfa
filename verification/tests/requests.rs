use kashshaf::announcements::{check_announcements_schema, AnnouncementsManifest};
use kashshaf::api::{book_ids_filter, page_window, parse_book_ids};
use kashshaf::error::KashshafError;
use kashshaf::search::{
    mode_or_default, patterns_by_form, proximity_terms, token_field_to_search_mode, NameSearchForm,
    SearchMode, TokenField,
};
use kashshaf::state::{cancel_download_outcome, require_state, update_status_unknown, AppState};

#[test]
fn page_window_defaults_and_cap() {
    assert_eq!(page_window(None, None), (50, 0));
    assert_eq!(page_window(Some(500), Some(30)), (100, 30));
    assert_eq!(page_window(Some(100), None), (100, 0));
    assert_eq!(page_window(Some(0), None), (0, 0));
}

#[test]
fn book_ids_parameter_is_read_leniently() {
    assert_eq!(parse_book_ids("1,2,3"), vec![1, 2, 3]);
    assert_eq!(parse_book_ids(" 4 ,\t5\n, x, ,+6,-7"), vec![4, 5, 6, -7]);
    assert_eq!(parse_book_ids(""), Vec::<i64>::new());
    assert_eq!(parse_book_ids(",,"), Vec::<i64>::new());
    assert_eq!(parse_book_ids("007"), vec![7]);
    assert_eq!(parse_book_ids("9223372036854775807,9223372036854775808"), vec![i64::MAX]);
    assert_eq!(parse_book_ids("-9223372036854775808,-9223372036854775809"), vec![i64::MIN]);
    assert_eq!(parse_book_ids("1 2,3\u{3000}"), vec![3]);
    assert_eq!(book_ids_filter(&None), None);
    assert_eq!(book_ids_filter(&Some("8,9".to_string())), Some(vec![8, 9]));
}

#[test]
fn book_ids_parameter_agrees_with_std() {
    let samples = [
        "1,2", " 3 ", "+", "-", "-0", "+0", "12a", "١٢", "\u{A0}5\u{2009}", "99999999999999999999",
        "-1,-2,-3", "  ,  ", "0x10", "1_000",
    ];
    for s in samples {
        let expected: Vec<i64> = s.split(',').filter_map(|id| id.trim().parse().ok()).collect();
        assert_eq!(parse_book_ids(s), expected, "input {:?}", s);
    }
}

#[test]
fn written_id_lists_read_back() {
    for ids in [vec![1i64], vec![-3, 0, 77], vec![i64::MAX, i64::MIN]] {
        let text = ids.iter().map(|i| i.to_string()).collect::<Vec<_>>().join(",");
        assert_eq!(parse_book_ids(&text), ids);
    }
}

fn manifest(v: i64) -> AnnouncementsManifest {
    AnnouncementsManifest { schema_version: v, announcements: vec![] }
}

#[test]
fn announcement_schema_is_checked() {
    assert!(check_announcements_schema(manifest(1)).is_ok());
    match check_announcements_schema(manifest(2)) {
        Err(e) => assert_eq!(e, KashshafError::Other("Unsupported announcements schema version: 2".to_string())),
        Ok(_) => panic!("schema 2 accepted"),
    }
    match check_announcements_schema(manifest(-1)) {
        Err(e) => assert_eq!(e, KashshafError::Other("Unsupported announcements schema version: -1".to_string())),
        Ok(_) => panic!("schema -1 accepted"),
    }
}

#[test]
fn token_fields_map_to_modes() {
    assert_eq!(token_field_to_search_mode(TokenField::Surface), SearchMode::Surface);
    assert_eq!(token_field_to_search_mode(TokenField::Lemma), SearchMode::Lemma);
    assert_eq!(token_field_to_search_mode(TokenField::Root), SearchMode::Root);
    let (a, b) = proximity_terms("x".to_string(), TokenField::Root, "y".to_string(), TokenField::Surface);
    assert_eq!((a.query.as_str(), a.mode), ("x", SearchMode::Root));
    assert_eq!((b.query.as_str(), b.mode), ("y", SearchMode::Surface));
    assert_eq!(mode_or_default(None), SearchMode::Lemma);
    assert_eq!(mode_or_default(Some(SearchMode::Root)), SearchMode::Root);
}

#[test]
fn name_forms_keep_their_order() {
    let forms = vec![
        NameSearchForm { patterns: vec!["a".to_string(), "b".to_string()] },
        NameSearchForm { patterns: vec![] },
        NameSearchForm { patterns: vec!["c".to_string()] },
    ];
    assert_eq!(
        patterns_by_form(forms),
        vec![vec!["a".to_string(), "b".to_string()], vec![], vec!["c".to_string()]]
    );
}

#[test]
fn data_directory_layout() {
    let s = AppState::new("/data".to_string(), None);
    let sep = std::path::MAIN_SEPARATOR;
    assert_eq!(s.db_path, format!("/data{}corpus.db", sep));
    assert_eq!(s.metadata_db_path, format!("/data{}metadata.db", sep));
    assert_eq!(s.index_path, format!("/data{}tantivy_index", sep));
    assert_eq!(s.settings_db_path, format!("/data{}settings.db", sep));
    assert_eq!(s.data_dir, "/data");
    let s = AppState::new("/data/".to_string(), Some("/cfg/settings.db".to_string()));
    assert_eq!(s.db_path, "/data/corpus.db");
    assert_eq!(s.settings_db_path, "/cfg/settings.db");
}

#[test]
fn state_must_be_loaded() {
    assert_eq!(require_state(Some(3)), Ok(3));
    assert_eq!(
        require_state::<i32>(None),
        Err(KashshafError::CorpusNotReady(
            "Corpus data not downloaded. Please download the corpus first.".to_string()
        ))
    );
    assert_eq!(cancel_download_outcome(true), Ok(()));
    assert_eq!(
        cancel_download_outcome(false),
        Err(KashshafError::Download("No download in progress".to_string()))
    );
}

#[test]
fn unknown_update_status() {
    let s = update_status_unknown("1.2.3");
    assert_eq!(s.current_version, "1.2.3");
    assert_eq!(s.latest_version, "1.2.3");
    assert_eq!(s.min_supported_version, "1.2.3");
    assert!(!s.update_required && !s.update_available);
    assert!(s.release_notes.is_none() && s.download_url.is_none());
}
