//! Search history and saved searches.
use vstd::prelude::*;

verus! {

/// A search the user ran, newest first when listed.
pub struct SearchHistoryEntry {
    pub id: i64,
    pub search_type: String,
    pub query_data: String,
    pub display_label: String,
    pub book_filter_count: i64,
    pub book_ids: Option<String>,
    pub created_at: String,
    pub is_saved: bool,
}

/// A search the user saved explicitly.
pub struct SavedSearchEntry {
    pub id: i64,
    pub history_id: Option<i64>,
    pub search_type: String,
    pub query_data: String,
    pub display_label: String,
    pub book_filter_count: i64,
    pub book_ids: Option<String>,
    pub created_at: String,
}

/// How many history entries are kept; older ones are removed.
pub const HISTORY_CAPACITY: i64 = 100;

/// How many entries a listing returns when no limit is given.
pub const DEFAULT_LISTING_LIMIT: i64 = 100;

/// The limit of a history or saved-search listing.
pub fn listing_limit(limit: Option<i64>) -> (r: i64)
    ensures
        r == match limit {
            Some(l) => l,
            None => DEFAULT_LISTING_LIMIT,
        },
{
    match limit {
        Some(l) => l,
        None => DEFAULT_LISTING_LIMIT,
    }
}

pub open spec fn count_or_zero(v: Option<i64>) -> i64 {
    match v {
        Some(c) => c,
        None => 0,
    }
}

/// Rebuilds a history entry from its row; `saved_flag` is 1 when a saved
/// search has the same query, and a missing filter count reads as 0.
pub fn history_entry_from_row(
    id: i64,
    search_type: String,
    query_data: String,
    display_label: String,
    book_filter_count: Option<i64>,
    book_ids: Option<String>,
    created_at: String,
    saved_flag: i64,
) -> (e: SearchHistoryEntry)
    ensures
        e.id == id,
        e.search_type == search_type,
        e.query_data == query_data,
        e.display_label == display_label,
        e.book_filter_count == count_or_zero(book_filter_count),
        e.book_ids == book_ids,
        e.created_at == created_at,
        e.is_saved == (saved_flag == 1),
{
    SearchHistoryEntry {
        id,
        search_type,
        query_data,
        display_label,
        book_filter_count: match book_filter_count {
            Some(c) => c,
            None => 0,
        },
        book_ids,
        created_at,
        is_saved: saved_flag == 1,
    }
}

/// Rebuilds a saved search from its row; a missing filter count reads
/// as 0.
pub fn saved_search_from_row(
    id: i64,
    history_id: Option<i64>,
    search_type: String,
    query_data: String,
    display_label: String,
    book_filter_count: Option<i64>,
    book_ids: Option<String>,
    created_at: String,
) -> (e: SavedSearchEntry)
    ensures
        e.id == id,
        e.history_id == history_id,
        e.search_type == search_type,
        e.query_data == query_data,
        e.display_label == display_label,
        e.book_filter_count == count_or_zero(book_filter_count),
        e.book_ids == book_ids,
        e.created_at == created_at,
{
    SavedSearchEntry {
        id,
        history_id,
        search_type,
        query_data,
        display_label,
        book_filter_count: match book_filter_count {
            Some(c) => c,
            None => 0,
        },
        book_ids,
        created_at,
    }
}

/// A search is saved when some saved search has its query.
pub fn is_saved_from_count(count: i64) -> (r: bool)
    ensures
        r == (count > 0),
{
    count > 0
}

/// A search to record, stamped with the time it is recorded.
pub struct NewSearchRecord {
    pub history_id: Option<i64>,
    pub search_type: String,
    pub query_data: String,
    pub display_label: String,
    pub book_filter_count: i64,
    pub book_ids: Option<String>,
    pub created_at: String,
}

/// Prepares a search for the history (`history_id` absent) or for the
/// saved searches, recorded at `now`.
pub fn prepare_search_record(
    history_id: Option<i64>,
    search_type: String,
    query_data: String,
    display_label: String,
    book_filter_count: i64,
    book_ids: Option<String>,
    now: String,
) -> (r: NewSearchRecord)
    ensures
        r.history_id == history_id,
        r.search_type == search_type,
        r.query_data == query_data,
        r.display_label == display_label,
        r.book_filter_count == book_filter_count,
        r.book_ids == book_ids,
        r.created_at == now,
{
    NewSearchRecord {
        history_id,
        search_type,
        query_data,
        display_label,
        book_filter_count,
        book_ids,
        created_at: now,
    }
}

} // verus!
