//! Collections: named sets of books that the user keeps. Book ids are
//! stored as a JSON array of integers.
use vstd::prelude::*;
use crate::error::KashshafError;
use crate::text::{
    all_digits, canonical_digits, chars_of, contains_chars, decimal, digits_value, is_digit,
    last_comma, lemma_decimal_canonical, lemma_last_comma_after, lemma_no_comma_in_digits, occurs_in, push_signed_decimal, signed_decimal, string_from_chars,
};

verus! {

/// A collection of books.
pub struct Collection {
    pub id: i64,
    pub name: String,
    pub description: Option<String>,
    pub book_ids: Vec<i64>,
    pub created_at: String,
    pub updated_at: String,
}

/// The most characters a description keeps.
pub const DESCRIPTION_MAX_CHARS: usize = 150;

/// The first 150 characters of a text (all of it when shorter).
pub open spec fn truncated(s: Seq<char>) -> Seq<char> {
    if s.len() <= DESCRIPTION_MAX_CHARS {
        s
    } else {
        s.take(DESCRIPTION_MAX_CHARS as int)
    }
}

pub open spec fn truncated_description(d: Option<String>) -> Option<Seq<char>> {
    match d {
        Some(s) => Some(truncated(s@)),
        None => None,
    }
}

pub open spec fn opt_view(d: Option<String>) -> Option<Seq<char>> {
    match d {
        Some(s) => Some(s@),
        None => None,
    }
}

/// Cuts a description down to its first 150 characters.
pub fn truncate_description(description: Option<String>) -> (r: Option<String>)
    ensures
        opt_view(r) == truncated_description(description),
{
    match description {
        Some(d) => {
            let cs = chars_of(d.as_str());
            if cs.len() <= DESCRIPTION_MAX_CHARS {
                Some(d)
            } else {
                let mut kept: Vec<char> = Vec::new();
                let mut i: usize = 0;
                while i < DESCRIPTION_MAX_CHARS
                    invariant
                        i <= DESCRIPTION_MAX_CHARS < cs.len(),
                        kept@ == cs@.take(i as int),
                    decreases DESCRIPTION_MAX_CHARS - i,
                {
                    kept.push(cs[i]);
                    proof {
                        assert(cs@.take(i + 1) =~= cs@.take(i as int).push(cs@[i as int]));
                    }
                    i = i + 1;
                }
                Some(string_from_chars(&kept))
            }
        },
        None => None,
    }
}

/// The comma-separated decimal renderings of the ids.
pub open spec fn json_id_items(ids: Seq<i64>) -> Seq<char>
    decreases ids.len(),
{
    if ids.len() == 0 {
        Seq::empty()
    } else if ids.len() == 1 {
        signed_decimal(ids[0] as int)
    } else {
        json_id_items(ids.drop_last()) + ","@ + signed_decimal(ids.last() as int)
    }
}

/// The compact JSON array of the ids, e.g. `[3,-1,42]`.
pub open spec fn json_id_array(ids: Seq<i64>) -> Seq<char> {
    "["@ + json_id_items(ids) + "]"@
}

/// An integer written canonically: an optional `-`, then digits without
/// leading zeros, within the range of `i64`; `-0` is not one.
pub open spec fn canonical_i64(t: Seq<char>) -> Option<i64> {
    if t.len() > 0 && t[0] == '-' {
        let d = t.drop_first();
        if canonical_digits(d) && 0 < digits_value(d) <= 0x8000_0000_0000_0000 {
            Some((-digits_value(d)) as i64)
        } else {
            None
        }
    } else if canonical_digits(t) && digits_value(t) <= 0x7fff_ffff_ffff_ffff {
        Some(digits_value(t) as i64)
    } else {
        None
    }
}

/// A non-empty list of canonical integers separated by commas.
pub open spec fn canonical_id_list(t: Seq<char>) -> Option<Seq<i64>>
    decreases t.len(),
{
    match last_comma(t) {
        None => match canonical_i64(t) {
            Some(n) => Some(seq![n]),
            None => None,
        },
        Some(k) => if 0 < k < t.len() {
            match (canonical_id_list(t.take(k)), canonical_i64(t.skip(k + 1))) {
                (Some(front), Some(n)) => Some(front.push(n)),
                _ => None,
            }
        } else {
            None
        },
    }
}

/// A compact JSON array of canonical integers, read as a list; `None`
/// for any other text.
pub open spec fn canonical_id_array(s: Seq<char>) -> Option<Seq<i64>> {
    if s.len() >= 2 && s[0] == '[' && s.last() == ']' {
        let inner = s.subrange(1, s.len() - 1);
        if inner.len() == 0 {
            Some(Seq::empty())
        } else {
            canonical_id_list(inner)
        }
    } else {
        None
    }
}

/// Every `i64` written in decimal reads back as itself.
pub proof fn lemma_canonical_i64_of_decimal(n: i64)
    ensures
        canonical_i64(signed_decimal(n as int)) == Some(n),
        last_comma(signed_decimal(n as int)) is None,
        forall|i: int|
            0 <= i < signed_decimal(n as int).len() ==> #[trigger] signed_decimal(n as int)[i]
                != ',',
{
    let t = signed_decimal(n as int);
    if n < 0 {
        let m = (-(n as int)) as nat;
        lemma_decimal_canonical(m);
        assert(t.drop_first() =~= decimal(m));
        assert(t[0] == '-');
        assert forall|i: int| 0 <= i < t.len() implies #[trigger] t[i] != ',' by {
            if i > 0 {
                assert(t[i] == decimal(m)[i - 1]);
                assert(is_digit(decimal(m)[i - 1]));
            }
        }
        lemma_no_comma_in_digits(decimal(m));
        assert(t.drop_last() =~= seq!['-'] + decimal(m).drop_last());
        lemma_last_comma_dash(decimal(m));
    } else {
        lemma_decimal_canonical(n as nat);
        assert(t == decimal(n as nat));
        assert(t[0] != '-') by {
            assert(is_digit(t[0]));
        }
        assert forall|i: int| 0 <= i < t.len() implies #[trigger] t[i] != ',' by {
            assert(is_digit(t[i]));
        }
        lemma_no_comma_in_digits(t);
    }
}

proof fn lemma_last_comma_dash(d: Seq<char>)
    requires
        all_digits(d),
    ensures
        last_comma(seq!['-'] + d) is None,
    decreases d.len(),
{
    if d.len() == 0 {
        assert(seq!['-'] + d =~= seq!['-']);
        assert(seq!['-'].drop_last() =~= Seq::<char>::empty());
        assert(last_comma(Seq::<char>::empty()) is None);
    } else {
        assert((seq!['-'] + d).drop_last() =~= seq!['-'] + d.drop_last());
        assert(is_digit(d[d.len() - 1]));
        assert((seq!['-'] + d).last() == d[d.len() - 1]);
        lemma_last_comma_dash(d.drop_last());
    }
}

proof fn lemma_canonical_id_list_of_items(ids: Seq<i64>)
    requires
        ids.len() > 0,
    ensures
        canonical_id_list(json_id_items(ids)) == Some(ids),
    decreases ids.len(),
{
    if ids.len() == 1 {
        lemma_canonical_i64_of_decimal(ids[0]);
        assert(seq![ids[0]] =~= ids);
    } else {
        let front = json_id_items(ids.drop_last());
        let last = signed_decimal(ids.last() as int);
        let t = front + ","@ + last;
        lemma_canonical_i64_of_decimal(ids.last());
        lemma_last_comma_after(front, last);
        lemma_canonical_id_list_of_items(ids.drop_last());
        reveal_strlit(",");
        lemma_items_nonempty(ids.drop_last());
        assert(t.take(front.len() as int) =~= front);
        assert(t.skip(front.len() as int + 1) =~= last);
        assert(ids.drop_last().push(ids.last()) =~= ids);
    }
}

proof fn lemma_items_nonempty(ids: Seq<i64>)
    requires
        ids.len() > 0,
    ensures
        json_id_items(ids).len() > 0,
    decreases ids.len(),
{
    if ids.len() == 1 {
        lemma_canonical_i64_of_decimal(ids[0]);
        lemma_decimal_canonical(if ids[0] < 0 { (-(ids[0] as int)) as nat } else { ids[0] as nat });
    } else {
        lemma_items_nonempty(ids.drop_last());
    }
}

/// What is stored for a collection's book ids reads back as the same
/// ids: the canonical reading of `json_id_array(ids)` is `ids`.
pub proof fn lemma_book_ids_round_trip(ids: Seq<i64>)
    ensures
        canonical_id_array(json_id_array(ids)) == Some(ids),
{
    reveal_strlit("[");
    reveal_strlit("]");
    let s = json_id_array(ids);
    let items = json_id_items(ids);
    assert(s.subrange(1, s.len() - 1) =~= items);
    if ids.len() == 0 {
        assert(items.len() == 0);
        assert(ids =~= Seq::<i64>::empty());
    } else {
        lemma_items_nonempty(ids);
        lemma_canonical_id_list_of_items(ids);
    }
}

#[verifier::external_type_specification]
#[verifier::external_body]
pub struct ExJsonError(serde_json::Error);

/// `serde_json::to_string` on a list of `i64`: the compact writer puts
/// `[`, the items separated by `,` (each written by itoa, i.e. plain
/// decimal with a leading `-` when negative), and `]`. It succeeds: the
/// output goes to a `Vec<u8>`, whose writes do not fail, and an `i64`
/// always serializes.
#[verifier::external_body]
fn ids_to_json(ids: &Vec<i64>) -> (r: Result<String, serde_json::Error>)
    ensures
        r is Ok,
        r matches Ok(s) ==> s@ == json_id_array(ids@),
{
    serde_json::to_string(ids)
}

/// The list of `i64` that `serde_json::from_str` reads from a text, or
/// `None` when it reports an error.
pub uninterp spec fn json_ids_parse(s: Seq<char>) -> Option<Seq<i64>>;

/// `serde_json::from_str::<Vec<i64>>`, its error dropped. Its result is
/// named `json_ids_parse`; on a canonical compact array of integers (as
/// `canonical_id_array` reads one) it gives that list: serde_json reads
/// `[`, items separated by `,`, `]`, and integers without leading zeros
/// within the range of `i64`.
#[verifier::external_body]
fn ids_from_json(s: &str) -> (r: Option<Vec<i64>>)
    ensures
        r is Some <==> json_ids_parse(s@) is Some,
        r matches Some(v) ==> json_ids_parse(s@) == Some(v@),
        r is Some || canonical_id_array(s@) is None,
        r matches Some(v) ==> (canonical_id_array(s@) matches Some(ids) ==> v@ == ids),
{
    serde_json::from_str::<Vec<i64>>(s).ok()
}

/// The book ids stored with a collection, read back from their JSON; a
/// text that does not parse gives no ids.
pub open spec fn stored_book_ids(json: Seq<char>) -> Seq<i64> {
    match json_ids_parse(json) {
        Some(v) => v,
        None => Seq::empty(),
    }
}

/// What is written when a collection is created.
pub struct NewCollection {
    pub name: String,
    pub description: Option<String>,
    pub book_ids: Vec<i64>,
    pub book_ids_json: String,
    pub created_at: String,
}

/// Encodes book ids as JSON for storage.
pub fn encode_book_ids(book_ids: &Vec<i64>) -> (s: String)
    ensures
        s@ == json_id_array(book_ids@),
{
    match ids_to_json(book_ids) {
        Ok(s) => s,
        Err(_) => {
            assert(false);
            String::new()
        },
    }
}

/// Prepares a new collection created at `now`: the description is cut
/// to 150 characters and the ids are encoded as JSON.
pub fn prepare_collection(
    name: String,
    book_ids: Vec<i64>,
    description: Option<String>,
    now: String,
) -> (c: NewCollection)
    ensures
        c.name == name,
        opt_view(c.description) == truncated_description(description),
        c.book_ids == book_ids,
        c.book_ids_json@ == json_id_array(book_ids@),
        c.created_at == now,
{
    let json = encode_book_ids(&book_ids);
    let description = truncate_description(description);
    NewCollection { name, description, book_ids, book_ids_json: json, created_at: now }
}

/// New book ids for a collection, with the time of the change.
pub struct BooksUpdate {
    pub book_ids_json: String,
    pub updated_at: String,
}

/// Prepares replacing a collection's book ids at `now`.
pub fn prepare_books_update(book_ids: &Vec<i64>, now: String) -> (u: BooksUpdate)
    ensures
        u.book_ids_json@ == json_id_array(book_ids@),
        u.updated_at == now,
{
    BooksUpdate { book_ids_json: encode_book_ids(book_ids), updated_at: now }
}

/// A new description for a collection, with the time of the change.
pub struct DescriptionUpdate {
    pub description: Option<String>,
    pub updated_at: String,
}

/// Prepares replacing a collection's description (cut to 150
/// characters) at `now`.
pub fn prepare_description_update(description: Option<String>, now: String) -> (u:
    DescriptionUpdate)
    ensures
        opt_view(u.description) == truncated_description(description),
        u.updated_at == now,
{
    DescriptionUpdate { description: truncate_description(description), updated_at: now }
}

/// Cutting a description twice changes nothing more than cutting it once.
pub proof fn lemma_truncated_idempotent(s: Seq<char>)
    ensures
        truncated(truncated(s)) == truncated(s),
        truncated(s).len() <= DESCRIPTION_MAX_CHARS,
        truncated(s) == s.take(truncated(s).len() as int),
{
    assert(s.take(s.len() as int) =~= s);
}

/// A description of at most 150 characters is kept whole; a longer one
/// keeps exactly its first 150 characters.
pub proof fn lemma_truncation_keeps_150(s: Seq<char>)
    ensures
        s.len() <= 150 ==> truncated(s) == s,
        s.len() > 150 ==> truncated(s).len() == 150,
        truncated(s).len() == (if s.len() <= 150 { s.len() } else { 150 }),
        truncated(s) == s.take(truncated(s).len() as int),
{
    assert(s.take(s.len() as int) =~= s);
}

/// The marker of a uniqueness violation in an SQLite error message.
pub open spec fn unique_violation() -> Seq<char> {
    "UNIQUE constraint failed"@
}

/// `Collection "<name>" already exists`.
pub open spec fn already_exists_message(name: Seq<char>) -> Seq<char> {
    "Collection \""@ + name + "\" already exists"@
}

/// `Collection with id <id> not found`.
pub open spec fn not_found_message(id: i64) -> Seq<char> {
    "Collection with id "@ + signed_decimal(id as int) + " not found"@
}

/// The error for a failed write that named a collection: a uniqueness
/// violation means the name is taken; any other failure is passed on.
pub open spec fn named_write_error(message: Seq<char>, name: Seq<char>) -> Seq<char> {
    if occurs_in(message, unique_violation()) {
        already_exists_message(name)
    } else {
        message
    }
}

/// Maps the message of a failed insert or rename to the error reported.
pub fn name_conflict_error(message: &str, name: &str) -> (e: KashshafError)
    ensures
        e matches KashshafError::Database(m) && m@ == named_write_error(message@, name@),
{
    let hay = chars_of(message);
    let marker = chars_of("UNIQUE constraint failed");
    if contains_chars(&hay, &marker) {
        let mut m = String::from_str("Collection \"");
        m.append(name);
        m.append("\" already exists");
        KashshafError::Database(m)
    } else {
        KashshafError::Database(String::from_str(message))
    }
}

/// The error for a collection id that matched no row.
pub fn not_found_error(id: i64) -> (e: KashshafError)
    ensures
        e matches KashshafError::Database(m) && m@ == not_found_message(id),
{
    let mut m = String::from_str("Collection with id ");
    push_signed_decimal(&mut m, id);
    m.append(" not found");
    KashshafError::Database(m)
}

/// Completes the creation of a collection once the insert has run:
/// `inserted` is the new row id, or the database's error message.
pub fn finish_create_collection(new: NewCollection, inserted: Result<i64, String>) -> (r: Result<
    Collection,
    KashshafError,
>)
    ensures
        match inserted {
            Ok(id) => r matches Ok(c) && c.id == id && c.name == new.name && c.description
                == new.description && c.book_ids == new.book_ids && c.created_at == new.created_at
                && c.updated_at == new.created_at,
            Err(msg) => r matches Err(KashshafError::Database(m)) && m@ == named_write_error(
                msg@,
                new.name@,
            ),
        },
{
    match inserted {
        Ok(id) => {
            let updated_at = new.created_at.clone();
            Ok(
                Collection {
                    id,
                    name: new.name,
                    description: new.description,
                    book_ids: new.book_ids,
                    created_at: new.created_at,
                    updated_at,
                },
            )
        },
        Err(msg) => Err(name_conflict_error(msg.as_str(), new.name.as_str())),
    }
}

/// The outcome of an update of one collection by id: `updated` is the
/// number of rows changed, or the database's error message.
pub fn finish_update(id: i64, updated: Result<usize, String>) -> (r: Result<(), KashshafError>)
    ensures
        match updated {
            Ok(n) => if n == 0 {
                r matches Err(KashshafError::Database(m)) && m@ == not_found_message(id)
            } else {
                r is Ok
            },
            Err(msg) => r matches Err(KashshafError::Database(m)) && m@ == msg@,
        },
{
    match updated {
        Ok(n) => {
            if n == 0 {
                Err(not_found_error(id))
            } else {
                Ok(())
            }
        },
        Err(msg) => Err(KashshafError::Database(msg)),
    }
}

/// The outcome of renaming a collection: as `finish_update`, except that
/// a uniqueness violation reports that the new name is taken.
pub fn finish_rename(id: i64, name: &str, updated: Result<usize, String>) -> (r: Result<
    (),
    KashshafError,
>)
    ensures
        match updated {
            Ok(n) => if n == 0 {
                r matches Err(KashshafError::Database(m)) && m@ == not_found_message(id)
            } else {
                r is Ok
            },
            Err(msg) => r matches Err(KashshafError::Database(m)) && m@ == named_write_error(
                msg@,
                name@,
            ),
        },
{
    match updated {
        Ok(n) => {
            if n == 0 {
                Err(not_found_error(id))
            } else {
                Ok(())
            }
        },
        Err(msg) => Err(name_conflict_error(msg.as_str(), name)),
    }
}

/// Rebuilds a stored collection; book ids that do not parse as a JSON
/// list of integers read as no ids.
pub fn collection_from_row(
    id: i64,
    name: String,
    description: Option<String>,
    book_ids_json: &str,
    created_at: String,
    updated_at: String,
) -> (c: Collection)
    ensures
        c.id == id,
        c.name == name,
        c.description == description,
        c.book_ids@ == stored_book_ids(book_ids_json@),
        canonical_id_array(book_ids_json@) matches Some(ids) ==> c.book_ids@ == ids,
        c.created_at == created_at,
        c.updated_at == updated_at,
{
    let book_ids = match ids_from_json(book_ids_json) {
        Some(v) => v,
        None => Vec::new(),
    };
    Collection { id, name, description, book_ids, created_at, updated_at }
}

} // verus!
