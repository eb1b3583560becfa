//! The book catalogue: book records as read from the metadata database,
//! and the SQL statements (with their parameters) that list books.
use vstd::prelude::*;
use crate::text::{decimal, occurs_in, push_char, push_decimal};

verus! {

/// A book of the catalogue.
pub struct BookMetadata {
    pub id: i64,
    pub corpus: Option<String>,
    pub title: String,
    pub author_id: Option<i64>,
    pub death_ah: Option<i64>,
    pub century_ah: Option<i64>,
    pub genre_id: Option<i64>,
    pub page_count: Option<i64>,
    pub token_count: Option<i64>,
    pub original_id: Option<String>,
    pub paginated: Option<bool>,
    /// JSON array as string
    pub tags: Option<String>,
    /// JSON array as string
    pub book_meta: Option<String>,
    /// JSON array as string
    pub author_meta: Option<String>,
    /// Whether the book is in the corpus
    pub in_corpus: Option<bool>,
}

/// The columns of a `books` row as stored: the two flags are integers.
pub struct BookRow {
    pub id: i64,
    pub corpus: Option<String>,
    pub title: String,
    pub author_id: Option<i64>,
    pub death_ah: Option<i64>,
    pub century_ah: Option<i64>,
    pub genre_id: Option<i64>,
    pub page_count: Option<i64>,
    pub token_count: Option<i64>,
    pub original_id: Option<String>,
    pub paginated: Option<i64>,
    pub tags: Option<String>,
    pub book_meta: Option<String>,
    pub author_meta: Option<String>,
    pub in_corpus: Option<i64>,
}

/// A stored flag: absent stays absent, 0 is false, anything else true.
pub open spec fn flag_of(v: Option<i64>) -> Option<bool> {
    match v {
        Some(x) => Some(x != 0),
        None => None,
    }
}

fn flag(v: Option<i64>) -> (r: Option<bool>)
    ensures
        r == flag_of(v),
{
    match v {
        Some(x) => Some(x != 0),
        None => None,
    }
}

/// Turns a stored row into a book record; only the two flags change form.
pub fn row_to_book(row: BookRow) -> (b: BookMetadata)
    ensures
        b.id == row.id,
        b.corpus == row.corpus,
        b.title == row.title,
        b.author_id == row.author_id,
        b.death_ah == row.death_ah,
        b.century_ah == row.century_ah,
        b.genre_id == row.genre_id,
        b.page_count == row.page_count,
        b.token_count == row.token_count,
        b.original_id == row.original_id,
        b.paginated == flag_of(row.paginated),
        b.tags == row.tags,
        b.book_meta == row.book_meta,
        b.author_meta == row.author_meta,
        b.in_corpus == flag_of(row.in_corpus),
{
    BookMetadata {
        id: row.id,
        corpus: row.corpus,
        title: row.title,
        author_id: row.author_id,
        death_ah: row.death_ah,
        century_ah: row.century_ah,
        genre_id: row.genre_id,
        page_count: row.page_count,
        token_count: row.token_count,
        original_id: row.original_id,
        paginated: flag(row.paginated),
        tags: row.tags,
        book_meta: row.book_meta,
        author_meta: row.author_meta,
        in_corpus: flag(row.in_corpus),
    }
}

/// The columns selected for a book, in the order `BookRow` holds them.
pub const BOOK_COLUMNS: &'static str = "id, corpus, title, author_id, death_ah, century_ah, genre_id, page_count, token_count, original_id, paginated, tags, book_meta, author_meta, in_corpus";

/// `SELECT <columns> FROM books WHERE 1=1`, the start of every listing.
pub open spec fn books_head() -> Seq<char> {
    "SELECT "@ + BOOK_COLUMNS@ + " FROM books WHERE 1=1"@
}

fn books_head_sql() -> (s: String)
    ensures
        s@ == books_head(),
{
    let mut s = String::from_str("SELECT ");
    s.append(BOOK_COLUMNS);
    s.append(" FROM books WHERE 1=1");
    s
}

/// The statement that lists all books, earliest death year first.
pub open spec fn all_books_sql() -> Seq<char> {
    "SELECT "@ + BOOK_COLUMNS@ + " FROM books ORDER BY death_ah ASC NULLS LAST, id ASC"@
}

/// Builds the statement that lists all books.
pub fn all_books_query() -> (s: String)
    ensures
        s@ == all_books_sql(),
{
    let mut s = String::from_str("SELECT ");
    s.append(BOOK_COLUMNS);
    s.append(" FROM books ORDER BY death_ah ASC NULLS LAST, id ASC");
    s
}

/// The statement that reads one book by id (parameter `?`).
pub open spec fn book_by_id_sql() -> Seq<char> {
    "SELECT "@ + BOOK_COLUMNS@ + " FROM books WHERE id = ?"@
}

/// Builds the statement that reads one book by id.
pub fn book_by_id_query() -> (s: String)
    ensures
        s@ == book_by_id_sql(),
{
    let mut s = String::from_str("SELECT ");
    s.append(BOOK_COLUMNS);
    s.append(" FROM books WHERE id = ?");
    s
}

/// A page of the plain book listing: the statement and the values bound
/// to `?4` (limit) and `?5` (offset); `?1`, `?2`, `?3` take the genre,
/// corpus and century filters as given.
pub struct BookListQuery {
    pub sql: String,
    pub limit: i64,
    pub offset: i64,
}

pub open spec fn list_books_sql(genre: bool, corpus: bool, century: bool) -> Seq<char> {
    books_head() + (if genre {
        " AND genre_id = ?1"@
    } else {
        Seq::empty()
    }) + (if corpus {
        " AND corpus = ?2"@
    } else {
        Seq::empty()
    }) + (if century {
        " AND century_ah = ?3"@
    } else {
        Seq::empty()
    }) + " ORDER BY id LIMIT ?4 OFFSET ?5"@
}

/// Builds the plain listing: one condition per filter that is present,
/// ordered by id; the limit defaults to 100 and the offset to 0.
pub fn list_books_query(
    genre_id: Option<i64>,
    corpus: &Option<String>,
    century_ah: Option<i64>,
    limit: Option<i64>,
    offset: Option<i64>,
) -> (q: BookListQuery)
    ensures
        q.sql@ == list_books_sql(genre_id is Some, corpus is Some, century_ah is Some),
        q.limit == match limit {
            Some(l) => l,
            None => 100,
        },
        q.offset == match offset {
            Some(o) => o,
            None => 0,
        },
{
    let mut sql = books_head_sql();
    let ghost s0 = sql@;
    if genre_id.is_some() {
        sql.append(" AND genre_id = ?1");
    }
    let ghost s1 = sql@;
    assert(s1 == s0 + (if genre_id is Some { " AND genre_id = ?1"@ } else { Seq::<char>::empty() }));
    if corpus.is_some() {
        sql.append(" AND corpus = ?2");
    }
    let ghost s2 = sql@;
    assert(s2 == s1 + (if corpus is Some { " AND corpus = ?2"@ } else { Seq::<char>::empty() }));
    if century_ah.is_some() {
        sql.append(" AND century_ah = ?3");
    }
    let ghost s3 = sql@;
    assert(s3 == s2 + (if century_ah is Some { " AND century_ah = ?3"@ } else { Seq::<char>::empty() }));
    sql.append(" ORDER BY id LIMIT ?4 OFFSET ?5");
    let limit = match limit {
        Some(l) => l,
        None => 100,
    };
    let offset = match offset {
        Some(o) => o,
        None => 0,
    };
    BookListQuery { sql, limit, offset }
}

/// A piece of an SQL statement: literal text, or the numbered parameter
/// slot `?k`.
pub enum SqlPiece {
    Text(Seq<char>),
    Slot(nat),
}

pub open spec fn render_piece(p: SqlPiece) -> Seq<char> {
    match p {
        SqlPiece::Text(t) => t,
        SqlPiece::Slot(k) => seq!['?'] + decimal(k),
    }
}

/// The text of a statement made of the given pieces.
pub open spec fn render(ps: Seq<SqlPiece>) -> Seq<char>
    decreases ps.len(),
{
    if ps.len() == 0 {
        Seq::empty()
    } else {
        render(ps.drop_last()) + render_piece(ps.last())
    }
}

/// The slot numbers of a statement, in the order they appear.
pub open spec fn slots(ps: Seq<SqlPiece>) -> Seq<nat>
    decreases ps.len(),
{
    if ps.len() == 0 {
        Seq::empty()
    } else {
        slots(ps.drop_last()) + match ps.last() {
            SqlPiece::Text(_) => Seq::<nat>::empty(),
            SqlPiece::Slot(k) => seq![k],
        }
    }
}

/// A condition with one slot, present or not.
pub open spec fn cond_pieces(text: Seq<char>, k: nat, present: bool) -> Seq<SqlPiece> {
    if present {
        seq![SqlPiece::Text(text), SqlPiece::Slot(k)]
    } else {
        Seq::empty()
    }
}

/// `?start,?start+1,...` for `n` slots.
pub open spec fn slot_list(start: nat, n: nat) -> Seq<SqlPiece>
    decreases n,
{
    if n == 0 {
        Seq::empty()
    } else if n == 1 {
        seq![SqlPiece::Slot(start)]
    } else {
        slot_list(start, (n - 1) as nat) + seq![
            SqlPiece::Text(","@),
            SqlPiece::Slot((start + n - 1) as nat),
        ]
    }
}

/// ` AND genre_id IN (...)` with one slot per genre, or nothing.
pub open spec fn genre_pieces(start: nat, n: nat) -> Seq<SqlPiece> {
    if n == 0 {
        Seq::empty()
    } else {
        seq![SqlPiece::Text(" AND genre_id IN ("@)] + slot_list(start, n) + seq![
            SqlPiece::Text(")"@),
        ]
    }
}

pub open spec fn tail_pieces(k: nat) -> Seq<SqlPiece> {
    seq![
        SqlPiece::Text(" ORDER BY death_ah ASC NULLS LAST, id ASC LIMIT "@),
        SqlPiece::Slot(k),
        SqlPiece::Text(" OFFSET "@),
        SqlPiece::Slot(k + 1),
    ]
}

pub open spec fn opt_seq(v: Option<i64>) -> Seq<i64> {
    match v {
        Some(x) => seq![x],
        None => Seq::empty(),
    }
}

/// The filtered listing: date bounds, then the genre set, then the
/// page; slots are numbered in the order the conditions appear.
pub open spec fn filtered_pieces(min: Option<i64>, max: Option<i64>, genres: Seq<i64>) -> Seq<
    SqlPiece,
> {
    let a: nat = if min is Some { 1 } else { 0 };
    let b: nat = if max is Some { 1 } else { 0 };
    let g = genres.len();
    seq![SqlPiece::Text(books_head())] + cond_pieces(" AND death_ah >= "@, 1, min is Some)
        + cond_pieces(" AND death_ah <= "@, 1 + a, max is Some) + genre_pieces(1 + a + b, g)
        + tail_pieces(1 + a + b + g)
}

/// The values bound to the filtered listing's slots, slot 1 first.
pub open spec fn filtered_params(
    min: Option<i64>,
    max: Option<i64>,
    genres: Seq<i64>,
    limit: i64,
    offset: i64,
) -> Seq<i64> {
    opt_seq(min) + opt_seq(max) + genres + seq![limit, offset]
}

pub proof fn lemma_render_concat(a: Seq<SqlPiece>, b: Seq<SqlPiece>)
    ensures
        render(a + b) == render(a) + render(b),
    decreases b.len(),
{
    if b.len() == 0 {
        assert(a + b =~= a);
        assert(render(a) + Seq::<char>::empty() =~= render(a));
    } else {
        assert((a + b).drop_last() =~= a + b.drop_last());
        lemma_render_concat(a, b.drop_last());
        assert(render(a) + render(b.drop_last()) + render_piece(b.last()) =~= render(a) + (render(
            b.drop_last(),
        ) + render_piece(b.last())));
    }
}

pub proof fn lemma_slots_concat(a: Seq<SqlPiece>, b: Seq<SqlPiece>)
    ensures
        slots(a + b) == slots(a) + slots(b),
    decreases b.len(),
{
    if b.len() == 0 {
        assert(a + b =~= a);
        assert(slots(a) + Seq::<nat>::empty() =~= slots(a));
    } else {
        assert((a + b).drop_last() =~= a + b.drop_last());
        lemma_slots_concat(a, b.drop_last());
        let t = match b.last() {
            SqlPiece::Text(_) => Seq::<nat>::empty(),
            SqlPiece::Slot(k) => seq![k],
        };
        assert(slots(a) + slots(b.drop_last()) + t =~= slots(a) + (slots(b.drop_last()) + t));
    }
}

proof fn lemma_render_two(p: SqlPiece, q: SqlPiece)
    ensures
        render(seq![p, q]) == render_piece(p) + render_piece(q),
{
    reveal_with_fuel(render, 3);
    assert(seq![p, q].drop_last() =~= seq![p]);
    assert(seq![p].drop_last() =~= Seq::<SqlPiece>::empty());
    assert(Seq::<char>::empty() + render_piece(p) =~= render_piece(p));
}

proof fn lemma_render_one(p: SqlPiece)
    ensures
        render(seq![p]) == render_piece(p),
{
    reveal_with_fuel(render, 2);
    assert(seq![p].drop_last() =~= Seq::<SqlPiece>::empty());
    assert(Seq::<char>::empty() + render_piece(p) =~= render_piece(p));
}

/// The numbers `start, start+1, ..., start+n-1`.
pub open spec fn numbered(start: nat, n: nat) -> Seq<nat> {
    Seq::new(n, |i: int| (start + i) as nat)
}

proof fn lemma_slot_list_slots(start: nat, n: nat)
    ensures
        slots(slot_list(start, n)) == numbered(start, n),
    decreases n,
{
    reveal_with_fuel(slots, 3);
    if n == 0 {
        assert(slots(Seq::<SqlPiece>::empty()) =~= numbered(start, 0));
    } else if n == 1 {
        let s = seq![SqlPiece::Slot(start)];
        assert(s.drop_last() =~= Seq::<SqlPiece>::empty());
        assert(slots(s) =~= numbered(start, 1));
    } else {
        lemma_slot_list_slots(start, (n - 1) as nat);
        let tail = seq![SqlPiece::Text(","@), SqlPiece::Slot((start + n - 1) as nat)];
        lemma_slots_concat(slot_list(start, (n - 1) as nat), tail);
        assert(tail.drop_last() =~= seq![SqlPiece::Text(","@)]);
        assert(seq![SqlPiece::Text(","@)].drop_last() =~= Seq::<SqlPiece>::empty());
        assert(slots(tail) =~= seq![(start + n - 1) as nat]);
        assert(numbered(start, (n - 1) as nat) + seq![(start + n - 1) as nat] =~= numbered(start, n));
    }
}

proof fn lemma_two_slots(p: SqlPiece, k: nat)
    requires
        p is Text,
    ensures
        slots(seq![p, SqlPiece::Slot(k)]) == seq![k],
{
    reveal_with_fuel(slots, 3);
    assert(seq![p, SqlPiece::Slot(k)].drop_last() =~= seq![p]);
    assert(seq![p].drop_last() =~= Seq::<SqlPiece>::empty());
    assert(Seq::<nat>::empty() + Seq::<nat>::empty() + seq![k] =~= seq![k]);
}

proof fn lemma_tail_slots(k: nat)
    ensures
        slots(tail_pieces(k)) == seq![k, (k + 1) as nat],
{
    reveal_with_fuel(slots, 5);
    let p4 = tail_pieces(k);
    assert(p4.drop_last().drop_last().drop_last().drop_last() =~= Seq::<SqlPiece>::empty());
    assert(slots(p4) =~= seq![k, (k + 1) as nat]);
}

/// The slots of the filtered listing are `?1, ?2, ..., ?n` in order of
/// appearance, one for each bound value: every value is bound to the
/// slot that its condition names.
pub proof fn lemma_filtered_slots_match_params(
    min: Option<i64>,
    max: Option<i64>,
    genres: Seq<i64>,
    limit: i64,
    offset: i64,
)
    ensures
        slots(filtered_pieces(min, max, genres)) == numbered(
            1,
            filtered_params(min, max, genres, limit, offset).len(),
        ),
{
    let a: nat = if min is Some { 1 } else { 0 };
    let b: nat = if max is Some { 1 } else { 0 };
    let g = genres.len();
    let head = seq![SqlPiece::Text(books_head())];
    let p1 = cond_pieces(" AND death_ah >= "@, 1, min is Some);
    let p2 = cond_pieces(" AND death_ah <= "@, 1 + a, max is Some);
    let p3 = genre_pieces(1 + a + b, g);
    let p4 = tail_pieces(1 + a + b + g);
    lemma_slots_concat(head, p1);
    lemma_slots_concat(head + p1, p2);
    lemma_slots_concat(head + p1 + p2, p3);
    lemma_slots_concat(head + p1 + p2 + p3, p4);
    assert(head.drop_last() =~= Seq::<SqlPiece>::empty());
    assert(slots(head) =~= Seq::<nat>::empty()) by {
        reveal_with_fuel(slots, 2);
    }
    if min is Some {
        lemma_two_slots(SqlPiece::Text(" AND death_ah >= "@), 1);
    } else {
        assert(slots(p1) =~= Seq::<nat>::empty());
    }
    if max is Some {
        lemma_two_slots(SqlPiece::Text(" AND death_ah <= "@), 1 + a);
    } else {
        assert(slots(p2) =~= Seq::<nat>::empty());
    }
    if g == 0 {
        assert(slots(p3) =~= Seq::<nat>::empty());
    } else {
        let open = seq![SqlPiece::Text(" AND genre_id IN ("@)];
        let close = seq![SqlPiece::Text(")"@)];
        lemma_slots_concat(open, slot_list(1 + a + b, g));
        lemma_slots_concat(open + slot_list(1 + a + b, g), close);
        assert(open.drop_last() =~= Seq::<SqlPiece>::empty());
        assert(close.drop_last() =~= Seq::<SqlPiece>::empty());
        assert(slots(open) =~= Seq::<nat>::empty());
        assert(slots(close) =~= Seq::<nat>::empty());
        lemma_slot_list_slots(1 + a + b, g);
        assert(slots(p3) =~= numbered(1 + a + b, g));
    }
    let k = 1 + a + b + g;
    lemma_tail_slots(k);
    let n = filtered_params(min, max, genres, limit, offset).len();
    assert(n == a + b + g + 2);
    assert(slots(filtered_pieces(min, max, genres)) =~= numbered(1, n));
}

proof fn lemma_tail_render(k: nat)
    ensures
        render(tail_pieces(k)) == " ORDER BY death_ah ASC NULLS LAST, id ASC LIMIT "@ + render_piece(
            SqlPiece::Slot(k),
        ) + " OFFSET "@ + render_piece(SqlPiece::Slot(k + 1)),
{
    reveal_with_fuel(render, 5);
    let p4 = tail_pieces(k);
    assert(p4.drop_last().drop_last().drop_last().drop_last() =~= Seq::<SqlPiece>::empty());
    assert(Seq::<char>::empty() + " ORDER BY death_ah ASC NULLS LAST, id ASC LIMIT "@
        =~= " ORDER BY death_ah ASC NULLS LAST, id ASC LIMIT "@);
}

proof fn lemma_genre_render(start: nat, n: nat)
    requires
        n > 0,
    ensures
        render(genre_pieces(start, n)) == " AND genre_id IN ("@ + render(slot_list(start, n))
            + ")"@,
{
    let open = seq![SqlPiece::Text(" AND genre_id IN ("@)];
    let close = seq![SqlPiece::Text(")"@)];
    lemma_render_concat(open, slot_list(start, n));
    lemma_render_concat(open + slot_list(start, n), close);
    lemma_render_one(SqlPiece::Text(" AND genre_id IN ("@));
    lemma_render_one(SqlPiece::Text(")"@));
}

proof fn lemma_slot_list_step(start: nat, i: nat)
    ensures
        render(slot_list(start, i + 1)) == render(slot_list(start, i)) + (if i == 0 {
            Seq::<char>::empty()
        } else {
            ","@
        }) + render_piece(SqlPiece::Slot(start + i)),
{
    if i == 0 {
        lemma_render_one(SqlPiece::Slot(start));
        assert(slot_list(start, 0) == Seq::<SqlPiece>::empty());
        assert(render(Seq::<SqlPiece>::empty()) == Seq::<char>::empty());
        assert(Seq::<char>::empty() + Seq::<char>::empty() + render_piece(SqlPiece::Slot(start))
            =~= render_piece(SqlPiece::Slot(start)));
    } else {
        let t = seq![SqlPiece::Text(","@), SqlPiece::Slot(start + i)];
        assert(slot_list(start, i + 1) == slot_list(start, i) + t);
        lemma_render_concat(slot_list(start, i), t);
        lemma_render_two(SqlPiece::Text(","@), SqlPiece::Slot(start + i));
        assert(render(slot_list(start, i)) + (","@ + render_piece(SqlPiece::Slot(start + i)))
            =~= render(slot_list(start, i)) + ","@ + render_piece(SqlPiece::Slot(start + i)));
    }
}

/// Appends the slot `?k`.
fn push_slot(s: &mut String, k: usize)
    ensures
        final(s)@ == old(s)@ + render_piece(SqlPiece::Slot(k as nat)),
{
    push_char(s, '?');
    push_decimal(s, k as u64);
    proof {
        assert(old(s)@.push('?') + decimal(k as nat) =~= old(s)@ + (seq!['?'] + decimal(k as nat)));
    }
}

/// The genre ids of an optional list; no list means no genre condition.
pub open spec fn genre_ids_view(genre_ids: Option<Vec<i64>>) -> Seq<i64> {
    match genre_ids {
        Some(g) => g@,
        None => Seq::empty(),
    }
}

/// A filtered book listing: the statement and the values of its slots,
/// the value of `?k` at position `k - 1`.
pub struct FilteredBooksQuery {
    pub sql: String,
    pub params: Vec<i64>,
}

/// Appends `text` followed by the slot `?k`, and binds `value` to it.
fn push_condition(sql: &mut String, params: &mut Vec<i64>, text: &str, k: usize, value: i64)
    ensures
        final(sql)@ == old(sql)@ + render(seq![SqlPiece::Text(text@), SqlPiece::Slot(k as nat)]),
        final(params)@ == old(params)@.push(value),
{
    sql.append(text);
    push_slot(sql, k);
    params.push(value);
    proof {
        lemma_render_two(SqlPiece::Text(text@), SqlPiece::Slot(k as nat));
        assert(old(sql)@ + text@ + render_piece(SqlPiece::Slot(k as nat)) =~= old(sql)@ + (text@
            + render_piece(SqlPiece::Slot(k as nat))));
    }
}

/// Appends ` AND genre_id IN (?start,...)` and binds the genres in order.
fn push_genre_condition(sql: &mut String, params: &mut Vec<i64>, gl: &Vec<i64>, start: usize)
    requires
        gl.len() > 0,
        start + gl.len() <= usize::MAX,
    ensures
        final(sql)@ == old(sql)@ + render(genre_pieces(start as nat, gl.len() as nat)),
        final(params)@ == old(params)@ + gl@,
{
    let ghost before = sql@;
    sql.append(" AND genre_id IN (");
    let mut i: usize = 0;
    while i < gl.len()
        invariant
            start + gl.len() <= usize::MAX,
            i <= gl.len(),
            sql@ == before + " AND genre_id IN ("@ + render(slot_list(start as nat, i as nat)),
            params@ == old(params)@ + gl@.take(i as int),
        decreases gl.len() - i,
    {
        proof {
            lemma_slot_list_step(start as nat, i as nat);
        }
        if i > 0 {
            sql.append(",");
        }
        push_slot(sql, start + i);
        params.push(gl[i]);
        proof {
            assert(gl@.take(i + 1) =~= gl@.take(i as int).push(gl@[i as int]));
        }
        i = i + 1;
    }
    sql.append(")");
    proof {
        lemma_genre_render(start as nat, gl.len() as nat);
        assert(gl@.take(gl.len() as int) =~= gl@);
        let m = render(slot_list(start as nat, gl.len() as nat));
        assert(before + " AND genre_id IN ("@ + m + ")"@ =~= before + (" AND genre_id IN ("@ + m
            + ")"@));
    }
}

/// Appends the ordering and the page slots `?k` and `?k+1`.
fn push_page(sql: &mut String, params: &mut Vec<i64>, k: usize, limit: i64, offset: i64)
    requires
        k < usize::MAX,
    ensures
        final(sql)@ == old(sql)@ + render(tail_pieces(k as nat)),
        final(params)@ == old(params)@ + seq![limit, offset],
{
    sql.append(" ORDER BY death_ah ASC NULLS LAST, id ASC LIMIT ");
    push_slot(sql, k);
    sql.append(" OFFSET ");
    push_slot(sql, k + 1);
    params.push(limit);
    params.push(offset);
    proof {
        lemma_tail_render(k as nat);
        let t1 = " ORDER BY death_ah ASC NULLS LAST, id ASC LIMIT "@;
        let r1 = render_piece(SqlPiece::Slot(k as nat));
        let r2 = render_piece(SqlPiece::Slot((k + 1) as nat));
        assert(old(sql)@ + t1 + r1 + " OFFSET "@ + r2 =~= old(sql)@ + (t1 + r1 + " OFFSET "@ + r2));
        assert(old(params)@.push(limit).push(offset) =~= old(params)@ + seq![limit, offset]);
    }
}

/// Builds the filtered listing: books whose death year lies within the
/// given bounds and whose genre is one of the given genres (no genre
/// condition when the list is absent or empty), earliest death year
/// first; the limit defaults to 10000 and the offset to 0. Parameter
/// slots are numbered in the order their conditions appear.
pub fn list_books_filtered_query(
    death_ah_min: Option<i64>,
    death_ah_max: Option<i64>,
    genre_ids: &Option<Vec<i64>>,
    limit: Option<i64>,
    offset: Option<i64>,
) -> (q: FilteredBooksQuery)
    requires
        genre_ids_view(*genre_ids).len() <= usize::MAX - 4,
    ensures
        q.sql@ == render(filtered_pieces(death_ah_min, death_ah_max, genre_ids_view(*genre_ids))),
        q.params@ == filtered_params(
            death_ah_min,
            death_ah_max,
            genre_ids_view(*genre_ids),
            match limit {
                Some(l) => l,
                None => 10000,
            },
            match offset {
                Some(o) => o,
                None => 0,
            },
        ),
{
    let ghost genres = genre_ids_view(*genre_ids);
    let ghost a: nat = if death_ah_min is Some { 1 } else { 0 };
    let ghost b: nat = if death_ah_max is Some { 1 } else { 0 };
    let ghost p0 = seq![SqlPiece::Text(books_head())];
    let ghost p1 = cond_pieces(" AND death_ah >= "@, 1, death_ah_min is Some);
    let ghost p2 = cond_pieces(" AND death_ah <= "@, 1 + a, death_ah_max is Some);
    let ghost p3 = genre_pieces(1 + a + b, genres.len());
    let mut sql = books_head_sql();
    let mut params: Vec<i64> = Vec::new();
    let mut idx: usize = 1;
    proof {
        lemma_render_one(SqlPiece::Text(books_head()));
    }
    let ghost s0 = sql@;
    if let Some(min) = death_ah_min {
        push_condition(&mut sql, &mut params, " AND death_ah >= ", idx, min);
        idx = idx + 1;
    }
    proof {
        lemma_render_concat(p0, p1);
    }
    assert(sql@ == render(p0 + p1));
    if let Some(max) = death_ah_max {
        push_condition(&mut sql, &mut params, " AND death_ah <= ", idx, max);
        idx = idx + 1;
    }
    proof {
        lemma_render_concat(p0 + p1, p2);
    }
    assert(sql@ == render(p0 + p1 + p2));
    assert(params@ == opt_seq(death_ah_min) + opt_seq(death_ah_max));
    if let Some(gl) = genre_ids {
        if gl.len() > 0 {
            push_genre_condition(&mut sql, &mut params, gl, idx);
            idx = idx + gl.len();
        }
    }
    proof {
        lemma_render_concat(p0 + p1 + p2, p3);
        if genres.len() == 0 {
            assert(params@ =~= opt_seq(death_ah_min) + opt_seq(death_ah_max) + genres);
        }
    }
    assert(sql@ == render(p0 + p1 + p2 + p3));
    assert(params@ == opt_seq(death_ah_min) + opt_seq(death_ah_max) + genres);
    let limit = match limit {
        Some(l) => l,
        None => 10000,
    };
    let offset = match offset {
        Some(o) => o,
        None => 0,
    };
    push_page(&mut sql, &mut params, idx, limit, offset);
    proof {
        lemma_render_concat(p0 + p1 + p2 + p3, tail_pieces(1 + a + b + genres.len()));
    }
    FilteredBooksQuery { sql, params }
}

/// An empty genre list is no genre filter: it gives the same statement
/// and the same bound values as no list at all.
pub proof fn lemma_empty_genre_list_is_no_filter(
    min: Option<i64>,
    max: Option<i64>,
    genres: Vec<i64>,
    limit: i64,
    offset: i64,
)
    requires
        genres@.len() == 0,
    ensures
        render(filtered_pieces(min, max, genre_ids_view(Some(genres)))) == render(
            filtered_pieces(min, max, genre_ids_view(None)),
        ),
        filtered_params(min, max, genre_ids_view(Some(genres)), limit, offset) == filtered_params(
            min,
            max,
            genre_ids_view(None),
            limit,
            offset,
        ),
{
    assert(genre_ids_view(Some(genres)) =~= genre_ids_view(None));
}

/// The genre ids given are the ones bound: with a list, exactly its ids
/// in its order come after the date bounds, followed by the limit and
/// the offset; without a list no genre id is bound.
pub proof fn lemma_genre_ids_are_bound(
    min: Option<i64>,
    max: Option<i64>,
    genre_ids: Option<Vec<i64>>,
    limit: i64,
    offset: i64,
)
    ensures
        genre_ids matches Some(g) ==> genre_ids_view(genre_ids) == g@,
        genre_ids is None ==> genre_ids_view(genre_ids).len() == 0,
        ({
            let p = filtered_params(min, max, genre_ids_view(genre_ids), limit, offset);
            let a: int = if min is Some { 1 } else { 0 };
            let b: int = if max is Some { 1 } else { 0 };
            let g = match genre_ids {
                Some(v) => v@,
                None => Seq::<i64>::empty(),
            };
            &&& p.len() == a + b + g.len() + 2
            &&& p.subrange(a + b, a + b + g.len()) == g
            &&& (min matches Some(m) ==> p[0] == m)
            &&& (max matches Some(x) ==> p[a] == x)
            &&& p[p.len() - 2] == limit
            &&& p[p.len() - 1] == offset
        }),
{
    let p = filtered_params(min, max, genre_ids_view(genre_ids), limit, offset);
    let a: int = if min is Some { 1 } else { 0 };
    let b: int = if max is Some { 1 } else { 0 };
    let g = genre_ids_view(genre_ids);
    assert(p.subrange(a + b, a + b + g.len()) =~= g);
}

/// A non-empty genre list puts the genre condition into the statement,
/// with one slot for each of its ids.
pub proof fn lemma_genre_condition_present(min: Option<i64>, max: Option<i64>, g: Vec<i64>)
    requires
        g@.len() > 0,
    ensures
        occurs_in(
            render(filtered_pieces(min, max, genre_ids_view(Some(g)))),
            " AND genre_id IN ("@,
        ),
        slots(genre_pieces(0, g@.len())).len() == g@.len(),
{
    let a: nat = if min is Some { 1 } else { 0 };
    let b: nat = if max is Some { 1 } else { 0 };
    let n = g@.len();
    let p0 = seq![SqlPiece::Text(books_head())];
    let p1 = cond_pieces(" AND death_ah >= "@, 1, min is Some);
    let p2 = cond_pieces(" AND death_ah <= "@, 1 + a, max is Some);
    let p3 = genre_pieces(1 + a + b, n);
    let p4 = tail_pieces(1 + a + b + n);
    assert(genre_ids_view(Some(g)) == g@);
    lemma_render_concat(p0 + p1 + p2, p3);
    lemma_render_concat(p0 + p1 + p2 + p3, p4);
    lemma_genre_render(1 + a + b, n);
    let pre = render(p0 + p1 + p2);
    let t = " AND genre_id IN ("@;
    let whole = render(filtered_pieces(min, max, g@));
    assert(whole == pre + (t + render(slot_list(1 + a + b, n)) + ")"@) + render(p4));
    assert(whole.subrange(pre.len() as int, pre.len() + t.len() as int) =~= t);
    lemma_genre_pieces_slots(0, n);
}

proof fn lemma_genre_pieces_slots(start: nat, n: nat)
    requires
        n > 0,
    ensures
        slots(genre_pieces(start, n)).len() == n,
{
    let open = seq![SqlPiece::Text(" AND genre_id IN ("@)];
    let close = seq![SqlPiece::Text(")"@)];
    lemma_slots_concat(open, slot_list(start, n));
    lemma_slots_concat(open + slot_list(start, n), close);
    lemma_one_text_slots(" AND genre_id IN ("@);
    lemma_one_text_slots(")"@);
    lemma_slot_list_slots(start, n);
}

proof fn lemma_one_text_slots(t: Seq<char>)
    ensures
        slots(seq![SqlPiece::Text(t)]) == Seq::<nat>::empty(),
{
    reveal_with_fuel(slots, 2);
    assert(seq![SqlPiece::Text(t)].drop_last() =~= Seq::<SqlPiece>::empty());
    assert(Seq::<nat>::empty() + Seq::<nat>::empty() =~= Seq::<nat>::empty());
}

proof fn lemma_head_has_no_slot_mark()
    ensures
        forall|i: int| 0 <= i < books_head().len() ==> books_head()[i] != '?',
{
    reveal_strlit("SELECT ");
    reveal_strlit("id, corpus, title, author_id, death_ah, century_ah, genre_id, page_count, token_count, original_id, paginated, tags, book_meta, author_meta, in_corpus");
    reveal_strlit(" FROM books WHERE 1=1");
    let h = books_head();
    assert forall|i: int| 0 <= i < h.len() implies h[i] != '?' by {
        let a = "SELECT "@;
        let b = BOOK_COLUMNS@;
        if i < a.len() {
            assert(h[i] == a[i]);
        } else if i < a.len() + b.len() {
            assert(h[i] == b[i - a.len()]);
        } else {
            assert(h[i] == " FROM books WHERE 1=1"@[i - a.len() - b.len()]);
        }
    }
}

/// Every `?` of the text has a next character, and it is not `d`.
pub open spec fn mark_not_before(s: Seq<char>, d: char) -> bool {
    forall|k: int| 0 <= k < s.len() && #[trigger] s[k] == '?' ==> k + 1 < s.len() && s[k + 1] != d
}

proof fn lemma_mark_concat(a: Seq<char>, b: Seq<char>, d: char)
    requires
        mark_not_before(a, d),
        mark_not_before(b, d),
    ensures
        mark_not_before(a + b, d),
{
    assert forall|k: int| 0 <= k < (a + b).len() && #[trigger] (a + b)[k] == '?' implies k + 1 < (a
        + b).len() && (a + b)[k + 1] != d by {
        if k < a.len() {
            assert((a + b)[k] == a[k]);
            assert((a + b)[k + 1] == a[k + 1]);
        } else {
            assert((a + b)[k] == b[k - a.len()]);
            assert((a + b)[k + 1] == b[k + 1 - a.len()]);
        }
    }
}

proof fn lemma_no_occurrence(hay: Seq<char>, needle: Seq<char>, j: int, d: char)
    requires
        mark_not_before(hay, d),
        0 <= j,
        j + 1 < needle.len(),
        needle[j] == '?',
        needle[j + 1] == d,
    ensures
        !occurs_in(hay, needle),
{
    if occurs_in(hay, needle) {
        let i = choose|i: int|
            0 <= i <= hay.len() - needle.len() && #[trigger] hay.subrange(i, i + needle.len())
                == needle;
        assert(hay.subrange(i, i + needle.len())[j] == hay[i + j]);
        assert(hay.subrange(i, i + needle.len())[j + 1] == hay[i + j + 1]);
    }
}

proof fn lemma_clause_marks()
    ensures
        mark_not_before(books_head(), '1'),
        mark_not_before(books_head(), '2'),
        mark_not_before(books_head(), '3'),
        mark_not_before(" AND genre_id = ?1"@, '2'),
        mark_not_before(" AND genre_id = ?1"@, '3'),
        mark_not_before(" AND corpus = ?2"@, '1'),
        mark_not_before(" AND corpus = ?2"@, '3'),
        mark_not_before(" AND century_ah = ?3"@, '1'),
        mark_not_before(" AND century_ah = ?3"@, '2'),
        mark_not_before(" ORDER BY id LIMIT ?4 OFFSET ?5"@, '1'),
        mark_not_before(" ORDER BY id LIMIT ?4 OFFSET ?5"@, '2'),
        mark_not_before(" ORDER BY id LIMIT ?4 OFFSET ?5"@, '3'),
        mark_not_before(Seq::<char>::empty(), '1'),
        mark_not_before(Seq::<char>::empty(), '2'),
        mark_not_before(Seq::<char>::empty(), '3'),
        " AND genre_id = ?1"@[16] == '?' && " AND genre_id = ?1"@[17] == '1',
        " AND genre_id = ?1"@.len() == 18,
        " AND corpus = ?2"@[14] == '?' && " AND corpus = ?2"@[15] == '2',
        " AND corpus = ?2"@.len() == 16,
        " AND century_ah = ?3"@[18] == '?' && " AND century_ah = ?3"@[19] == '3',
        " AND century_ah = ?3"@.len() == 20,
{
    lemma_head_has_no_slot_mark();
    reveal_strlit(" AND genre_id = ?1");
    reveal_strlit(" AND corpus = ?2");
    reveal_strlit(" AND century_ah = ?3");
    reveal_strlit(" ORDER BY id LIMIT ?4 OFFSET ?5");
}

/// Each filter of the plain listing contributes its own condition,
/// whatever the others are: the statement holds ` AND genre_id = ?1`
/// exactly when a genre is given, ` AND corpus = ?2` exactly when a
/// corpus is given, and ` AND century_ah = ?3` exactly when a century is
/// given.
pub proof fn lemma_list_books_conditions(genre: bool, corpus: bool, century: bool)
    ensures
        occurs_in(list_books_sql(genre, corpus, century), " AND genre_id = ?1"@) <==> genre,
        occurs_in(list_books_sql(genre, corpus, century), " AND corpus = ?2"@) <==> corpus,
        occurs_in(list_books_sql(genre, corpus, century), " AND century_ah = ?3"@) <==> century,
{
    lemma_clause_marks();
    let h = books_head();
    let g = " AND genre_id = ?1"@;
    let c = " AND corpus = ?2"@;
    let t = " AND century_ah = ?3"@;
    let e = " ORDER BY id LIMIT ?4 OFFSET ?5"@;
    let gp = if genre { g } else { Seq::<char>::empty() };
    let cp = if corpus { c } else { Seq::<char>::empty() };
    let tp = if century { t } else { Seq::<char>::empty() };
    let sql = list_books_sql(genre, corpus, century);
    assert(sql == h + gp + cp + tp + e);
    // Genre
    if genre {
        assert(sql.subrange(h.len() as int, h.len() + g.len() as int) =~= g);
    } else {
        lemma_mark_concat(h, gp, '1');
        lemma_mark_concat(h + gp, cp, '1');
        lemma_mark_concat(h + gp + cp, tp, '1');
        lemma_mark_concat(h + gp + cp + tp, e, '1');
        lemma_no_occurrence(sql, g, 16, '1');
    }
    // Corpus
    if corpus {
        let at = (h + gp).len() as int;
        assert(sql.subrange(at, at + c.len() as int) =~= c);
    } else {
        lemma_mark_concat(h, gp, '2');
        lemma_mark_concat(h + gp, cp, '2');
        lemma_mark_concat(h + gp + cp, tp, '2');
        lemma_mark_concat(h + gp + cp + tp, e, '2');
        lemma_no_occurrence(sql, c, 14, '2');
    }
    // Century
    if century {
        let at = (h + gp + cp).len() as int;
        assert(sql.subrange(at, at + t.len() as int) =~= t);
    } else {
        lemma_mark_concat(h, gp, '3');
        lemma_mark_concat(h + gp, cp, '3');
        lemma_mark_concat(h + gp + cp, tp, '3');
        lemma_mark_concat(h + gp + cp + tp, e, '3');
        lemma_no_occurrence(sql, t, 18, '3');
    }
}

} // verus!
