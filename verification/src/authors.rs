//! Author search: which authors an author-name query finds, and in
//! what order.
use vstd::prelude::*;
use crate::normalize::{normalize_arabic_for_search, normalized};
use crate::text::{chars_of, contains_chars, occurs_in};

verus! {

/// An author as read from the catalogue: id, name, earliest death year
/// (AH) of the author's books when known, and number of books.
pub type AuthorRow = (i64, String, Option<i64>, i64);

/// An author as returned by a search: the unknown death year becomes 0.
pub type AuthorSummary = (i64, String, i64, i64);

/// The most results an author search returns.
pub const AUTHOR_SEARCH_LIMIT: usize = 50;

/// Queries shorter than this many bytes find nothing.
pub const AUTHOR_QUERY_MIN_BYTES: usize = 3;

/// The lower-case form of a text, as `str::to_lowercase` computes it.
pub uninterp spec fn lowercase_of(s: Seq<char>) -> Seq<char>;

/// `str::to_lowercase` from std (Unicode lower-casing, independent of
/// locale). Its result is named `lowercase_of`; nothing more is claimed.
#[verifier::external_body]
fn to_lowercase(s: &str) -> (r: String)
    ensures
        r@ == lowercase_of(s@),
{
    s.to_lowercase()
}

/// The key under which names and queries are compared.
pub open spec fn author_key(text: Seq<char>) -> Seq<char> {
    lowercase_of(normalized(text))
}

pub open spec fn author_summary(row: AuthorRow) -> AuthorSummary {
    (row.0, row.1, match row.2 {
        Some(d) => d,
        None => 0,
    }, row.3)
}

/// The summaries of those of the first `n` rows whose key contains the
/// query key, in row order.
pub open spec fn author_hits(rows: Seq<AuthorRow>, keys: Seq<Seq<char>>, q: Seq<char>, n: nat) -> Seq<
    AuthorSummary,
>
    decreases n,
{
    if n == 0 {
        Seq::empty()
    } else {
        let rest = author_hits(rows, keys, q, (n - 1) as nat);
        if occurs_in(keys[n - 1], q) {
            rest.push(author_summary(rows[n - 1]))
        } else {
            rest
        }
    }
}

/// At most the first `limit` elements of `s`.
pub open spec fn capped<A>(s: Seq<A>, limit: nat) -> Seq<A> {
    if s.len() <= limit {
        s
    } else {
        s.take(limit as int)
    }
}

/// What an author search returns for the given rows, the key of each
/// row, and the query key.
pub open spec fn selected_authors(rows: Seq<AuthorRow>, keys: Seq<Seq<char>>, q: Seq<char>) -> Seq<
    AuthorSummary,
> {
    capped(author_hits(rows, keys, q, rows.len()), AUTHOR_SEARCH_LIMIT as nat)
}

/// The hits among fewer rows are a prefix of the hits among more rows.
pub proof fn lemma_author_hits_prefix(
    rows: Seq<AuthorRow>,
    keys: Seq<Seq<char>>,
    q: Seq<char>,
    m: nat,
    n: nat,
)
    requires
        m <= n,
    ensures
        author_hits(rows, keys, q, m).len() <= author_hits(rows, keys, q, n).len(),
        author_hits(rows, keys, q, n).take(author_hits(rows, keys, q, m).len() as int)
            == author_hits(rows, keys, q, m),
    decreases n,
{
    if m < n {
        lemma_author_hits_prefix(rows, keys, q, m, (n - 1) as nat);
        let a = author_hits(rows, keys, q, m);
        let b = author_hits(rows, keys, q, (n - 1) as nat);
        let c = author_hits(rows, keys, q, n);
        if occurs_in(keys[n - 1], q) {
            assert(c.take(a.len() as int) =~= b.take(a.len() as int));
        }
    } else {
        let a = author_hits(rows, keys, q, m);
        assert(a.take(a.len() as int) =~= a);
    }
}

/// Row `j` is a match for the query, and `x` is its summary.
pub open spec fn is_hit(rows: Seq<AuthorRow>, keys: Seq<Seq<char>>, q: Seq<char>, x: AuthorSummary, j: int) -> bool {
    0 <= j && j < rows.len() && occurs_in(keys[j], q) && x == author_summary(rows[j])
}

/// The row from which the `i`-th hit among the first `n` rows comes.
pub open spec fn hit_row(rows: Seq<AuthorRow>, keys: Seq<Seq<char>>, q: Seq<char>, n: nat, i: int) -> int
    decreases n,
{
    if n == 0 {
        0
    } else if i < author_hits(rows, keys, q, (n - 1) as nat).len() {
        hit_row(rows, keys, q, (n - 1) as nat, i)
    } else {
        n - 1
    }
}

proof fn lemma_author_hits_rows(rows: Seq<AuthorRow>, keys: Seq<Seq<char>>, q: Seq<char>, n: nat)
    requires
        n <= rows.len(),
        n <= keys.len(),
    ensures
        forall|i: int|
            0 <= i && i < author_hits(rows, keys, q, n).len() ==> #[trigger] hit_row(
                rows,
                keys,
                q,
                n,
                i,
            ) < n,
        forall|i: int|
            0 <= i && i < author_hits(rows, keys, q, n).len() ==> is_hit(
                rows,
                keys,
                q,
                #[trigger] author_hits(rows, keys, q, n)[i],
                hit_row(rows, keys, q, n, i),
            ),
        forall|i1: int, i2: int|
            0 <= i1 && i1 < i2 && i2 < author_hits(rows, keys, q, n).len() ==> #[trigger] hit_row(
                rows,
                keys,
                q,
                n,
                i1,
            ) < #[trigger] hit_row(rows, keys, q, n, i2),
    decreases n,
{
    if n > 0 {
        let m = (n - 1) as nat;
        lemma_author_hits_rows(rows, keys, q, m);
        let prev = author_hits(rows, keys, q, m);
        let cur = author_hits(rows, keys, q, n);
        assert forall|i: int|
            0 <= i && i < author_hits(rows, keys, q, n).len() implies #[trigger] hit_row(
            rows,
            keys,
            q,
            n,
            i,
        ) < n && is_hit(
            rows,
            keys,
            q,
            author_hits(rows, keys, q, n)[i],
            hit_row(rows, keys, q, n, i),
        ) by {
            if i < prev.len() {
                assert(cur[i] == prev[i]);
                assert(hit_row(rows, keys, q, n, i) == hit_row(rows, keys, q, m, i));
            } else {
                assert(hit_row(rows, keys, q, n, i) == m);
            }
        }
        assert forall|i1: int, i2: int|
            0 <= i1 && i1 < i2 && i2 < cur.len() implies #[trigger] hit_row(rows, keys, q, n, i1)
            < #[trigger] hit_row(rows, keys, q, n, i2) by {
            assert(hit_row(rows, keys, q, n, i1) == hit_row(rows, keys, q, m, i1));
            assert(prev[i1] == author_hits(rows, keys, q, m)[i1]);
            if i2 < prev.len() {
                assert(hit_row(rows, keys, q, n, i2) == hit_row(rows, keys, q, m, i2));
            } else {
                assert(hit_row(rows, keys, q, n, i2) == m);
            }
        }
    } else {
        assert(author_hits(rows, keys, q, n).len() == 0);
    }
}

/// What an author search returns, stated row by row: at most fifty
/// authors; the `i`-th is the summary of a row whose key contains the
/// query key, these rows in their order in the listing; and when fewer
/// than fifty come back, every such row is among them, at the position
/// given by the number of matching rows before it.
pub proof fn lemma_selected_authors_properties(
    rows: Seq<AuthorRow>,
    keys: Seq<Seq<char>>,
    q: Seq<char>,
)
    requires
        keys.len() == rows.len(),
    ensures
        selected_authors(rows, keys, q).len() <= AUTHOR_SEARCH_LIMIT,
        forall|i: int|
            0 <= i && i < selected_authors(rows, keys, q).len() ==> is_hit(
                rows,
                keys,
                q,
                #[trigger] selected_authors(rows, keys, q)[i],
                hit_row(rows, keys, q, rows.len(), i),
            ),
        forall|i1: int, i2: int|
            0 <= i1 && i1 < i2 && i2 < selected_authors(rows, keys, q).len() ==> #[trigger] hit_row(
                rows,
                keys,
                q,
                rows.len(),
                i1,
            ) < #[trigger] hit_row(rows, keys, q, rows.len(), i2),
        selected_authors(rows, keys, q).len() < AUTHOR_SEARCH_LIMIT ==> forall|j: int|
            #![trigger author_hits(rows, keys, q, j as nat)]
            0 <= j && j < rows.len() && occurs_in(keys[j], q) ==> selected_authors(rows, keys, q)[author_hits(
                rows,
                keys,
                q,
                j as nat,
            ).len() as int] == author_summary(rows[j]),
{
    lemma_author_hits_rows(rows, keys, q, rows.len());
    let all = author_hits(rows, keys, q, rows.len());
    let sel = selected_authors(rows, keys, q);
    assert forall|i: int| 0 <= i && i < sel.len() implies is_hit(
        rows,
        keys,
        q,
        #[trigger] sel[i],
        hit_row(rows, keys, q, rows.len(), i),
    ) by {
        assert(sel[i] == all[i]);
    }
    if sel.len() < AUTHOR_SEARCH_LIMIT {
        assert(sel == all);
        assert forall|j: int|
            0 <= j && j < rows.len() && occurs_in(keys[j], q) implies sel[#[trigger] author_hits(
            rows,
            keys,
            q,
            j as nat,
        ).len() as int] == author_summary(rows[j]) by {
            lemma_author_hits_prefix(rows, keys, q, (j + 1) as nat, rows.len());
            let before = author_hits(rows, keys, q, j as nat);
            let upto = author_hits(rows, keys, q, (j + 1) as nat);
            assert(upto == before.push(author_summary(rows[j])));
            assert(all.take(upto.len() as int)[before.len() as int] == upto[before.len() as int]);
        }
    }
}

/// Names and queries are compared by their whole normalized,
/// lower-cased text, nothing cut off.
pub proof fn lemma_author_key_is_whole_text(t: Seq<char>)
    ensures
        author_key(t) == lowercase_of(normalized(t)),
{
}

/// Below the cap of fifty, an author search returns every row whose
/// normalized, lower-cased name contains the normalized, lower-cased
/// query, and each result is such a row.
pub proof fn lemma_search_finds_containing_names(
    rows: Seq<AuthorRow>,
    keys: Seq<Seq<char>>,
    query: Seq<char>,
)
    requires
        keys.len() == rows.len(),
        forall|j: int| 0 <= j < rows.len() ==> #[trigger] keys[j] == author_key(rows[j].1@),
    ensures
        selected_authors(rows, keys, author_key(query)).len() <= 50,
        forall|i: int|
            #![trigger hit_row(rows, keys, author_key(query), rows.len(), i)]
            0 <= i < selected_authors(rows, keys, author_key(query)).len() ==> 0 <= hit_row(
                rows,
                keys,
                author_key(query),
                rows.len(),
                i,
            ) < rows.len() && occurs_in(
                lowercase_of(normalized(rows[hit_row(rows, keys, author_key(query), rows.len(), i)].1@)),
                lowercase_of(normalized(query)),
            ) && selected_authors(rows, keys, author_key(query))[i] == author_summary(
                rows[hit_row(rows, keys, author_key(query), rows.len(), i)],
            ),
        selected_authors(rows, keys, author_key(query)).len() < 50 ==> forall|j: int|
            #![trigger rows[j]]
            0 <= j < rows.len() && occurs_in(
                lowercase_of(normalized(rows[j].1@)),
                lowercase_of(normalized(query)),
            ) ==> exists|i: int|
                0 <= i < selected_authors(rows, keys, author_key(query)).len()
                    && selected_authors(rows, keys, author_key(query))[i] == author_summary(rows[j]),
{
    let q = author_key(query);
    lemma_selected_authors_properties(rows, keys, q);
    let sel = selected_authors(rows, keys, q);
    if sel.len() < 50 {
        assert forall|j: int|
            #![trigger rows[j]]
            0 <= j < rows.len() && occurs_in(
                lowercase_of(normalized(rows[j].1@)),
                lowercase_of(normalized(query)),
            ) implies exists|i: int| 0 <= i < sel.len() && sel[i] == author_summary(rows[j]) by {
            assert(keys[j] == author_key(rows[j].1@));
            assert(occurs_in(keys[j], q));
            let i = author_hits(rows, keys, q, j as nat).len() as int;
            lemma_author_hits_prefix(rows, keys, q, (j + 1) as nat, rows.len());
            lemma_author_hits_prefix(rows, keys, q, j as nat, (j + 1) as nat);
            assert(sel[i] == author_summary(rows[j]));
        }
    }
    assert forall|i: int| #![trigger hit_row(rows, keys, q, rows.len(), i)] 0 <= i < sel.len() implies 0 <= hit_row(
        rows,
        keys,
        q,
        rows.len(),
        i,
    ) < rows.len() && occurs_in(
        lowercase_of(normalized(rows[hit_row(rows, keys, q, rows.len(), i)].1@)),
        lowercase_of(normalized(query)),
    ) && sel[i] == author_summary(rows[hit_row(rows, keys, q, rows.len(), i)]) by {
        let j = hit_row(rows, keys, q, rows.len(), i);
        assert(is_hit(rows, keys, q, sel[i], j));
        assert(keys[j] == author_key(rows[j].1@));
    }
}

/// Whether an author query is long enough to be searched at all
/// (at least three bytes of UTF-8).
pub fn is_author_query_searchable(query: &str) -> (r: bool)
    ensures
        r == (query.len() >= AUTHOR_QUERY_MIN_BYTES),
{
    query.len() >= AUTHOR_QUERY_MIN_BYTES
}

/// Picks, in row order, the first fifty authors whose key contains the
/// query key; the rows and keys are aligned by position.
pub fn select_authors(rows: &Vec<AuthorRow>, keys: &Vec<Vec<char>>, query_key: &Vec<char>) -> (r:
    Vec<AuthorSummary>)
    requires
        keys.len() == rows.len(),
    ensures
        r@ == selected_authors(rows@, keys@.map_values(|k: Vec<char>| k@), query_key@),
{
    let ghost ks = keys@.map_values(|k: Vec<char>| k@);
    let ghost q = query_key@;
    let mut out: Vec<AuthorSummary> = Vec::new();
    let mut i: usize = 0;
    while i < rows.len()
        invariant
            keys.len() == rows.len(),
            ks == keys@.map_values(|k: Vec<char>| k@),
            q == query_key@,
            i <= rows.len(),
            out@ == author_hits(rows@, ks, q, i as nat),
            out@.len() < AUTHOR_SEARCH_LIMIT,
        decreases rows.len() - i,
    {
        if contains_chars(&keys[i], query_key) {
            let row = &rows[i];
            let death = match row.2 {
                Some(d) => d,
                None => 0,
            };
            out.push((row.0, row.1.clone(), death, row.3));
            if out.len() == AUTHOR_SEARCH_LIMIT {
                proof {
                    lemma_author_hits_prefix(rows@, ks, q, (i + 1) as nat, rows@.len());
                    let all = author_hits(rows@, ks, q, rows@.len());
                    assert(all.take(AUTHOR_SEARCH_LIMIT as int) == out@);
                }
                return out;
            }
        }
        i = i + 1;
    }
    out
}

/// Searches authors by name. Queries shorter than three bytes find
/// nothing; otherwise the query and every name are normalized and
/// lower-cased, and the first fifty authors (in row order) whose name
/// contains the query are returned, an unknown death year read as 0.
pub fn search_authors(query: &str, rows: &Vec<AuthorRow>) -> (r: Vec<AuthorSummary>)
    ensures
        query.len() < AUTHOR_QUERY_MIN_BYTES ==> r@ == Seq::<AuthorSummary>::empty(),
        query.len() >= AUTHOR_QUERY_MIN_BYTES ==> r@ == selected_authors(
            rows@,
            Seq::new(rows@.len(), |i: int| author_key(rows@[i].1@)),
            author_key(query@),
        ),
{
    if !is_author_query_searchable(query) {
        return Vec::new();
    }
    let normalized_query = normalize_arabic_for_search(query);
    let lowered_query = to_lowercase(normalized_query.as_str());
    let query_key = chars_of(lowered_query.as_str());
    let mut keys: Vec<Vec<char>> = Vec::new();
    let mut i: usize = 0;
    while i < rows.len()
        invariant
            i <= rows.len(),
            keys.len() == i,
            forall|j: int| 0 <= j < i ==> (#[trigger] keys@[j])@ == author_key(rows@[j].1@),
        decreases rows.len() - i,
    {
        let name_key = to_lowercase(normalize_arabic_for_search(rows[i].1.as_str()).as_str());
        keys.push(chars_of(name_key.as_str()));
        i = i + 1;
    }
    let r = select_authors(rows, &keys, &query_key);
    proof {
        assert(keys@.map_values(|k: Vec<char>| k@) =~= Seq::new(
            rows@.len(),
            |i: int| author_key(rows@[i].1@),
        ));
    }
    r
}

} // verus!
