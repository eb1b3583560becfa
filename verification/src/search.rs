//! The shapes of search requests: which token field a term is matched
//! on, and the patterns of a name search.
use vstd::prelude::*;

verus! {

/// The field of a token that a term is matched against.
#[derive(Debug, Clone, Copy, PartialEq, Eq, Structural)]
pub enum TokenField {
    Surface,
    Lemma,
    Root,
}

/// How a search term is matched.
#[derive(Debug, Clone, Copy, PartialEq, Eq, Structural)]
pub enum SearchMode {
    Surface,
    Lemma,
    Root,
}

/// A term and how it is matched.
pub struct SearchTerm {
    pub query: String,
    pub mode: SearchMode,
}

pub open spec fn mode_of_field(field: TokenField) -> SearchMode {
    match field {
        TokenField::Surface => SearchMode::Surface,
        TokenField::Lemma => SearchMode::Lemma,
        TokenField::Root => SearchMode::Root,
    }
}

/// The search mode that matches on the given token field.
pub fn token_field_to_search_mode(field: TokenField) -> (m: SearchMode)
    ensures
        m == mode_of_field(field),
{
    match field {
        TokenField::Surface => SearchMode::Surface,
        TokenField::Lemma => SearchMode::Lemma,
        TokenField::Root => SearchMode::Root,
    }
}

/// The two terms of a proximity search, each matched on its own field.
pub fn proximity_terms(term1: String, field1: TokenField, term2: String, field2: TokenField) -> (r: (
    SearchTerm,
    SearchTerm,
))
    ensures
        r.0.query == term1 && r.0.mode == mode_of_field(field1),
        r.1.query == term2 && r.1.mode == mode_of_field(field2),
{
    (
        SearchTerm { query: term1, mode: token_field_to_search_mode(field1) },
        SearchTerm { query: term2, mode: token_field_to_search_mode(field2) },
    )
}

/// The mode of a request that names none: lemma matching.
pub fn mode_or_default(mode: Option<SearchMode>) -> (m: SearchMode)
    ensures
        m == match mode {
            Some(x) => x,
            None => SearchMode::Lemma,
        },
{
    match mode {
        Some(x) => x,
        None => SearchMode::Lemma,
    }
}

/// One way of writing a name: the patterns that match it.
pub struct NameSearchForm {
    pub patterns: Vec<String>,
}

/// The patterns of each form, form by form, as the name search takes
/// them.
pub fn patterns_by_form(forms: Vec<NameSearchForm>) -> (r: Vec<Vec<String>>)
    ensures
        r@.len() == forms@.len(),
        forall|i: int| 0 <= i < forms@.len() ==> #[trigger] r@[i] == forms@[i].patterns,
{
    let mut r: Vec<Vec<String>> = Vec::new();
    for f in it: forms
        invariant
            it.seq() == forms@,
            r@.len() == it.index(),
            forall|i: int| 0 <= i < r@.len() ==> #[trigger] r@[i] == forms@[i].patterns,
    {
        r.push(f.patterns);
    }
    r
}

} // verus!
