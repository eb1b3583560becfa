//! Request handling rules of the HTTP search API: the page window and
//! the `book_ids` filter given as a comma-separated list.
use vstd::prelude::*;
use crate::text::{
    all_digits, chars_of, decimal, digit_value, digits_value, is_digit, last_comma,
    lemma_decimal_canonical, lemma_last_comma_after, signed_decimal,
};
use crate::collections::json_id_items;

verus! {

/// Results per page when the request names no limit.
pub const DEFAULT_PAGE_SIZE: usize = 50;

/// The most results a page may hold.
pub const MAX_PAGE_SIZE: usize = 100;

/// The page a request asks for: the limit (default 50, at most 100) and
/// the offset (default 0).
pub fn page_window(limit: Option<usize>, offset: Option<usize>) -> (r: (usize, usize))
    ensures
        r.0 == (match limit {
            Some(l) => if l < MAX_PAGE_SIZE { l } else { MAX_PAGE_SIZE },
            None => DEFAULT_PAGE_SIZE,
        }),
        r.1 == (match offset {
            Some(o) => o,
            None => 0,
        }),
{
    let l = match limit {
        Some(l) => l,
        None => DEFAULT_PAGE_SIZE,
    };
    let l = if l < MAX_PAGE_SIZE { l } else { MAX_PAGE_SIZE };
    let o = match offset {
        Some(o) => o,
        None => 0,
    };
    (l, o)
}

/// Whether a character has the Unicode White_Space property, as
/// `char::is_whitespace` tests it.
pub open spec fn is_white_space(c: char) -> bool {
    let u = c as u32;
    ||| (0x9 <= u && u <= 0xD)
    ||| u == 0x20
    ||| u == 0x85
    ||| u == 0xA0
    ||| u == 0x1680
    ||| (0x2000 <= u && u <= 0x200A)
    ||| u == 0x2028
    ||| u == 0x2029
    ||| u == 0x202F
    ||| u == 0x205F
    ||| u == 0x3000
}

fn white_space(c: char) -> (r: bool)
    ensures
        r == is_white_space(c),
{
    let u = c as u32;
    (0x9 <= u && u <= 0xD) || u == 0x20 || u == 0x85 || u == 0xA0 || u == 0x1680 || (0x2000 <= u
        && u <= 0x200A) || u == 0x2028 || u == 0x2029 || u == 0x202F || u == 0x205F || u == 0x3000
}

/// The first position at or after `i` that holds no white space.
pub open spec fn skip_white(s: Seq<char>, i: int) -> int
    decreases s.len() - i,
{
    if i < 0 || i >= s.len() {
        s.len() as int
    } else if is_white_space(s[i]) {
        skip_white(s, i + 1)
    } else {
        i
    }
}

/// The end of `s[lo..j]` once trailing white space is dropped.
pub open spec fn back_white(s: Seq<char>, lo: int, j: int) -> int
    decreases j - lo,
{
    if j <= lo {
        lo
    } else if is_white_space(s[j - 1]) {
        back_white(s, lo, j - 1)
    } else {
        j
    }
}

/// A text without its leading and trailing white space (`str::trim`).
pub open spec fn trimmed(s: Seq<char>) -> Seq<char> {
    let lo = skip_white(s, 0);
    s.subrange(lo, back_white(s, lo, s.len() as int))
}

/// How `str::parse::<i64>` reads a text: an optional `+` or `-`, then at
/// least one ASCII digit and nothing else, within the range of `i64`.
pub open spec fn parsed_i64(t: Seq<char>) -> Option<i64> {
    let signed = t.len() > 0 && (t[0] == '-' || t[0] == '+');
    let body = if signed {
        t.drop_first()
    } else {
        t
    };
    if body.len() > 0 && all_digits(body) {
        if signed && t[0] == '-' {
            if digits_value(body) <= 0x8000_0000_0000_0000 {
                Some((-digits_value(body)) as i64)
            } else {
                None
            }
        } else if digits_value(body) <= 0x7fff_ffff_ffff_ffff {
            Some(digits_value(body) as i64)
        } else {
            None
        }
    } else {
        None
    }
}

/// The comma-separated fields of a text (`str::split(',')`); an empty
/// text has one empty field.
pub open spec fn comma_fields(s: Seq<char>) -> Seq<Seq<char>>
    decreases s.len(),
{
    match last_comma(s) {
        Some(k) => if 0 <= k < s.len() {
            comma_fields(s.take(k)).push(s.skip(k + 1))
        } else {
            seq![s]
        },
        None => seq![s],
    }
}

/// The ids read from the fields that parse, in order; the others are
/// skipped.
pub open spec fn ids_of_fields(fs: Seq<Seq<char>>) -> Seq<i64>
    decreases fs.len(),
{
    if fs.len() == 0 {
        Seq::empty()
    } else {
        ids_of_fields(fs.drop_last()) + match parsed_i64(trimmed(fs.last())) {
            Some(v) => seq![v],
            None => Seq::empty(),
        }
    }
}

/// The book ids of a `book_ids` request parameter.
pub open spec fn book_ids_param(s: Seq<char>) -> Seq<i64> {
    ids_of_fields(comma_fields(s))
}

/// Parses the field `seg` once trimmed.
fn parse_field(seg: &Vec<char>) -> (r: Option<i64>)
    ensures
        r == parsed_i64(trimmed(seg@)),
{
    let ghost s = seg@;
    let mut lo: usize = 0;
    while lo < seg.len() && white_space(seg[lo])
        invariant
            s == seg@,
            lo <= seg.len(),
            skip_white(s, lo as int) == skip_white(s, 0),
        decreases seg.len() - lo,
    {
        lo = lo + 1;
    }
    let mut hi: usize = seg.len();
    while hi > lo && white_space(seg[hi - 1])
        invariant
            s == seg@,
            lo <= hi <= seg.len(),
            lo == skip_white(s, 0),
            back_white(s, lo as int, hi as int) == back_white(s, lo as int, s.len() as int),
        decreases hi - lo,
    {
        hi = hi - 1;
    }
    let ghost t = s.subrange(lo as int, hi as int);
    assert(t == trimmed(s));
    let mut i = lo;
    let mut neg = false;
    if i < hi && (seg[i] == '-' || seg[i] == '+') {
        neg = seg[i] == '-';
        i = i + 1;
    }
    let body_start = i;
    assert(neg == (t.len() > 0 && t[0] == '-'));
    let ghost body = s.subrange(body_start as int, hi as int);
    assert(body == (if t.len() > 0 && (t[0] == '-' || t[0] == '+') {
        t.drop_first()
    } else {
        t
    }));
    if i == hi {
        assert(body.len() == 0);
        assert(parsed_i64(t) is None);
        return None;
    }
    let mut v: u64 = 0;
    let mut over = false;
    while i < hi
        invariant
            s == seg@,
            body_start <= i <= hi <= seg.len(),
            body == s.subrange(body_start as int, hi as int),
            t == trimmed(s),
            body == (if t.len() > 0 && (t[0] == '-' || t[0] == '+') {
                t.drop_first()
            } else {
                t
            }),
            neg == (t.len() > 0 && t[0] == '-'),
            all_digits(s.subrange(body_start as int, i as int)),
            over ==> digits_value(s.subrange(body_start as int, i as int)) > u64::MAX,
            !over ==> v == digits_value(s.subrange(body_start as int, i as int)),
        decreases hi - i,
    {
        let c = seg[i];
        if !('0' <= c && c <= '9') {
            assert(body[i - body_start] == c);
            return None;
        }
        let d: u64 = (c as u32 - '0' as u32) as u64;
        let ghost prev = s.subrange(body_start as int, i as int);
        let ghost next = s.subrange(body_start as int, i + 1);
        assert(next.drop_last() =~= prev);
        assert(next.last() == c);
        assert(digits_value(next) == digits_value(prev) * 10 + digit_value(c));
        assert forall|k: int| 0 <= k < next.len() implies is_digit(#[trigger] next[k]) by {
            if k < prev.len() {
                assert(next[k] == prev[k]);
            }
        }
        if !over {
            match v.checked_mul(10) {
                Some(m) => match m.checked_add(d) {
                    Some(n) => {
                        v = n;
                    },
                    None => {
                        over = true;
                    },
                },
                None => {
                    over = true;
                },
            }
        }
        i = i + 1;
    }
    assert(s.subrange(body_start as int, i as int) == body);
    if over {
        return None;
    }
    if neg {
        if v <= 0x8000_0000_0000_0000 {
            if v == 0x8000_0000_0000_0000 {
                Some(i64::MIN)
            } else {
                Some(-(v as i64))
            }
        } else {
            None
        }
    } else if v <= 0x7fff_ffff_ffff_ffff {
        Some(v as i64)
    } else {
        None
    }
}

proof fn lemma_last_comma_of_prefix(s: Seq<char>, st: int, i: int)
    requires
        0 <= st <= i <= s.len(),
        forall|k: int| st <= k < i ==> s[k] != ',',
        st > 0 ==> s[st - 1] == ',',
    ensures
        last_comma(s.take(i)) == (if st > 0 {
            Some(st - 1)
        } else {
            None::<int>
        }),
    decreases i - st,
{
    if i == st {
        if st > 0 {
            assert(s.take(i).last() == s[st - 1]);
        } else {
            assert(s.take(i).len() == 0);
        }
    } else {
        assert(s.take(i).last() == s[i - 1]);
        assert(s.take(i).drop_last() =~= s.take(i - 1));
        lemma_last_comma_of_prefix(s, st, i - 1);
    }
}

pub open spec fn field_id(f: Seq<char>) -> Seq<i64> {
    match parsed_i64(trimmed(f)) {
        Some(v) => seq![v],
        None => Seq::empty(),
    }
}

proof fn lemma_fields_of_prefix(s: Seq<char>, st: int, i: int)
    requires
        0 <= st <= i <= s.len(),
        forall|k: int| st <= k < i ==> s[k] != ',',
        st > 0 ==> s[st - 1] == ',',
    ensures
        book_ids_param(s.take(i)) == (if st > 0 {
            book_ids_param(s.take(st - 1))
        } else {
            Seq::<i64>::empty()
        }) + field_id(s.subrange(st, i)),
{
    lemma_last_comma_of_prefix(s, st, i);
    let p = s.take(i);
    if st > 0 {
        assert(p.take(st - 1) =~= s.take(st - 1));
        assert(p.skip(st) =~= s.subrange(st, i));
        let fs = comma_fields(p);
        assert(fs == comma_fields(s.take(st - 1)).push(s.subrange(st, i)));
        assert(fs.drop_last() =~= comma_fields(s.take(st - 1)));
        assert(fs.last() == s.subrange(st, i));
        assert(ids_of_fields(fs) == ids_of_fields(fs.drop_last()) + field_id(fs.last()));
    } else {
        assert(p =~= s.subrange(st, i));
        let fs = comma_fields(p);
        assert(fs == seq![p]);
        assert(fs.drop_last() =~= Seq::<Seq<char>>::empty());
        assert(ids_of_fields(fs) == ids_of_fields(fs.drop_last()) + field_id(fs.last()));
        assert(ids_of_fields(Seq::<Seq<char>>::empty()) == Seq::<i64>::empty());
        assert(Seq::<i64>::empty() + field_id(p) =~= field_id(p));
    }
}

/// Reads the `book_ids` parameter: the text is split at commas, each
/// field trimmed and read as an `i64`, and fields that do not parse are
/// skipped.
pub fn parse_book_ids(s: &str) -> (r: Vec<i64>)
    ensures
        r@ == book_ids_param(s@),
{
    let cs = chars_of(s);
    let ghost t = cs@;
    let mut out: Vec<i64> = Vec::new();
    let mut seg: Vec<char> = Vec::new();
    let mut st: usize = 0;
    let mut i: usize = 0;
    while i < cs.len()
        invariant
            t == cs@,
            st <= i <= cs.len(),
            seg@ == t.subrange(st as int, i as int),
            forall|k: int| st <= k < i ==> t[k] != ',',
            st > 0 ==> t[st - 1] == ',',
            out@ == (if st > 0 {
                book_ids_param(t.take(st - 1))
            } else {
                Seq::<i64>::empty()
            }),
        decreases cs.len() - i,
    {
        let c = cs[i];
        if c == ',' {
            proof {
                lemma_fields_of_prefix(t, st as int, i as int);
            }
            match parse_field(&seg) {
                Some(v) => {
                    out.push(v);
                },
                None => {},
            }
            assert(out@ =~= book_ids_param(t.take(i as int)));
            seg = Vec::new();
            st = i + 1;
            assert(t.take(st - 1) == t.take(i as int));
            assert(t.subrange(st as int, st as int) =~= Seq::<char>::empty());
        } else {
            seg.push(c);
            assert(t.subrange(st as int, i + 1) =~= t.subrange(st as int, i as int).push(c));
        }
        i = i + 1;
    }
    proof {
        lemma_fields_of_prefix(t, st as int, i as int);
        assert(t.take(i as int) =~= t);
    }
    match parse_field(&seg) {
        Some(v) => {
            out.push(v);
        },
        None => {},
    }
    assert(out@ =~= book_ids_param(t));
    out
}

/// Reads the optional `book_ids` parameter of a search request.
pub fn book_ids_filter(book_ids: &Option<String>) -> (r: Option<Vec<i64>>)
    ensures
        match book_ids {
            Some(s) => r matches Some(v) && v@ == book_ids_param(s@),
            None => r is None,
        },
{
    match book_ids {
        Some(s) => Some(parse_book_ids(s.as_str())),
        None => None,
    }
}

proof fn lemma_parsed_decimal(n: i64)
    ensures
        parsed_i64(trimmed(signed_decimal(n as int))) == Some(n),
        forall|i: int|
            0 <= i < signed_decimal(n as int).len() ==> #[trigger] signed_decimal(n as int)[i]
                != ',',
{
    let t = signed_decimal(n as int);
    let m: nat = if n < 0 { (-(n as int)) as nat } else { n as nat };
    lemma_decimal_canonical(m);
    let d = decimal(m);
    if n < 0 {
        assert(t.drop_first() =~= d);
        assert(t[0] == '-');
        assert(t.last() == d.last());
    } else {
        assert(t == d);
    }
    assert(is_digit(d[0]));
    assert(is_digit(d[d.len() - 1]));
    assert(!is_white_space(t[0]));
    assert(!is_white_space(t[t.len() - 1]));
    assert(skip_white(t, 0) == 0);
    assert(back_white(t, 0, t.len() as int) == t.len());
    assert(trimmed(t) =~= t);
    assert forall|i: int| 0 <= i < t.len() implies #[trigger] t[i] != ',' by {
        if n < 0 {
            if i > 0 {
                assert(t[i] == d[i - 1]);
                assert(is_digit(d[i - 1]));
            }
        } else {
            assert(is_digit(d[i]));
        }
    }
}

/// A list of ids written as comma-separated decimals (how a client
/// passes `book_ids`) reads back as the same list.
pub proof fn lemma_book_ids_param_round_trip(ids: Seq<i64>)
    ensures
        book_ids_param(json_id_items(ids)) == ids,
    decreases ids.len(),
{
    let s = json_id_items(ids);
    if ids.len() == 0 {
        assert(s.len() == 0);
        assert(last_comma(s) is None);
        assert(comma_fields(s) == seq![s]);
        assert(comma_fields(s).drop_last() =~= Seq::<Seq<char>>::empty());
        assert(parsed_i64(trimmed(s)) is None);
        let fs = comma_fields(s);
        assert(ids_of_fields(fs) == ids_of_fields(fs.drop_last()) + field_id(fs.last()));
        assert(ids_of_fields(Seq::<Seq<char>>::empty()) == Seq::<i64>::empty());
        assert(field_id(s) == Seq::<i64>::empty());
        assert(ids_of_fields(comma_fields(s)) =~= Seq::<i64>::empty());
    } else if ids.len() == 1 {
        lemma_parsed_decimal(ids[0]);
        let t = signed_decimal(ids[0] as int);
        assert(s == t);
        lemma_no_comma_anywhere(t);
        assert(comma_fields(s) == seq![s]);
        assert(comma_fields(s).drop_last() =~= Seq::<Seq<char>>::empty());
        let fs = comma_fields(s);
        assert(ids_of_fields(fs) == ids_of_fields(fs.drop_last()) + field_id(fs.last()));
        assert(ids_of_fields(Seq::<Seq<char>>::empty()) == Seq::<i64>::empty());
        assert(field_id(s) == seq![ids[0]]);
        assert(ids_of_fields(comma_fields(s)) =~= seq![ids[0]]);
        assert(seq![ids[0]] =~= ids);
    } else {
        let front = json_id_items(ids.drop_last());
        let last = signed_decimal(ids.last() as int);
        lemma_parsed_decimal(ids.last());
        lemma_last_comma_after(front, last);
        crate::text::reveal_comma();
        assert(s == front + ","@ + last);
        let k = front.len() as int;
        assert(s.take(k) =~= front);
        assert(s.skip(k + 1) =~= last);
        lemma_book_ids_param_round_trip(ids.drop_last());
        let fs = comma_fields(s);
        assert(fs == comma_fields(front).push(last));
        assert(fs.drop_last() =~= comma_fields(front));
        assert(ids_of_fields(fs) == ids_of_fields(fs.drop_last()) + field_id(fs.last()));
        assert(ids.drop_last().push(ids.last()) =~= ids);
        assert(ids.drop_last() + seq![ids.last()] =~= ids);
    }
}

proof fn lemma_no_comma_anywhere(t: Seq<char>)
    requires
        forall|i: int| 0 <= i < t.len() ==> t[i] != ',',
    ensures
        last_comma(t) is None,
    decreases t.len(),
{
    if t.len() > 0 {
        assert(t.last() == t[t.len() - 1]);
        lemma_no_comma_anywhere(t.drop_last());
    }
}

} // verus!
