//! Folding of Arabic text into the canonical form used when matching
//! author names: vowel marks are dropped and letter variants are folded
//! onto their base letter.
use vstd::prelude::*;
use crate::text::{chars_of, push_char};

verus! {

/// Marks that are removed entirely: the harakat block U+064B..U+065F,
/// the superscript alef U+0670 and alef wasla U+0671.
pub open spec fn is_dropped_mark(c: char) -> bool {
    ||| (0x064B <= (c as u32) && (c as u32) <= 0x065F)
    ||| c == '\u{0670}'
    ||| c == '\u{0671}'
}

/// The base letter that a kept character is folded onto.
pub open spec fn fold_letter(c: char) -> char {
    if c == '\u{0623}' || c == '\u{0625}' || c == '\u{0622}' {
        '\u{0627}'  // hamza / madda forms of alef -> alef
    } else if c == '\u{0624}' {
        '\u{0648}'  // waw with hamza -> waw
    } else if c == '\u{0626}' || c == '\u{0649}' {
        '\u{064A}'  // yeh with hamza, alef maksura -> yeh
    } else if c == '\u{06A9}' || c == '\u{06AF}' || c == '\u{06AD}' {
        '\u{0643}'  // keheh, gaf, ng -> kaf
    } else if c == '\u{06CC}' || c == '\u{06D2}' {
        '\u{064A}'  // farsi yeh, yeh barree -> yeh
    } else if c == '\u{06C0}' || c == '\u{06D5}' {
        '\u{0647}'  // heh with yeh above, ae -> heh
    } else if c == '\u{06C3}' {
        '\u{0629}'  // teh marbuta goal -> teh marbuta
    } else if c == '\u{0679}' {
        '\u{062A}'  // tteh -> teh
    } else if c == '\u{067E}' {
        '\u{0628}'  // peh -> beh
    } else if c == '\u{0686}' {
        '\u{062C}'  // tcheh -> jeem
    } else if c == '\u{0698}' {
        '\u{0632}'  // jeh -> zain
    } else if c == '\u{06A4}' {
        '\u{0641}'  // veh -> feh
    } else if c == '\u{06A8}' {
        '\u{0642}'  // qaf with three dots -> qaf
    } else {
        c
    }
}

/// What a single character contributes to the normalized text.
pub open spec fn normalized_char(c: char) -> Seq<char> {
    if is_dropped_mark(c) {
        Seq::empty()
    } else {
        seq![fold_letter(c)]
    }
}

/// The normalized form of a character sequence: each character is
/// replaced by what it contributes, in order.
pub open spec fn normalized(s: Seq<char>) -> Seq<char>
    decreases s.len(),
{
    if s.len() == 0 {
        Seq::empty()
    } else {
        normalized(s.drop_last()) + normalized_char(s.last())
    }
}

fn fold_char(c: char) -> (r: Option<char>)
    ensures
        match r {
            Some(d) => normalized_char(c) == seq![d],
            None => normalized_char(c) == Seq::<char>::empty(),
        },
{
    let code = c as u32;
    if (0x064B <= code && code <= 0x065F) || c == '\u{0670}' || c == '\u{0671}' {
        return None;
    }
    let d = match c {
        '\u{0623}' | '\u{0625}' | '\u{0622}' => '\u{0627}',
        '\u{0624}' => '\u{0648}',
        '\u{0626}' | '\u{0649}' => '\u{064A}',
        '\u{06A9}' | '\u{06AF}' | '\u{06AD}' => '\u{0643}',
        '\u{06CC}' | '\u{06D2}' => '\u{064A}',
        '\u{06C0}' | '\u{06D5}' => '\u{0647}',
        '\u{06C3}' => '\u{0629}',
        '\u{0679}' => '\u{062A}',
        '\u{067E}' => '\u{0628}',
        '\u{0686}' => '\u{062C}',
        '\u{0698}' => '\u{0632}',
        '\u{06A4}' => '\u{0641}',
        '\u{06A8}' => '\u{0642}',
        _ => c,
    };
    Some(d)
}

/// Normalizes Arabic text for matching: drops vowel marks and folds
/// letter variants (hamza forms, Persian/Urdu letters) onto base letters.
pub fn normalize_arabic_for_search(text: &str) -> (r: String)
    ensures
        r@ == normalized(text@),
{
    let cs = chars_of(text);
    let mut out = String::new();
    let mut i: usize = 0;
    while i < cs.len()
        invariant
            i <= cs.len(),
            cs@ == text@,
            out@ == normalized(cs@.take(i as int)),
        decreases cs.len() - i,
    {
        let c = cs[i];
        proof {
            assert(cs@.take(i + 1).drop_last() == cs@.take(i as int));
            assert(cs@.take(i + 1).last() == c);
        }
        match fold_char(c) {
            Some(d) => {
                push_char(&mut out, d);
            },
            None => {
                assert(out@ + Seq::<char>::empty() == out@);
            },
        }
        i = i + 1;
    }
    proof {
        assert(cs@.take(cs.len() as int) == cs@);
    }
    out
}

/// Normalization works character by character: normalizing a
/// concatenation is concatenating the normalized parts.
pub proof fn lemma_normalized_concat(a: Seq<char>, b: Seq<char>)
    ensures
        normalized(a + b) == normalized(a) + normalized(b),
    decreases b.len(),
{
    if b.len() == 0 {
        assert(a + b == a);
        assert(normalized(a) + Seq::<char>::empty() == normalized(a));
    } else {
        assert((a + b).drop_last() == a + b.drop_last());
        assert((a + b).last() == b.last());
        lemma_normalized_concat(a, b.drop_last());
        assert(normalized(a) + normalized(b.drop_last()) + normalized_char(b.last())
            == normalized(a) + (normalized(b.drop_last()) + normalized_char(b.last())));
    }
}

proof fn lemma_normalized_char_stable(c: char)
    ensures
        normalized(normalized_char(c)) == normalized_char(c),
{
    if !is_dropped_mark(c) {
        let s = seq![fold_letter(c)];
        assert(s.drop_last() == Seq::<char>::empty());
        assert(normalized(s) == normalized(Seq::<char>::empty()) + normalized_char(fold_letter(c)));
        assert(Seq::<char>::empty() + normalized_char(fold_letter(c)) == normalized_char(fold_letter(c)));
    }
}

/// Normalizing twice gives the same text as normalizing once.
pub proof fn lemma_normalized_idempotent(s: Seq<char>)
    ensures
        normalized(normalized(s)) == normalized(s),
    decreases s.len(),
{
    if s.len() > 0 {
        lemma_normalized_idempotent(s.drop_last());
        lemma_normalized_concat(normalized(s.drop_last()), normalized_char(s.last()));
        lemma_normalized_char_stable(s.last());
    }
}

/// Normalization never makes a text longer, and keeps exactly the
/// characters that are not dropped marks.
pub proof fn lemma_normalized_len(s: Seq<char>)
    ensures
        normalized(s).len() <= s.len(),
        normalized(s).len() == s.filter(|c: char| !is_dropped_mark(c)).len(),
    decreases s.len(),
{
    reveal_with_fuel(Seq::filter, 1);
    if s.len() > 0 {
        lemma_normalized_len(s.drop_last());
    }
}

/// The normalized text holds no dropped mark and no letter that would be
/// folded again.
pub proof fn lemma_normalized_is_canonical(s: Seq<char>)
    ensures
        forall|i: int| 0 <= i < normalized(s).len() ==> {
            &&& !is_dropped_mark(#[trigger] normalized(s)[i])
            &&& fold_letter(normalized(s)[i]) == normalized(s)[i]
        },
    decreases s.len(),
{
    if s.len() > 0 {
        lemma_normalized_is_canonical(s.drop_last());
        let p = normalized(s.drop_last());
        let q = normalized_char(s.last());
        assert forall|i: int| 0 <= i < normalized(s).len() implies {
            &&& !is_dropped_mark(#[trigger] normalized(s)[i])
            &&& fold_letter(normalized(s)[i]) == normalized(s)[i]
        } by {
            if i < p.len() {
                assert(normalized(s)[i] == p[i]);
            } else {
                assert(normalized(s)[i] == q[i - p.len()]);
            }
        }
    }
}

/// Every vowel mark is dropped: appending a character of U+064B..U+065F
/// (the harakat, tanween included), U+0670 or U+0671 to a text leaves its
/// normalized form unchanged.
pub proof fn lemma_marks_are_dropped(s: Seq<char>, c: char)
    requires
        (0x064B <= (c as u32) && (c as u32) <= 0x065F) || (c as u32) == 0x0670 || (c as u32)
            == 0x0671,
    ensures
        normalized(s.push(c)) == normalized(s),
        normalized(Seq::<char>::empty()) == Seq::<char>::empty(),
{
    assert(s.push(c).drop_last() =~= s);
    assert(normalized(s) + Seq::<char>::empty() =~= normalized(s));
}

/// The letter that a character of the text becomes, by a fixed table of
/// code points; every other character is kept.
pub open spec fn folded_code(u: u32) -> u32 {
    if u == 0x0623 || u == 0x0625 || u == 0x0622 {
        0x0627
    } else if u == 0x0624 {
        0x0648
    } else if u == 0x0626 || u == 0x0649 || u == 0x06CC || u == 0x06D2 {
        0x064A
    } else if u == 0x06A9 || u == 0x06AF || u == 0x06AD {
        0x0643
    } else if u == 0x06C0 || u == 0x06D5 {
        0x0647
    } else if u == 0x06C3 {
        0x0629
    } else if u == 0x0679 {
        0x062A
    } else if u == 0x067E {
        0x0628
    } else if u == 0x0686 {
        0x062C
    } else if u == 0x0698 {
        0x0632
    } else if u == 0x06A4 {
        0x0641
    } else if u == 0x06A8 {
        0x0642
    } else {
        u
    }
}

/// Every character that is not a vowel mark contributes exactly one
/// character, at the end: its base letter by the fixed table of code
/// points (hamza forms of alef to alef, waw with hamza to waw, the yeh
/// forms to yeh, keheh/gaf/ng to kaf, heh forms to heh, teh marbuta goal
/// to teh marbuta, and tteh, peh, tcheh, jeh, veh, qaf with three dots to
/// teh, beh, jeem, zain, feh, qaf); any other character is kept as it is.
pub proof fn lemma_letters_are_folded(s: Seq<char>, c: char)
    requires
        !((0x064B <= (c as u32) && (c as u32) <= 0x065F) || (c as u32) == 0x0670 || (c as u32)
            == 0x0671),
    ensures
        normalized(s.push(c)).len() == normalized(s).len() + 1,
        normalized(s.push(c)).drop_last() == normalized(s),
        normalized(s.push(c)).last() as u32 == folded_code(c as u32),
{
    assert(s.push(c).drop_last() =~= s);
    assert((normalized(s) + seq![fold_letter(c)]).drop_last() =~= normalized(s));
}

} // verus!
