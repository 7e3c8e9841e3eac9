use vstd::prelude::*;
use crate::text::string_push;

pub mod tokens;
pub mod token_tables;
pub mod chars;
pub mod lexer;

verus! {

/// Turns the source text of a string fragment into the string's value.
/// No char of the fragment ever starts an escape here, so the value is the fragment itself.
pub fn lex_string_from(source_frag: &str) -> (r: String)
    ensures
        r@ == source_frag@,
{
    let mut s = String::new();
    let mut is_backslashed = false;
    let mut skip_spaces = false;
    for c in it: source_frag.chars()
        invariant
            s@ == it.seq().take(it.index() as int),
            !is_backslashed,
            !skip_spaces,
    {
        if is_backslashed {
            if c == 'n' {
                string_push(&mut s, '\n');
            } else if c == 't' {
                string_push(&mut s, '\t');
            } else if c == 'r' {
                string_push(&mut s, '\r');
            } else if c == '0' {
                string_push(&mut s, '\0');
            } else if c == '\n' {
                string_push(&mut s, '\n');
                skip_spaces = true;
            } else {
                string_push(&mut s, c);
            }
            is_backslashed = false;
        } else if skip_spaces && (c == ' ' || c == '\r' || c == '\t') {
            // spaces right after an escaped line break are dropped
        } else {
            skip_spaces = false;
            string_push(&mut s, c);
        }
    }
    s
}

/// Whether `c` is a decimal digit.
pub open spec fn is_digit_char(c: char) -> bool {
    '0' <= c <= '9'
}

/// The decimal number written by `s`, where `_` separators are skipped.
pub open spec fn spec_int_value(s: Seq<char>) -> int
    decreases s.len(),
{
    if s.len() == 0 {
        0
    } else if s.last() == '_' {
        spec_int_value(s.drop_last())
    } else {
        spec_int_value(s.drop_last()) * 10 + (s.last() as int - '0' as int)
    }
}

/// Every char of `s` is a digit or `_`.
pub open spec fn is_int_literal_text(s: Seq<char>) -> bool {
    forall|i: int| 0 <= i < s.len() ==> is_digit_char(#[trigger] s[i]) || s[i] == '_'
}

proof fn lemma_int_value_prefix_le(s: Seq<char>, i: int)
    requires
        is_int_literal_text(s),
        0 <= i <= s.len(),
    ensures
        0 <= spec_int_value(s.take(i)) <= spec_int_value(s),
    decreases s.len() - i,
{
    if i < s.len() {
        lemma_int_value_prefix_le(s, i + 1);
        assert(s.take(i + 1).drop_last() =~= s.take(i));
        assert(is_digit_char(s[i]) || s[i] == '_');
        lemma_int_value_nonneg(s.take(i));
    } else {
        assert(s.take(i) =~= s);
        lemma_int_value_nonneg(s);
    }
}

proof fn lemma_int_value_nonneg(s: Seq<char>)
    requires
        is_int_literal_text(s),
    ensures
        spec_int_value(s) >= 0,
    decreases s.len(),
{
    if s.len() > 0 {
        assert(is_int_literal_text(s.drop_last()));
        lemma_int_value_nonneg(s.drop_last());
        assert(is_digit_char(s[s.len() - 1]) || s[s.len() - 1] == '_');
    }
}

/// The value of an integer literal's source text: its digits in base 10, `_` skipped.
pub fn lex_num_int_from(source_frag: &str) -> (r: i64)
    requires
        is_int_literal_text(source_frag@),
        spec_int_value(source_frag@) <= i64::MAX,
    ensures
        r == spec_int_value(source_frag@),
{
    let mut acc: i64 = 0;
    for c in it: source_frag.chars()
        invariant
            it.seq() == source_frag@,
            is_int_literal_text(source_frag@),
            spec_int_value(source_frag@) <= i64::MAX,
            acc == spec_int_value(source_frag@.take(it.index() as int)),
    {
        proof {
            let i = it.index() as int;
            assert(source_frag@.take(i + 1).drop_last() =~= source_frag@.take(i));
            lemma_int_value_prefix_le(source_frag@, i + 1);
            lemma_int_value_nonneg(source_frag@.take(i));
            assert(is_int_literal_text(source_frag@.take(i))) by {
                assert forall|k: int| 0 <= k < i implies is_digit_char(#[trigger] source_frag@.take(i)[k]) || source_frag@.take(i)[k] == '_' by {
                    assert(source_frag@.take(i)[k] == source_frag@[k]);
                }
            }
            assert(is_int_literal_text(source_frag@.take(i + 1))) by {
                assert forall|k: int| 0 <= k < i + 1 implies is_digit_char(#[trigger] source_frag@.take(i + 1)[k]) || source_frag@.take(i + 1)[k] == '_' by {
                    assert(source_frag@.take(i + 1)[k] == source_frag@[k]);
                }
            }
        }
        if c != '_' {
            let digit = (c as u32 - '0' as u32) as i64;
            acc = acc * 10 + digit;
        }
    }
    proof {
        assert(source_frag@.take(source_frag@.len() as int) =~= source_frag@);
    }
    acc
}

/// The number that a non-empty text of decimal digits writes, if it fits in a `usize`
/// (tuple labels such as `0` and `12`).
pub fn parse_decimal_usize(text: &str) -> (r: Option<usize>)
    ensures
        r matches Some(n) ==> text@.len() > 0 && (forall|i: int| 0 <= i < text@.len() ==> is_digit_char(#[trigger] text@[i]))
            && n == spec_int_value(text@),
        r is None && text@.len() > 0 && (forall|i: int| 0 <= i < text@.len() ==> is_digit_char(#[trigger] text@[i]))
            ==> spec_int_value(text@) > usize::MAX,
{
    let mut acc: usize = 0;
    let mut all_digits = true;
    let mut overflow = false;
    let mut any = false;
    for c in it: text.chars()
        invariant
            it.seq() == text@,
            any == (it.index() > 0),
            all_digits ==> forall|k: int| 0 <= k < it.index() ==> is_digit_char(#[trigger] text@[k]),
            !all_digits ==> exists|k: int| 0 <= k < text@.len() && !is_digit_char(#[trigger] text@[k]),
            all_digits && !overflow ==> acc == spec_int_value(text@.take(it.index() as int)),
            all_digits && overflow ==> spec_int_value(text@.take(it.index() as int)) > usize::MAX,
    {
        let ghost i = it.index() as int;
        any = true;
        if !('0' <= c && c <= '9') {
            all_digits = false;
        } else if all_digits {
            proof {
                assert(text@.take(i + 1).drop_last() =~= text@.take(i));
                assert(is_int_literal_text(text@.take(i + 1))) by {
                    assert forall|k: int| 0 <= k < i + 1 implies is_digit_char(#[trigger] text@.take(i + 1)[k]) || text@.take(i + 1)[k] == '_' by {
                        assert(text@.take(i + 1)[k] == text@[k]);
                    }
                }
                assert(is_int_literal_text(text@.take(i))) by {
                    assert forall|k: int| 0 <= k < i implies is_digit_char(#[trigger] text@.take(i)[k]) || text@.take(i)[k] == '_' by {
                        assert(text@.take(i)[k] == text@[k]);
                    }
                }
                lemma_int_value_nonneg(text@.take(i));
            }
            if !overflow {
                let digit = (c as u32 - '0' as u32) as usize;
                match acc.checked_mul(10) {
                    Some(m) => match m.checked_add(digit) {
                        Some(n) => { acc = n; },
                        None => { overflow = true; },
                    },
                    None => { overflow = true; },
                }
            }
        }
    }
    proof {
        assert(text@.take(text@.len() as int) =~= text@);
    }
    if any && all_digits && !overflow { Some(acc) } else { None }
}

/// Whether `source_frag` is the text of an integer literal (digits and `_`) whose value fits in an `i64`.
pub fn int_literal_fits(source_frag: &str) -> (r: bool)
    ensures
        r == (is_int_literal_text(source_frag@) && spec_int_value(source_frag@) <= i64::MAX),
{
    let mut valid = true;
    for c in it: source_frag.chars()
        invariant
            it.seq() == source_frag@,
            valid == is_int_literal_text(source_frag@.take(it.index() as int)),
    {
        proof {
            let i = it.index() as int;
            assert forall|k: int| 0 <= k < i implies #[trigger] source_frag@.take(i + 1)[k] == source_frag@.take(i)[k] by {}
            assert(source_frag@.take(i + 1)[i] == c);
        }
        if !(('0' <= c && c <= '9') || c == '_') {
            valid = false;
        }
    }
    proof {
        assert(source_frag@.take(source_frag@.len() as int) =~= source_frag@);
    }
    if !valid {
        return false;
    }
    let mut acc: i64 = 0;
    for c in it: source_frag.chars()
        invariant
            it.seq() == source_frag@,
            is_int_literal_text(source_frag@),
            acc == spec_int_value(source_frag@.take(it.index() as int)),
    {
        let ghost i = it.index() as int;
        proof {
            assert(source_frag@.take(i + 1).drop_last() =~= source_frag@.take(i));
            lemma_int_value_prefix_le(source_frag@, i + 1);
        }
        if c != '_' {
            let digit = (c as u32 - '0' as u32) as i64;
            match acc.checked_mul(10) {
                Some(m) => match m.checked_add(digit) {
                    Some(n) => { acc = n; }
                    None => { return false; }
                },
                None => {
                    proof { lemma_int_value_nonneg(source_frag@.take(i)); }
                    return false;
                }
            }
        }
    }
    proof {
        assert(source_frag@.take(source_frag@.len() as int) =~= source_frag@);
    }
    true
}

} // verus!
