use vstd::prelude::*;
use vstd::string::StringSliceAdditionalSpecFns;
use vstd::string::StringExecFns;

verus! {

/// Calls `String::push`: appends one char.
#[verifier::external_body]
pub(crate) fn string_push(s: &mut String, c: char)
    ensures
        final(s)@ == old(s)@.push(c),
{
    s.push(c);
}

/// Appends a text.
pub(crate) fn push_str(s: &mut String, t: &str)
    ensures
        final(s)@ == old(s)@ + t@,
{
    s.append(t);
}

/// The three pieces one after the other.
pub(crate) fn concat3(a: &str, b: &str, c: &str) -> (r: String)
    ensures
        r@ == a@ + b@ + c@,
{
    let mut r = String::from_str(a);
    r.append(b);
    r.append(c);
    r
}

/// The char of the decimal digit `d`.
pub open spec fn digit_char(d: nat) -> char {
    ('0' as int + d) as char
}

/// The decimal digits of `n`, most significant first.
pub open spec fn spec_decimal(n: nat) -> Seq<char>
    decreases n,
{
    if n < 10 {
        seq![digit_char(n)]
    } else {
        spec_decimal(n / 10).push(digit_char(n % 10))
    }
}

/// Appends the decimal digits of `n` to `s`.
pub fn push_decimal(s: &mut String, n: usize)
    ensures
        final(s)@ == old(s)@ + spec_decimal(n as nat),
    decreases n,
{
    if n >= 10 {
        push_decimal(s, n / 10);
    }
    let d: u8 = (n % 10) as u8;
    let c: char = (48u8 + d) as char;
    proof {
        assert(c == digit_char((n % 10) as nat));
    }
    string_push(s, c);
    proof {
        if n >= 10 {
            assert(old(s)@ + spec_decimal(n as nat) =~= old(s)@ + spec_decimal((n / 10) as nat) + seq![c]);
        } else {
            assert(old(s)@ + spec_decimal(n as nat) =~= old(s)@.push(c));
        }
    }
}

/// Appends the decimal digits of `n` to `s`.
pub fn push_decimal_u64(s: &mut String, n: u64)
    ensures
        final(s)@ == old(s)@ + spec_decimal(n as nat),
    decreases n,
{
    if n >= 10 {
        push_decimal_u64(s, n / 10);
    }
    let d: u8 = (n % 10) as u8;
    let c: char = (48u8 + d) as char;
    proof {
        assert(c == digit_char((n % 10) as nat));
    }
    string_push(s, c);
    proof {
        if n >= 10 {
            assert(old(s)@ + spec_decimal(n as nat) =~= old(s)@ + spec_decimal((n / 10) as nat) + seq![c]);
        } else {
            assert(old(s)@ + spec_decimal(n as nat) =~= old(s)@.push(c));
        }
    }
}

/// The decimal text of an integer, with a `-` before a negative one.
pub open spec fn spec_signed_decimal(n: int) -> Seq<char> {
    if n < 0 { seq!['-'] + spec_decimal((-n) as nat) } else { spec_decimal(n as nat) }
}

/// Appends the decimal text of `n` (as `{}` and `{:?}` write an `i64`) to `s`.
pub fn push_signed_decimal(s: &mut String, n: i64)
    ensures
        final(s)@ == old(s)@ + spec_signed_decimal(n as int),
{
    if n < 0 {
        string_push(s, '-');
        let magnitude: u64 = if n == i64::MIN { 9223372036854775808u64 } else { (-n) as u64 };
        let ghost mid = s@;
        push_decimal_u64(s, magnitude);
        proof {
            assert(s@ =~= old(s)@ + (seq!['-'] + spec_decimal((-n) as nat)));
        }
    } else {
        push_decimal_u64(s, n as u64);
    }
}

/// The decimal text of `n`, as `usize::to_string` writes it.
pub fn usize_to_string(n: usize) -> (r: String)
    ensures
        r@ == spec_decimal(n as nat),
{
    let mut s = String::new();
    push_decimal(&mut s, n);
    proof {
        assert(s@ =~= spec_decimal(n as nat));
    }
    s
}

/// `a` comes before `b` or equals it, comparing bytes from the start (a prefix comes first):
/// the order of `String`'s `cmp`.
pub open spec fn lex_le(a: Seq<u8>, b: Seq<u8>) -> bool
    decreases a.len(),
{
    if a.len() == 0 {
        true
    } else if b.len() == 0 {
        false
    } else if a[0] != b[0] {
        a[0] < b[0]
    } else {
        lex_le(a.drop_first(), b.drop_first())
    }
}

/// Of two byte strings, one comes before the other.
pub proof fn lemma_lex_le_total(a: Seq<u8>, b: Seq<u8>)
    ensures
        lex_le(a, b) || lex_le(b, a),
    decreases a.len(),
{
    if a.len() > 0 && b.len() > 0 && a[0] == b[0] {
        lemma_lex_le_total(a.drop_first(), b.drop_first());
    }
}

/// The order is transitive.
pub proof fn lemma_lex_le_trans(a: Seq<u8>, b: Seq<u8>, c: Seq<u8>)
    requires
        lex_le(a, b),
        lex_le(b, c),
    ensures
        lex_le(a, c),
    decreases a.len(),
{
    if a.len() > 0 && b.len() > 0 && c.len() > 0 && a[0] == b[0] && b[0] == c[0] {
        lemma_lex_le_trans(a.drop_first(), b.drop_first(), c.drop_first());
    }
}

/// Two byte strings that each come before the other are equal.
pub proof fn lemma_lex_le_antisym(a: Seq<u8>, b: Seq<u8>)
    requires
        lex_le(a, b),
        lex_le(b, a),
    ensures
        a == b,
    decreases a.len(),
{
    if a.len() == 0 {
        assert(b.len() == 0);
        assert(a =~= b);
    } else {
        assert(b.len() > 0 && a[0] == b[0]);
        lemma_lex_le_antisym(a.drop_first(), b.drop_first());
        assert(a =~= seq![a[0]] + a.drop_first());
        assert(b =~= seq![b[0]] + b.drop_first());
    }
}

/// Whether the two texts are equal.
pub fn str_eq(a: &str, b: &str) -> (r: bool)
    ensures
        r == (a@ == b@),
{
    let x = a.as_bytes();
    let y = b.as_bytes();
    if x.len() != y.len() {
        proof { if a@ == b@ { assert(a.spec_bytes() == b.spec_bytes()); } }
        return false;
    }
    let mut i: usize = 0;
    while i < x.len()
        invariant
            x@ == a.spec_bytes(),
            y@ == b.spec_bytes(),
            x@.len() == y@.len(),
            0 <= i <= x@.len(),
            forall|k: int| 0 <= k < i ==> x@[k] == y@[k],
        decreases x@.len() - i,
    {
        if x[i] != y[i] {
            proof { if a@ == b@ { assert(a.spec_bytes() == b.spec_bytes()); assert(x@[i as int] == y@[i as int]); } }
            return false;
        }
        i = i + 1;
    }
    proof {
        assert(x@ =~= y@);
        vstd::utf8::encode_utf8_decode_utf8(a@);
        vstd::utf8::encode_utf8_decode_utf8(b@);
    }
    true
}

/// Whether `a` comes before `b` or equals it, byte by byte.
pub fn str_lex_le(a: &str, b: &str) -> (r: bool)
    ensures
        r == lex_le(a.spec_bytes(), b.spec_bytes()),
{
    let x = a.as_bytes();
    let y = b.as_bytes();
    let mut i: usize = 0;
    proof {
        assert(x@.subrange(0, x@.len() as int) =~= x@);
        assert(y@.subrange(0, y@.len() as int) =~= y@);
    }
    while i < x.len() && i < y.len() && x[i] == y[i]
        invariant
            x@ == a.spec_bytes(),
            y@ == b.spec_bytes(),
            0 <= i <= x@.len(),
            i <= y@.len(),
            lex_le(x@, y@) == lex_le(x@.subrange(i as int, x@.len() as int), y@.subrange(i as int, y@.len() as int)),
        decreases x@.len() - i,
    {
        proof {
            let xs = x@.subrange(i as int, x@.len() as int);
            let ys = y@.subrange(i as int, y@.len() as int);
            assert(xs.drop_first() =~= x@.subrange(i + 1, x@.len() as int));
            assert(ys.drop_first() =~= y@.subrange(i + 1, y@.len() as int));
        }
        i = i + 1;
    }
    if i == x.len() {
        true
    } else if i == y.len() {
        false
    } else {
        x[i] < y[i]
    }
}

/// The text of the source between byte `start` and byte `end` (empty where those don't lie on
/// char boundaries inside the source, in that order).
pub fn source_slice<'b>(source: &'b str, start: usize, end: usize) -> (r: &'b str)
    ensures
        ({
            let b = source.spec_bytes();
            if start <= end && end <= b.len() && vstd::utf8::is_char_boundary(b, start as int)
                && vstd::utf8::is_char_boundary(b, end as int) {
                r.spec_bytes() == b.subrange(start as int, end as int)
            } else {
                r@.len() == 0
            }
        }),
{
    let n = source.as_bytes().len();
    let mut ok = false;
    if start <= end && end <= n {
        let start_ok = source.is_char_boundary(start);
        let end_ok = source.is_char_boundary(end);
        ok = start_ok && end_ok;
    }
    if ok {
        let (head, _) = source.split_at(end);
        proof {
            let b = source.spec_bytes();
            let hb = head.spec_bytes();
            let off = start as int;
            vstd::utf8::encode_utf8_valid_utf8(source@);
            vstd::utf8::encode_utf8_valid_utf8(head@);
            assert(hb =~= b.subrange(0, end as int));
            if off == end as int {
                vstd::utf8::is_char_boundary_start_end_of_seq(hb);
            } else {
                vstd::utf8::is_char_boundary_iff_not_is_continuation_byte(b, off);
                vstd::utf8::is_char_boundary_iff_not_is_continuation_byte(hb, off);
                assert(hb[off] == b[off]);
            }
        }
        let (_, piece) = head.split_at(start);
        proof {
            assert(piece.spec_bytes() =~= source.spec_bytes().subrange(start as int, end as int));
        }
        piece
    } else {
        let empty: &'b str = "";
        proof {
            reveal_strlit("");
            assert(empty@.len() == 0);
            let b = source.spec_bytes();
            assert(!(start <= end && end <= b.len() && vstd::utf8::is_char_boundary(b, start as int)
                && vstd::utf8::is_char_boundary(b, end as int)));
        }
        empty
    }
}

/// Whether `char::is_whitespace` holds of the char: the Unicode `White_Space` property, which
/// is the tab, line feed, vertical tab, form feed and carriage return, the space, U+0085, U+00A0,
/// U+1680, U+2000 to U+200A, U+2028, U+2029, U+202F, U+205F and U+3000.
pub open spec fn spec_is_whitespace(c: char) -> bool {
    let u = c as u32;
    ||| 0x09 <= u <= 0x0D
    ||| u == 0x20 || u == 0x85 || u == 0xA0 || u == 0x1680
    ||| 0x2000 <= u <= 0x200A
    ||| u == 0x2028 || u == 0x2029 || u == 0x202F || u == 0x205F || u == 0x3000
}

/// Whether the char is whitespace (as `char::is_whitespace` says).
pub fn is_whitespace(c: char) -> (r: bool)
    ensures
        r == spec_is_whitespace(c),
{
    let u = c as u32;
    (0x09 <= u && u <= 0x0D)
        || u == 0x20 || u == 0x85 || u == 0xA0 || u == 0x1680
        || (0x2000 <= u && u <= 0x200A)
        || u == 0x2028 || u == 0x2029 || u == 0x202F || u == 0x205F || u == 0x3000
}

/// The text without its trailing whitespace (as `str::trim_end` gives it).
pub fn trim_end(s: &str) -> (r: &str)
    ensures
        r@ == s@.take(r@.len() as int),
        r@.len() <= s@.len(),
        forall|i: int| r@.len() <= i < s@.len() ==> spec_is_whitespace(#[trigger] s@[i]),
        r@.len() == 0 || !spec_is_whitespace(r@.last()),
{
    let n = s.unicode_len();
    let mut k: usize = n;
    while k > 0 && is_whitespace(s.get_char(k - 1))
        invariant
            0 <= k <= n,
            n == s@.len(),
            forall|i: int| k <= i < s@.len() ==> spec_is_whitespace(#[trigger] s@[i]),
        decreases k,
    {
        k = k - 1;
    }
    let r = s.substring_char(0, k);
    proof {
        assert(r@ =~= s@.take(k as int));
    }
    r
}

} // verus!
