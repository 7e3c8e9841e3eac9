use vstd::prelude::*;
use crate::lexing::tokens::{AssignOp, TokenKind};

verus! {

/// A token table as plain values: each entry's text and the token it stands for.
pub open spec fn table_view(t: Seq<(Vec<u8>, TokenKind)>) -> Seq<(Seq<u8>, TokenKind)> {
    t.map_values(|e: (Vec<u8>, TokenKind)| (e.0@, e.1))
}

/// The punctuation tokens, longer ones before their prefixes, in the order the lexer tries them.
pub open spec fn spec_punctuation() -> Seq<(Seq<u8>, TokenKind)> {
    seq![
        (seq![40u8], TokenKind::LeftParen), // (
        (seq![41u8], TokenKind::RightParen), // )
        (seq![91u8], TokenKind::LeftBracket), // [
        (seq![93u8], TokenKind::RightBracket), // ]
        (seq![123u8], TokenKind::LeftBrace), // {
        (seq![125u8], TokenKind::RightBrace), // }
        (seq![44u8], TokenKind::Comma), // ,
        (seq![59u8], TokenKind::Semicolon), // ;
        (seq![58u8, 58u8], TokenKind::ColonColon), // ::
        (seq![58u8], TokenKind::Colon), // :
        (seq![124u8], TokenKind::Pipe), // |
        (seq![45u8, 62u8], TokenKind::MinusArrow), // ->
        (seq![61u8, 62u8], TokenKind::EqualArrow), // =>
        (seq![94u8], TokenKind::Caret), // ^
        (seq![35u8], TokenKind::Hashtag), // #
        (seq![46u8, 46u8, 46u8], TokenKind::DotDotDot), // ...
        (seq![46u8, 46u8, 61u8], TokenKind::DotDotEqual), // ..=
        (seq![46u8, 46u8], TokenKind::DotDot), // ..
        (seq![46u8], TokenKind::Dot), // .
        (seq![38u8], TokenKind::Ampersand), // &
        (seq![43u8, 61u8], TokenKind::Assign { extra_op: Some(AssignOp::Plus) }), // +=
        (seq![43u8], TokenKind::Op(AssignOp::Plus)), // +
        (seq![45u8, 61u8], TokenKind::Assign { extra_op: Some(AssignOp::Minus) }), // -=
        (seq![45u8], TokenKind::Op(AssignOp::Minus)), // -
        (seq![42u8, 61u8], TokenKind::Assign { extra_op: Some(AssignOp::Star) }), // *=
        (seq![42u8], TokenKind::Op(AssignOp::Star)), // *
        (seq![47u8, 61u8], TokenKind::Assign { extra_op: Some(AssignOp::Slash) }), // /=
        (seq![47u8], TokenKind::Op(AssignOp::Slash)), // /
        (seq![37u8, 61u8], TokenKind::Assign { extra_op: Some(AssignOp::Percent) }), // %=
        (seq![37u8], TokenKind::Op(AssignOp::Percent)), // %
        (seq![63u8, 63u8, 61u8], TokenKind::Assign { extra_op: Some(AssignOp::QuestQuest) }), // ??=
        (seq![63u8, 63u8], TokenKind::Op(AssignOp::QuestQuest)), // ??
        (seq![63u8], TokenKind::Quest), // ?
        (seq![61u8, 61u8], TokenKind::EqualEqual), // ==
        (seq![61u8], TokenKind::Assign { extra_op: None }), // =
        (seq![33u8, 61u8], TokenKind::NotEqual), // !=
        (seq![33u8], TokenKind::Exclamation), // !
        (seq![60u8, 61u8], TokenKind::LessEqual), // <=
        (seq![60u8], TokenKind::Less), // <
        (seq![62u8, 61u8], TokenKind::GreaterEqual), // >=
        (seq![62u8], TokenKind::Greater), // >
    ]
}

/// `a` is a proper prefix of `b`: shorter, and `b` starts with it.
pub open spec fn is_proper_prefix(a: Seq<u8>, b: Seq<u8>) -> bool {
    a.len() < b.len() && b.subrange(0, a.len() as int) == a
}

/// `b` agrees with `a` from position `k` of `a` to its end.
spec fn agrees_from(a: Seq<u8>, b: Seq<u8>, k: nat) -> bool
    decreases a.len() - k,
{
    if k >= a.len() {
        true
    } else {
        k < b.len() && a[k as int] == b[k as int] && agrees_from(a, b, k + 1)
    }
}

/// No entry before `j` of `t` is a proper prefix of entry `i`.
spec fn no_shorter_before(t: Seq<(Seq<u8>, TokenKind)>, i: int, j: int) -> bool
    decreases j,
{
    if j <= 0 {
        true
    } else {
        !(t[j - 1].0.len() < t[i].0.len() && agrees_from(t[j - 1].0, t[i].0, 0))
            && no_shorter_before(t, i, j - 1)
    }
}

/// The first `n` entries of `t` each come before their proper prefixes.
spec fn longer_first_upto(t: Seq<(Seq<u8>, TokenKind)>, n: int) -> bool
    decreases n,
{
    if n <= 0 {
        true
    } else {
        no_shorter_before(t, n - 1, n - 1) && longer_first_upto(t, n - 1)
    }
}

proof fn lemma_agrees_from(a: Seq<u8>, b: Seq<u8>, k: nat)
    requires
        k <= a.len(),
        a.len() <= b.len(),
        forall|m: int| 0 <= m < k ==> a[m] == b[m],
    ensures
        agrees_from(a, b, k) == (b.subrange(0, a.len() as int) == a),
    decreases a.len() - k,
{
    if k >= a.len() {
        assert(b.subrange(0, a.len() as int) =~= a);
    } else if a[k as int] == b[k as int] {
        lemma_agrees_from(a, b, k + 1);
    } else {
        assert(b.subrange(0, a.len() as int)[k as int] != a[k as int]);
    }
}

proof fn lemma_no_shorter_before(t: Seq<(Seq<u8>, TokenKind)>, i: int, j: int)
    requires
        no_shorter_before(t, i, j),
        0 <= j <= t.len(),
        0 <= i < t.len(),
    ensures
        forall|k: int| 0 <= k < j ==> !is_proper_prefix(#[trigger] t[k].0, t[i].0),
    decreases j,
{
    if j > 0 {
        lemma_no_shorter_before(t, i, j - 1);
        let a = t[j - 1].0;
        if a.len() < t[i].0.len() {
            lemma_agrees_from(a, t[i].0, 0);
        }
    }
}

proof fn lemma_longer_first(t: Seq<(Seq<u8>, TokenKind)>, n: int)
    requires
        longer_first_upto(t, n),
        0 <= n <= t.len(),
    ensures
        forall|i: int, k: int| 0 <= k < i < n ==> !is_proper_prefix(#[trigger] t[k].0, #[trigger] t[i].0),
    decreases n,
{
    if n > 0 {
        lemma_longer_first(t, n - 1);
        lemma_no_shorter_before(t, n - 1, n - 1);
    }
}

/// The entries of the punctuation table, one by one.
proof fn lemma_punctuation_entries()
    ensures
        spec_punctuation().len() == 41,
        spec_punctuation()[0].0 == seq![40u8],
        spec_punctuation()[1].0 == seq![41u8],
        spec_punctuation()[2].0 == seq![91u8],
        spec_punctuation()[3].0 == seq![93u8],
        spec_punctuation()[4].0 == seq![123u8],
        spec_punctuation()[5].0 == seq![125u8],
        spec_punctuation()[6].0 == seq![44u8],
        spec_punctuation()[7].0 == seq![59u8],
        spec_punctuation()[8].0 == seq![58u8, 58u8],
        spec_punctuation()[9].0 == seq![58u8],
        spec_punctuation()[10].0 == seq![124u8],
        spec_punctuation()[11].0 == seq![45u8, 62u8],
        spec_punctuation()[12].0 == seq![61u8, 62u8],
        spec_punctuation()[13].0 == seq![94u8],
        spec_punctuation()[14].0 == seq![35u8],
        spec_punctuation()[15].0 == seq![46u8, 46u8, 46u8],
        spec_punctuation()[16].0 == seq![46u8, 46u8, 61u8],
        spec_punctuation()[17].0 == seq![46u8, 46u8],
        spec_punctuation()[18].0 == seq![46u8],
        spec_punctuation()[19].0 == seq![38u8],
        spec_punctuation()[20].0 == seq![43u8, 61u8],
        spec_punctuation()[21].0 == seq![43u8],
        spec_punctuation()[22].0 == seq![45u8, 61u8],
        spec_punctuation()[23].0 == seq![45u8],
        spec_punctuation()[24].0 == seq![42u8, 61u8],
        spec_punctuation()[25].0 == seq![42u8],
        spec_punctuation()[26].0 == seq![47u8, 61u8],
        spec_punctuation()[27].0 == seq![47u8],
        spec_punctuation()[28].0 == seq![37u8, 61u8],
        spec_punctuation()[29].0 == seq![37u8],
        spec_punctuation()[30].0 == seq![63u8, 63u8, 61u8],
        spec_punctuation()[31].0 == seq![63u8, 63u8],
        spec_punctuation()[32].0 == seq![63u8],
        spec_punctuation()[33].0 == seq![61u8, 61u8],
        spec_punctuation()[34].0 == seq![61u8],
        spec_punctuation()[35].0 == seq![33u8, 61u8],
        spec_punctuation()[36].0 == seq![33u8],
        spec_punctuation()[37].0 == seq![60u8, 61u8],
        spec_punctuation()[38].0 == seq![60u8],
        spec_punctuation()[39].0 == seq![62u8, 61u8],
        spec_punctuation()[40].0 == seq![62u8],
{
}

/// The punctuation table lists each token before the tokens whose text is a proper prefix of
/// its own (`->` before `-`), so that the first match is the longest one.
#[verifier::rlimit(100)]
pub proof fn law_punctuation_longer_first()
    ensures
        forall|i: int, k: int| 0 <= k < i < spec_punctuation().len() ==>
            !is_proper_prefix(#[trigger] spec_punctuation()[k].0, #[trigger] spec_punctuation()[i].0),
{
    let t = spec_punctuation();
    lemma_punctuation_entries();
    assert(longer_first_upto(t, 41)) by {
        reveal_with_fuel(longer_first_upto, 42);
        reveal_with_fuel(no_shorter_before, 42);
        reveal_with_fuel(agrees_from, 4);
    }
    lemma_longer_first(t, 41);
}

/// The punctuation tokens, longer ones before their prefixes, in the order the lexer tries them.
pub fn punctuation() -> (r: Vec<(Vec<u8>, TokenKind)>)
    ensures
        table_view(r@) == spec_punctuation(),
{
    let r = vec![
        (vec![40u8], TokenKind::LeftParen), // (
        (vec![41u8], TokenKind::RightParen), // )
        (vec![91u8], TokenKind::LeftBracket), // [
        (vec![93u8], TokenKind::RightBracket), // ]
        (vec![123u8], TokenKind::LeftBrace), // {
        (vec![125u8], TokenKind::RightBrace), // }
        (vec![44u8], TokenKind::Comma), // ,
        (vec![59u8], TokenKind::Semicolon), // ;
        (vec![58u8, 58u8], TokenKind::ColonColon), // ::
        (vec![58u8], TokenKind::Colon), // :
        (vec![124u8], TokenKind::Pipe), // |
        (vec![45u8, 62u8], TokenKind::MinusArrow), // ->
        (vec![61u8, 62u8], TokenKind::EqualArrow), // =>
        (vec![94u8], TokenKind::Caret), // ^
        (vec![35u8], TokenKind::Hashtag), // #
        (vec![46u8, 46u8, 46u8], TokenKind::DotDotDot), // ...
        (vec![46u8, 46u8, 61u8], TokenKind::DotDotEqual), // ..=
        (vec![46u8, 46u8], TokenKind::DotDot), // ..
        (vec![46u8], TokenKind::Dot), // .
        (vec![38u8], TokenKind::Ampersand), // &
        (vec![43u8, 61u8], TokenKind::Assign { extra_op: Some(AssignOp::Plus) }), // +=
        (vec![43u8], TokenKind::Op(AssignOp::Plus)), // +
        (vec![45u8, 61u8], TokenKind::Assign { extra_op: Some(AssignOp::Minus) }), // -=
        (vec![45u8], TokenKind::Op(AssignOp::Minus)), // -
        (vec![42u8, 61u8], TokenKind::Assign { extra_op: Some(AssignOp::Star) }), // *=
        (vec![42u8], TokenKind::Op(AssignOp::Star)), // *
        (vec![47u8, 61u8], TokenKind::Assign { extra_op: Some(AssignOp::Slash) }), // /=
        (vec![47u8], TokenKind::Op(AssignOp::Slash)), // /
        (vec![37u8, 61u8], TokenKind::Assign { extra_op: Some(AssignOp::Percent) }), // %=
        (vec![37u8], TokenKind::Op(AssignOp::Percent)), // %
        (vec![63u8, 63u8, 61u8], TokenKind::Assign { extra_op: Some(AssignOp::QuestQuest) }), // ??=
        (vec![63u8, 63u8], TokenKind::Op(AssignOp::QuestQuest)), // ??
        (vec![63u8], TokenKind::Quest), // ?
        (vec![61u8, 61u8], TokenKind::EqualEqual), // ==
        (vec![61u8], TokenKind::Assign { extra_op: None }), // =
        (vec![33u8, 61u8], TokenKind::NotEqual), // !=
        (vec![33u8], TokenKind::Exclamation), // !
        (vec![60u8, 61u8], TokenKind::LessEqual), // <=
        (vec![60u8], TokenKind::Less), // <
        (vec![62u8, 61u8], TokenKind::GreaterEqual), // >=
        (vec![62u8], TokenKind::Greater), // >
    ];
    assert forall|i: int| 0 <= i < r@.len() implies #[trigger] table_view(r@)[i] == spec_punctuation()[i] by {
        assert(r@[i].0@ =~= spec_punctuation()[i].0);
    }
    assert(table_view(r@) =~= spec_punctuation());
    r
}

/// The keywords (and boolean literals) with their token kinds.
pub open spec fn spec_keywords() -> Seq<(Seq<u8>, TokenKind)> {
    seq![
        (seq![97u8, 110u8, 100u8], TokenKind::And), // and
        (seq![111u8, 114u8], TokenKind::Or), // or
        (seq![105u8, 102u8], TokenKind::If), // if
        (seq![101u8, 108u8, 115u8, 101u8], TokenKind::Else), // else
        (seq![101u8, 110u8, 115u8, 117u8, 114u8, 101u8], TokenKind::Ensure), // ensure
        (seq![102u8, 111u8, 114u8], TokenKind::For), // for
        (seq![105u8, 110u8], TokenKind::In), // in
        (seq![119u8, 104u8, 105u8, 108u8, 101u8], TokenKind::While), // while
        (seq![108u8, 111u8, 111u8, 112u8], TokenKind::Loop), // loop
        (seq![98u8, 114u8, 101u8, 97u8, 107u8], TokenKind::Break), // break
        (seq![99u8, 111u8, 110u8, 116u8, 105u8, 110u8, 117u8, 101u8], TokenKind::Continue), // continue
        (seq![102u8, 110u8], TokenKind::Fn), // fn
        (seq![114u8, 101u8, 116u8, 117u8, 114u8, 110u8], TokenKind::Return), // return
        (seq![83u8, 101u8, 108u8, 102u8], TokenKind::ImplSelf), // Self
        (seq![109u8, 97u8, 116u8, 99u8, 104u8], TokenKind::Match), // match
        (seq![105u8, 115u8], TokenKind::Is), // is
        (seq![108u8, 101u8, 116u8], TokenKind::Let), // let
        (seq![99u8, 111u8, 110u8, 115u8, 116u8], TokenKind::Const), // const
        (seq![116u8, 121u8, 112u8, 101u8], TokenKind::Type), // type
        (seq![109u8, 117u8, 116u8], TokenKind::Mut), // mut
        (seq![114u8, 101u8, 102u8], TokenKind::Ref), // ref
        (seq![111u8, 119u8, 110u8], TokenKind::Own), // own
        (seq![101u8, 110u8, 117u8, 109u8], TokenKind::Enum), // enum
        (seq![105u8, 109u8, 112u8, 108u8], TokenKind::Impl), // impl
        (seq![116u8, 114u8, 117u8, 101u8], TokenKind::Bool(true)), // true
        (seq![102u8, 97u8, 108u8, 115u8, 101u8], TokenKind::Bool(false)), // false
    ]
}

/// The keywords (and boolean literals) with their token kinds.
pub fn keywords() -> (r: Vec<(Vec<u8>, TokenKind)>)
    ensures
        table_view(r@) == spec_keywords(),
{
    let r = vec![
        (vec![97u8, 110u8, 100u8], TokenKind::And), // and
        (vec![111u8, 114u8], TokenKind::Or), // or
        (vec![105u8, 102u8], TokenKind::If), // if
        (vec![101u8, 108u8, 115u8, 101u8], TokenKind::Else), // else
        (vec![101u8, 110u8, 115u8, 117u8, 114u8, 101u8], TokenKind::Ensure), // ensure
        (vec![102u8, 111u8, 114u8], TokenKind::For), // for
        (vec![105u8, 110u8], TokenKind::In), // in
        (vec![119u8, 104u8, 105u8, 108u8, 101u8], TokenKind::While), // while
        (vec![108u8, 111u8, 111u8, 112u8], TokenKind::Loop), // loop
        (vec![98u8, 114u8, 101u8, 97u8, 107u8], TokenKind::Break), // break
        (vec![99u8, 111u8, 110u8, 116u8, 105u8, 110u8, 117u8, 101u8], TokenKind::Continue), // continue
        (vec![102u8, 110u8], TokenKind::Fn), // fn
        (vec![114u8, 101u8, 116u8, 117u8, 114u8, 110u8], TokenKind::Return), // return
        (vec![83u8, 101u8, 108u8, 102u8], TokenKind::ImplSelf), // Self
        (vec![109u8, 97u8, 116u8, 99u8, 104u8], TokenKind::Match), // match
        (vec![105u8, 115u8], TokenKind::Is), // is
        (vec![108u8, 101u8, 116u8], TokenKind::Let), // let
        (vec![99u8, 111u8, 110u8, 115u8, 116u8], TokenKind::Const), // const
        (vec![116u8, 121u8, 112u8, 101u8], TokenKind::Type), // type
        (vec![109u8, 117u8, 116u8], TokenKind::Mut), // mut
        (vec![114u8, 101u8, 102u8], TokenKind::Ref), // ref
        (vec![111u8, 119u8, 110u8], TokenKind::Own), // own
        (vec![101u8, 110u8, 117u8, 109u8], TokenKind::Enum), // enum
        (vec![105u8, 109u8, 112u8, 108u8], TokenKind::Impl), // impl
        (vec![116u8, 114u8, 117u8, 101u8], TokenKind::Bool(true)), // true
        (vec![102u8, 97u8, 108u8, 115u8, 101u8], TokenKind::Bool(false)), // false
    ];
    assert(table_view(r@) =~= spec_keywords());
    r
}

/// The chars of an ASCII byte text.
pub open spec fn ascii_chars(bytes: Seq<u8>) -> Seq<char> {
    bytes.map_values(|b: u8| b as char)
}

/// The index of the first entry of the table for `kind`, if there is one.
pub open spec fn first_entry_for(table: Seq<(Seq<u8>, TokenKind)>, kind: TokenKind) -> Option<int>
    decreases table.len(),
{
    if table.len() == 0 {
        None
    } else if table[0].1 == kind {
        Some(0)
    } else {
        match first_entry_for(table.drop_first(), kind) {
            Some(i) => Some(i + 1),
            None => None,
        }
    }
}

/// A text of ASCII bytes as a string.
fn ascii_string(bytes: &Vec<u8>) -> (r: String)
    ensures
        r@ == ascii_chars(bytes@),
{
    let mut s = String::new();
    let mut i: usize = 0;
    while i < bytes.len()
        invariant
            0 <= i <= bytes@.len(),
            s@ == ascii_chars(bytes@.take(i as int)),
        decreases bytes@.len() - i,
    {
        proof { assert(ascii_chars(bytes@.take(i + 1)) =~= ascii_chars(bytes@.take(i as int)).push(bytes@[i as int] as char)); }
        crate::text::string_push(&mut s, bytes[i] as char);
        i = i + 1;
    }
    proof { assert(bytes@.take(bytes@.len() as int) =~= bytes@); }
    s
}

/// The first entry of the table for `kind`: its index, if there is one.
fn find_entry(table: &Vec<(Vec<u8>, TokenKind)>, kind: TokenKind) -> (r: Option<usize>)
    ensures
        r matches Some(i) ==> first_entry_for(table_view(table@), kind) == Some(i as int) && i < table@.len(),
        r is None ==> first_entry_for(table_view(table@), kind) is None,
{
    let mut i: usize = 0;
    proof { assert(table_view(table@).skip(0) =~= table_view(table@)); }
    while i < table.len()
        invariant
            0 <= i <= table@.len(),
            first_entry_for(table_view(table@), kind) == (match first_entry_for(table_view(table@).skip(i as int), kind) {
                Some(k) => Some(k + i),
                None => None,
            }),
        decreases table@.len() - i,
    {
        proof {
            assert(table_view(table@).skip(i as int).drop_first() =~= table_view(table@).skip(i + 1));
            assert(table_view(table@).skip(i as int)[0] == table_view(table@)[i as int]);
        }
        if table[i].1 == kind {
            return Some(i);
        }
        i = i + 1;
    }
    None
}

/// The tokens whose text varies, which are written as a placeholder.
pub open spec fn has_placeholder_text(kind: TokenKind) -> bool {
    kind == TokenKind::EndOfFile || kind == TokenKind::Identifier || kind == TokenKind::NumInt
        || kind == TokenKind::NumFloat || kind == TokenKind::StringStart || kind == TokenKind::StringFrag
        || kind == TokenKind::StringEnd
}

/// How a token is written (see `token_text`).
pub open spec fn spec_token_text(kind: TokenKind) -> Seq<char> {
    if kind == TokenKind::EndOfFile { "<eof>"@ }
    else if kind == TokenKind::Identifier { "<ident>"@ }
    else if kind == TokenKind::NumInt { "<int>"@ }
    else if kind == TokenKind::NumFloat { "<float>"@ }
    else if kind == TokenKind::StringStart { "<stringStart>"@ }
    else if kind == TokenKind::StringFrag { "<stringFrag>"@ }
    else if kind == TokenKind::StringEnd { "<stringEnd>"@ }
    else {
        match first_entry_for(spec_punctuation(), kind) {
            Some(i) => ascii_chars(spec_punctuation()[i].0),
            None => match first_entry_for(spec_keywords(), kind) {
                Some(i) => ascii_chars(spec_keywords()[i].0),
                None => Seq::empty(),
            },
        }
    }
}

/// How a token is written: its text in the punctuation or keyword table, or a placeholder for
/// the tokens whose text varies (`<ident>`, `<int>`, ...).
pub fn token_text(kind: TokenKind) -> (r: String)
    ensures
        r@ == spec_token_text(kind),
        kind == TokenKind::EndOfFile ==> r@ == "<eof>"@,
        kind == TokenKind::Identifier ==> r@ == "<ident>"@,
        kind == TokenKind::NumInt ==> r@ == "<int>"@,
        kind == TokenKind::NumFloat ==> r@ == "<float>"@,
        kind == TokenKind::StringStart ==> r@ == "<stringStart>"@,
        kind == TokenKind::StringFrag ==> r@ == "<stringFrag>"@,
        kind == TokenKind::StringEnd ==> r@ == "<stringEnd>"@,
        !has_placeholder_text(kind) ==> (first_entry_for(spec_punctuation(), kind) matches Some(i)
            ==> r@ == ascii_chars(spec_punctuation()[i].0)),
        !has_placeholder_text(kind) && first_entry_for(spec_punctuation(), kind) is None ==>
            (first_entry_for(spec_keywords(), kind) matches Some(i) ==> r@ == ascii_chars(spec_keywords()[i].0)),
{
    match kind {
        TokenKind::EndOfFile => return "<eof>".to_string(),
        TokenKind::Identifier => return "<ident>".to_string(),
        TokenKind::NumInt => return "<int>".to_string(),
        TokenKind::NumFloat => return "<float>".to_string(),
        TokenKind::StringStart => return "<stringStart>".to_string(),
        TokenKind::StringFrag => return "<stringFrag>".to_string(),
        TokenKind::StringEnd => return "<stringEnd>".to_string(),
        _ => {},
    }
    let punct = punctuation();
    match find_entry(&punct, kind) {
        Some(i) => ascii_string(&punct[i].0),
        None => {
            let words = keywords();
            match find_entry(&words, kind) {
                Some(i) => ascii_string(&words[i].0),
                // every other token has an entry
                None => String::new(),
            }
        },
    }
}

} // verus!
