use vstd::prelude::*;
use vstd::string::StringSliceAdditionalSpecFns;
use crate::{ErrType, ProgramError, ProgramErrorData};
use crate::lexing::tokens::{Span, TokenKind, TokenSpan};
use crate::lexing::token_tables::{keywords, punctuation, spec_keywords, spec_punctuation, table_view};
use crate::lexing::chars::{char_at, is_alphabetic, is_alphanumeric};

verus! {

/// The span lies inside a source of `n` bytes.
pub open spec fn span_within(span: Span, n: nat) -> bool {
    span.byte_offset + span.length <= n
}

/// The tokens a lexer hands to the parser: every span lies inside the source, and a token that
/// is not a string fragment ends before the next token starts. (A string fragment shares its
/// start with the string end or template brace that follows it.)
pub open spec fn tokens_wf(n: nat, tokens: Seq<TokenSpan>) -> bool {
    &&& forall|i: int| 0 <= i < tokens.len() ==> span_within(#[trigger] tokens[i].span, n)
    &&& forall|i: int| 0 <= i < tokens.len() - 1 && (#[trigger] tokens[i]).token != TokenKind::StringFrag ==>
            tokens[i].span.byte_offset + tokens[i].span.length <= tokens[i + 1].span.byte_offset
    &&& forall|i: int| 0 <= i < tokens.len() && (#[trigger] tokens[i]).token == TokenKind::StringFrag ==>
            i + 1 < tokens.len() && (tokens[i + 1].token == TokenKind::StringEnd || tokens[i + 1].token == TokenKind::LeftBrace)
}

/// Where each line of the source starts: the first line at 0, the others right after a `\n`,
/// in increasing order.
pub open spec fn line_starts_wf(bytes: Seq<u8>, lines: Seq<usize>) -> bool {
    &&& lines.len() >= 1
    &&& lines[0] == 0
    &&& forall|i: int| 0 < i < lines.len() ==> 0 < #[trigger] lines[i] <= bytes.len() && bytes[lines[i] - 1] == 10u8
    &&& forall|i: int, j: int| 0 <= i < j < lines.len() ==> lines[i] < lines[j]
}

/// Byte `k` lies inside the span of one of the tokens.
pub open spec fn in_some_token(tokens: Seq<TokenSpan>, k: int) -> bool {
    exists|t: int| 0 <= t < tokens.len()
        && (#[trigger] tokens[t]).span.byte_offset <= k < tokens[t].span.byte_offset + tokens[t].span.length
}

/// Every line break of the source is counted in the line table, but for those inside a token
/// (which only a string literal can hold).
pub open spec fn line_breaks_counted(bytes: Seq<u8>, lines: Seq<usize>, tokens: Seq<TokenSpan>, end: int) -> bool {
    forall|k: int| 0 <= k < end && #[trigger] bytes[k] == 10u8 ==> lines.contains((k + 1) as usize) || in_some_token(tokens, k)
}

proof fn lemma_contains_grows(a: Seq<usize>, b: Seq<usize>, x: usize)
    requires
        b.len() >= a.len(),
        b.subrange(0, a.len() as int) == a,
        a.contains(x),
    ensures
        b.contains(x),
{
    let i = choose|i: int| 0 <= i < a.len() && a[i] == x;
    assert(b.subrange(0, a.len() as int)[i] == b[i]);
}

proof fn lemma_in_token_grows(a: Seq<TokenSpan>, b: Seq<TokenSpan>, k: int)
    requires
        b.len() >= a.len(),
        b.subrange(0, a.len() as int) == a,
        in_some_token(a, k),
    ensures
        in_some_token(b, k),
{
    let t = choose|t: int| 0 <= t < a.len()
        && (#[trigger] a[t]).span.byte_offset <= k < a[t].span.byte_offset + a[t].span.length;
    assert(b.subrange(0, a.len() as int)[t] == b[t]);
}

/// How many backslashes stand right before position `k`.
pub open spec fn backslash_run(bytes: Seq<u8>, k: int) -> nat
    decreases k,
{
    if k > 0 && k <= bytes.len() && bytes[k - 1] == 92u8 { 1 + backslash_run(bytes, k - 1) } else { 0 }
}

/// The byte at `k` is escaped: an odd number of backslashes stands right before it.
pub open spec fn escaped_at(bytes: Seq<u8>, k: int) -> bool {
    backslash_run(bytes, k) % 2 == 1
}

/// The span covers an integer literal: a digit, then digits and `_`.
pub open spec fn int_token_text(bytes: Seq<u8>, span: Span) -> bool {
    &&& span.length >= 1
    &&& 48u8 <= bytes[span.byte_offset as int] <= 57u8
    &&& forall|k: int| span.byte_offset <= k < span.byte_offset + span.length ==>
            (48u8 <= #[trigger] bytes[k] <= 57u8) || bytes[k] == 95u8
}

/// Every integer token is written with digits and `_`.
pub open spec fn numbers_wf(bytes: Seq<u8>, tokens: Seq<TokenSpan>) -> bool {
    forall|i: int| 0 <= i < tokens.len() && (#[trigger] tokens[i]).token == TokenKind::NumInt ==>
        int_token_text(bytes, tokens[i].span)
}

/// The text that `span` covers is no keyword.
pub open spec fn not_keyword_text(bytes: Seq<u8>, span: Span) -> bool {
    forall|i: int| 0 <= i < spec_keywords().len() ==>
        (#[trigger] spec_keywords()[i]).0 != bytes.subrange(span.byte_offset as int, span.byte_offset + span.length)
}

/// No identifier token is written like a keyword: keywords get their own tokens.
pub open spec fn identifiers_wf(bytes: Seq<u8>, tokens: Seq<TokenSpan>) -> bool {
    forall|i: int| 0 <= i < tokens.len() && (#[trigger] tokens[i]).token == TokenKind::Identifier ==>
        not_keyword_text(bytes, tokens[i].span)
}

/// `pat` occurs in `bytes` at `pos`.
pub open spec fn bytes_match_at(bytes: Seq<u8>, pos: int, pat: Seq<u8>) -> bool {
    &&& 0 <= pos
    &&& pos + pat.len() <= bytes.len()
    &&& bytes.subrange(pos, pos + pat.len()) == pat
}

/// Whether `pat` occurs in `bytes` at `pos`.
pub fn starts_with_at(bytes: &[u8], pos: usize, pat: &[u8]) -> (r: bool)
    requires
        bytes@.len() <= usize::MAX,
    ensures
        r == bytes_match_at(bytes@, pos as int, pat@),
{
    if pat.len() > bytes.len() || pos > bytes.len() - pat.len() {
        return false;
    }
    let mut i: usize = 0;
    while i < pat.len()
        invariant
            pos + pat@.len() <= bytes@.len(),
            bytes@.len() <= usize::MAX,
            0 <= i <= pat@.len(),
            forall|k: int| 0 <= k < i ==> bytes@[pos + k] == pat@[k],
        decreases pat@.len() - i,
    {
        if bytes[pos + i] != pat[i] {
            assert(bytes@.subrange(pos as int, pos + pat@.len())[i as int] != pat@[i as int]);
            return false;
        }
        i = i + 1;
    }
    assert(bytes@.subrange(pos as int, pos + pat@.len()) =~= pat@);
    true
}

/// The index of the first entry of `table` whose text occurs at `pos`, looking from entry `from` on.
pub open spec fn first_match_from(table: Seq<(Seq<u8>, TokenKind)>, bytes: Seq<u8>, pos: int, from: int) -> Option<int>
    decreases table.len() - from,
{
    if from < 0 || from >= table.len() {
        None
    } else if bytes_match_at(bytes, pos, table[from].0) {
        Some(from)
    } else {
        first_match_from(table, bytes, pos, from + 1)
    }
}

/// The first punctuation token whose text occurs at `pos`: its length and kind.
pub fn find_punctuation(bytes: &[u8], pos: usize) -> (r: Option<(usize, TokenKind)>)
    requires
        bytes@.len() <= usize::MAX,
    ensures
        r is None ==> first_match_from(spec_punctuation(), bytes@, pos as int, 0) is None,
        r matches Some((n, k)) ==> ({
            let i = first_match_from(spec_punctuation(), bytes@, pos as int, 0)->0;
            &&& first_match_from(spec_punctuation(), bytes@, pos as int, 0) is Some
            &&& n == spec_punctuation()[i].0.len()
            &&& k == spec_punctuation()[i].1
        }),
{
    let table = punctuation();
    let mut i: usize = 0;
    while i < table.len()
        invariant
            table_view(table@) == spec_punctuation(),
            0 <= i <= table@.len(),
            bytes@.len() <= usize::MAX,
            first_match_from(spec_punctuation(), bytes@, pos as int, 0)
                == first_match_from(spec_punctuation(), bytes@, pos as int, i as int),
        decreases table@.len() - i,
    {
        assert(table_view(table@)[i as int] == (table@[i as int].0@, table@[i as int].1));
        if starts_with_at(bytes, pos, table[i].0.as_slice()) {
            return Some((table[i].0.len(), table[i].1));
        }
        i = i + 1;
    }
    None
}

/// The keyword whose text is exactly `bytes[start..end]`, if there is one.
pub fn find_keyword(bytes: &[u8], start: usize, end: usize) -> (r: Option<TokenKind>)
    requires
        start <= end <= bytes@.len(),
        bytes@.len() <= usize::MAX,
    ensures
        r is None ==> forall|i: int| 0 <= i < spec_keywords().len() ==>
            (#[trigger] spec_keywords()[i]).0 != bytes@.subrange(start as int, end as int),
        r matches Some(k) ==> exists|i: int| 0 <= i < spec_keywords().len()
            && (#[trigger] spec_keywords()[i]).0 == bytes@.subrange(start as int, end as int)
            && spec_keywords()[i].1 == k,
{
    let table = keywords();
    let mut i: usize = 0;
    while i < table.len()
        invariant
            table_view(table@) == spec_keywords(),
            start <= end <= bytes@.len(),
            bytes@.len() <= usize::MAX,
            0 <= i <= table@.len(),
            forall|j: int| 0 <= j < i ==> (#[trigger] spec_keywords()[j]).0 != bytes@.subrange(start as int, end as int),
        decreases table@.len() - i,
    {
        assert(table_view(table@)[i as int] == (table@[i as int].0@, table@[i as int].1));
        if table[i].0.len() == end - start && starts_with_at(bytes, start, table[i].0.as_slice()) {
            assert(spec_keywords()[i as int].0 == bytes@.subrange(start as int, end as int));
            return Some(table[i].1);
        }
        i = i + 1;
    }
    None
}

/// The byte is part of a multi-byte char, after its first byte.
pub open spec fn is_utf8_continuation(b: u8) -> bool {
    0x80 <= b <= 0xbf
}

/// The position after the char that starts at `pos`: the next position that is the end or
/// does not hold a continuation byte.
pub fn next_char_start(bytes: &[u8], pos: usize) -> (r: usize)
    requires
        pos < bytes@.len(),
        bytes@.len() <= usize::MAX,
    ensures
        pos < r <= bytes@.len(),
        forall|k: int| pos < k < r ==> is_utf8_continuation(#[trigger] bytes@[k]),
        r < bytes@.len() ==> !is_utf8_continuation(bytes@[r as int]),
{
    let mut j = pos + 1;
    while j < bytes.len() && 0x80 <= bytes[j] && bytes[j] <= 0xbf
        invariant
            pos < j <= bytes@.len(),
            bytes@.len() <= usize::MAX,
            forall|k: int| pos < k < j ==> is_utf8_continuation(#[trigger] bytes@[k]),
        decreases bytes@.len() - j,
    {
        j = j + 1;
    }
    j
}

proof fn lemma_first_match_in(table: Seq<(Seq<u8>, TokenKind)>, bytes: Seq<u8>, pos: int, from: int)
    ensures
        first_match_from(table, bytes, pos, from) matches Some(i) ==>
            from <= i < table.len() && bytes_match_at(bytes, pos, table[i].0),
    decreases table.len() - from,
{
    if 0 <= from < table.len() && !bytes_match_at(bytes, pos, table[from].0) {
        lemma_first_match_in(table, bytes, pos, from + 1);
    }
}

proof fn lemma_first_match_is_first(table: Seq<(Seq<u8>, TokenKind)>, bytes: Seq<u8>, pos: int, from: int)
    requires
        0 <= from,
    ensures
        first_match_from(table, bytes, pos, from) matches Some(i) ==>
            forall|k: int| from <= k < i ==> !bytes_match_at(bytes, pos, #[trigger] table[k].0),
    decreases table.len() - from,
{
    if 0 <= from < table.len() && !bytes_match_at(bytes, pos, table[from].0) {
        lemma_first_match_is_first(table, bytes, pos, from + 1);
    }
}

/// Where punctuation starts, the lexer takes the longest punctuation token written there (`->`,
/// not `-`; `??=`, not `??` or `?`).
pub proof fn law_punctuation_longest_match(bytes: Seq<u8>, pos: int)
    ensures
        first_match_from(spec_punctuation(), bytes, pos, 0) matches Some(i) ==>
            forall|j: int| 0 <= j < spec_punctuation().len() && bytes_match_at(bytes, pos, #[trigger] spec_punctuation()[j].0)
                ==> spec_punctuation()[j].0.len() <= spec_punctuation()[i].0.len(),
{
    let t = spec_punctuation();
    lemma_first_match_in(t, bytes, pos, 0);
    lemma_first_match_is_first(t, bytes, pos, 0);
    crate::lexing::token_tables::law_punctuation_longer_first();
    if let Some(i) = first_match_from(t, bytes, pos, 0) {
        {
            assert forall|j: int| 0 <= j < t.len() && bytes_match_at(bytes, pos, #[trigger] t[j].0)
                implies t[j].0.len() <= t[i].0.len() by {
                if t[j].0.len() > t[i].0.len() {
                    let n = t[i].0.len() as int;
                    assert(t[j].0.subrange(0, n) =~= bytes.subrange(pos, pos + n));
                    assert(t[i].0 =~= bytes.subrange(pos, pos + n));
                    assert(crate::lexing::token_tables::is_proper_prefix(t[i].0, t[j].0));
                    if j < i {
                        assert(!bytes_match_at(bytes, pos, t[j].0));
                    }
                }
            }
        }
    }
}

proof fn lemma_punctuation_nonempty(i: int)
    requires
        0 <= i < spec_punctuation().len(),
    ensures
        spec_punctuation()[i].0.len() >= 1,
        spec_punctuation()[i].1 != TokenKind::EndOfFile,
        spec_punctuation()[i].1 != TokenKind::Identifier,
{
}

proof fn lemma_keyword_kinds(i: int)
    requires
        0 <= i < spec_keywords().len(),
    ensures
        spec_keywords()[i].1 != TokenKind::Identifier,
{
}

/// Splits source code into tokens.
pub struct Lexer<'a> {
    err_data: ProgramErrorData,
    source: &'a str,
    bytes: &'a [u8],
    tokens: Vec<TokenSpan>,
    line_start_lookup: Vec<usize>,
    byte_pos: usize,
    curr_line: usize,
    curr_token_start: usize,
    errors_at_start: Ghost<nat>,
}

impl<'a> Lexer<'a> {
    spec fn src_len(&self) -> nat {
        self.bytes@.len()
    }

    /// The last token, unless it is a string fragment, ends at or before the current token start.
    spec fn ready(&self) -> bool {
        self.tokens@.len() > 0 ==>
            self.tokens@.last().span.byte_offset + self.tokens@.last().span.length <= self.curr_token_start
    }

    #[verifier::opaque]
    spec fn inv(&self) -> bool {
        &&& self.bytes@ == self.source.spec_bytes()
        &&& self.bytes@.len() < usize::MAX
        &&& self.curr_token_start <= self.byte_pos <= self.bytes@.len()
        &&& self.curr_line <= self.byte_pos + 1
        &&& tokens_wf(self.src_len(), self.tokens@)
        &&& identifiers_wf(self.bytes@, self.tokens@)
        &&& numbers_wf(self.bytes@, self.tokens@)
        &&& forall|i: int| 0 <= i < self.tokens@.len() ==>
                (#[trigger] self.tokens@[i]).span.byte_offset + self.tokens@[i].span.length <= self.byte_pos
        &&& self.ready()
        &&& line_starts_wf(self.bytes@, self.line_start_lookup@)
        &&& forall|i: int| 0 <= i < self.line_start_lookup@.len() ==> #[trigger] self.line_start_lookup@[i] <= self.byte_pos
        &&& self.err_data.errors@.len() >= self.errors_at_start@
        &&& self.no_errors() ==> line_breaks_counted(self.bytes@, self.line_start_lookup@, self.tokens@, self.curr_token_start as int)
    }

    /// No error was found yet.
    spec fn no_errors(&self) -> bool {
        self.err_data.errors@.len() == self.errors_at_start@
    }

    /// Without errors, each line break since the token start is counted.
    spec fn pending_counted(&self) -> bool {
        self.no_errors() ==> forall|k: int| self.curr_token_start <= k < self.byte_pos && #[trigger] self.bytes@[k] == 10u8 ==>
            self.line_start_lookup@.contains((k + 1) as usize)
    }

    /// What a lexing step may change: it moves forward, and only appends tokens, line starts and errors.
    #[verifier::opaque]
    spec fn grows_from(&self, old: &Self) -> bool {
        &&& self.errors_at_start == old.errors_at_start
        &&& self.source == old.source
        &&& self.bytes == old.bytes
        &&& old.byte_pos <= self.byte_pos
        &&& self.tokens@.len() >= old.tokens@.len()
        &&& self.tokens@.subrange(0, old.tokens@.len() as int) == old.tokens@
        &&& self.line_start_lookup@.len() >= old.line_start_lookup@.len()
        &&& self.line_start_lookup@.subrange(0, old.line_start_lookup@.len() as int) == old.line_start_lookup@
        &&& self.err_data.errors@.len() >= old.err_data.errors@.len()
        &&& self.err_data.errors@.subrange(0, old.err_data.errors@.len() as int) == old.err_data.errors@
        &&& forall|i: int| old.err_data.errors@.len() <= i < self.err_data.errors@.len() ==>
                crate::is_lexer_error((#[trigger] self.err_data.errors@[i]).err_type)
        &&& self.err_data.warnings@ == old.err_data.warnings@
    }

    proof fn lemma_inv_facts(&self)
        requires
            self.inv(),
        ensures
            self.bytes@.len() < usize::MAX,
            self.curr_token_start <= self.byte_pos <= self.bytes@.len(),
            self.bytes@ == self.source.spec_bytes(),
    {
        reveal(Lexer::inv);
    }

    proof fn lemma_grows_refl(&self)
        ensures
            self.grows_from(self),
    {
        reveal(Lexer::grows_from);
        assert(self.tokens@.subrange(0, self.tokens@.len() as int) =~= self.tokens@);
        assert(self.line_start_lookup@.subrange(0, self.line_start_lookup@.len() as int) =~= self.line_start_lookup@);
        assert(self.err_data.errors@.subrange(0, self.err_data.errors@.len() as int) =~= self.err_data.errors@);
    }

    proof fn lemma_grows_trans(a: &Self, b: &Self, c: &Self)
        requires
            b.grows_from(a),
            c.grows_from(b),
        ensures
            c.grows_from(a),
    {
        reveal(Lexer::grows_from);
        assert(c.tokens@.subrange(0, a.tokens@.len() as int) =~= b.tokens@.subrange(0, a.tokens@.len() as int));
        assert(c.line_start_lookup@.subrange(0, a.line_start_lookup@.len() as int)
            =~= b.line_start_lookup@.subrange(0, a.line_start_lookup@.len() as int));
        assert(c.err_data.errors@.subrange(0, a.err_data.errors@.len() as int)
            =~= b.err_data.errors@.subrange(0, a.err_data.errors@.len() as int));
        assert forall|i: int| a.err_data.errors@.len() <= i < c.err_data.errors@.len() implies
            crate::is_lexer_error((#[trigger] c.err_data.errors@[i]).err_type) by {
            if i < b.err_data.errors@.len() {
                assert(c.err_data.errors@.subrange(0, b.err_data.errors@.len() as int)[i] == c.err_data.errors@[i]);
            }
        }
    }

    /// Splits `source` into tokens and records where each line starts. Errors are appended to `err_data`.
    pub fn start(err_data: &mut ProgramErrorData, source: &str) -> (r: (Vec<TokenSpan>, Vec<usize>))
        requires
            source.spec_bytes().len() < usize::MAX,
        ensures
            tokens_wf(source.spec_bytes().len(), r.0@),
            identifiers_wf(source.spec_bytes(), r.0@),
            numbers_wf(source.spec_bytes(), r.0@),
            line_starts_wf(source.spec_bytes(), r.1@),
            final(err_data).errors@.len() >= old(err_data).errors@.len(),
            final(err_data).errors@.subrange(0, old(err_data).errors@.len() as int) == old(err_data).errors@,
            forall|i: int| old(err_data).errors@.len() <= i < final(err_data).errors@.len() ==>
                crate::is_lexer_error((#[trigger] final(err_data).errors@[i]).err_type),
            final(err_data).warnings@ == old(err_data).warnings@,
            // without errors, every line break outside a string literal starts a line of the table
            final(err_data).errors@.len() == old(err_data).errors@.len() ==>
                line_breaks_counted(source.spec_bytes(), r.1@, r.0@, source.spec_bytes().len() as int),
    {
        let mut data = ProgramErrorData::new();
        std::mem::swap(&mut data, err_data);
        let mut lexer = Lexer {
            err_data: data,
            source,
            bytes: source.as_bytes(),
            tokens: Vec::new(),
            line_start_lookup: vec![0],
            byte_pos: 0,
            curr_line: 1,
            curr_token_start: 0,
            errors_at_start: Ghost(old(err_data).errors@.len()),
        };
        proof {
            reveal(Lexer::inv);
            assert(lexer.line_start_lookup@ =~= seq![0usize]);
        }
        let ghost first = lexer;
        lexer.tokenize(None);
        proof {
            reveal(Lexer::inv);
            reveal(Lexer::grows_from);
        }
        std::mem::swap(&mut lexer.err_data, err_data);
        (lexer.tokens, lexer.line_start_lookup)
    }

    fn error(&mut self, err_type: ErrType)
        requires
            old(self).inv(),
            crate::is_lexer_error(err_type),
        ensures
            final(self).byte_pos >= old(self).byte_pos,
            final(self).byte_pos <= final(self).bytes@.len(),
            final(self).bytes == old(self).bytes,
            final(self).source == old(self).source,
            final(self).inv(),
            final(self).grows_from(old(self)),
            final(self).byte_pos == old(self).byte_pos,
            final(self).curr_token_start == old(self).curr_token_start,
            !final(self).no_errors(),
    {
        proof { reveal(Lexer::inv); }
        let span = Span {
            line: self.curr_line,
            byte_offset: self.byte_pos,
            length: self.byte_pos - self.curr_token_start + 1,
        };
        self.err_data.errors.push(ProgramError { span, err_type });
        proof {
            reveal(Lexer::grows_from);
            assert(self.err_data.errors@.subrange(0, old(self).err_data.errors@.len() as int) =~= old(self).err_data.errors@);
            assert(self.tokens@.subrange(0, old(self).tokens@.len() as int) =~= old(self).tokens@);
            assert(self.line_start_lookup@.subrange(0, old(self).line_start_lookup@.len() as int) =~= old(self).line_start_lookup@);
        }
    }

    /// Appends a token spanning from the current token start to the current position; the next
    /// token starts at the current position.
    fn add_token(&mut self, token_type: TokenKind)
        requires
            old(self).inv(),
            token_type != TokenKind::StringFrag,
            token_type == TokenKind::Identifier ==> not_keyword_text(old(self).bytes@, Span {
                line: old(self).curr_line,
                byte_offset: old(self).curr_token_start,
                length: (old(self).byte_pos - old(self).curr_token_start) as usize,
            }),
            token_type == TokenKind::NumInt ==> int_token_text(old(self).bytes@, Span {
                line: old(self).curr_line,
                byte_offset: old(self).curr_token_start,
                length: (old(self).byte_pos - old(self).curr_token_start) as usize,
            }),
        ensures
            final(self).bytes == old(self).bytes,
            final(self).source == old(self).source,
            final(self).byte_pos >= old(self).byte_pos,
            final(self).byte_pos <= final(self).bytes@.len(),
            final(self).inv(),
            final(self).grows_from(old(self)),
            final(self).byte_pos == old(self).byte_pos,
            final(self).tokens@ == old(self).tokens@.push(TokenSpan {
                token: token_type,
                span: Span {
                    line: old(self).curr_line,
                    byte_offset: old(self).curr_token_start,
                    length: (old(self).byte_pos - old(self).curr_token_start) as usize,
                },
            }),
            final(self).curr_token_start == old(self).byte_pos,
            final(self).no_errors() == old(self).no_errors(),
    {
        proof { reveal(Lexer::inv); }
        let new_token = TokenSpan {
            token: token_type,
            span: Span {
                line: self.curr_line,
                byte_offset: self.curr_token_start,
                length: self.byte_pos - self.curr_token_start,
            },
        };
        self.tokens.push(new_token);
        self.curr_token_start = self.byte_pos;
        proof {
            reveal(Lexer::grows_from);
            let t = self.tokens@;
            let n = t.len() as int;
            assert(t.subrange(0, n - 1) =~= old(self).tokens@);
            if self.no_errors() {
                assert forall|k: int| 0 <= k < self.curr_token_start && #[trigger] self.bytes@[k] == 10u8 implies
                    self.line_start_lookup@.contains((k + 1) as usize) || in_some_token(t, k) by {
                    if k < old(self).curr_token_start {
                        if in_some_token(old(self).tokens@, k) {
                            lemma_in_token_grows(old(self).tokens@, t, k);
                        }
                    } else {
                        assert(t[n - 1].span.byte_offset <= k < t[n - 1].span.byte_offset + t[n - 1].span.length);
                    }
                }
            }
            assert forall|i: int| 0 <= i < n - 1 && (#[trigger] t[i]).token != TokenKind::StringFrag implies
                t[i].span.byte_offset + t[i].span.length <= t[i + 1].span.byte_offset by {
                if i < n - 2 {
                    assert(t[i] == old(self).tokens@[i]);
                    assert(t[i + 1] == old(self).tokens@[i + 1]);
                } else {
                    assert(t[i] == old(self).tokens@.last());
                }
            }
            assert forall|i: int| 0 <= i < n && (#[trigger] t[i]).token == TokenKind::StringFrag implies
                i + 1 < n && (t[i + 1].token == TokenKind::StringEnd || t[i + 1].token == TokenKind::LeftBrace) by {
                assert(t[i] == old(self).tokens@[i]);
                assert(t[i + 1] == old(self).tokens@[i + 1]);
            }
            assert(self.tokens@.subrange(0, old(self).tokens@.len() as int) =~= old(self).tokens@);
            assert(self.err_data.errors@.subrange(0, old(self).err_data.errors@.len() as int) =~= old(self).err_data.errors@);
            assert(self.line_start_lookup@.subrange(0, old(self).line_start_lookup@.len() as int) =~= old(self).line_start_lookup@);
        }
    }

    /// At the closing quote or the `{` of a template part inside a string: appends the text since
    /// the token start as a string fragment (unless it is empty), consumes the byte and appends
    /// `kind` for it (its span starts where the fragment starts).
    #[verifier::rlimit(50)]
    fn close_string_part(&mut self, kind: TokenKind)
        requires
            old(self).inv(),
            old(self).byte_pos < old(self).bytes@.len(),
            kind == TokenKind::StringEnd || kind == TokenKind::LeftBrace,
            // a byte that a backslash escapes neither ends a string nor opens a template part
            !escaped_at(old(self).bytes@, old(self).byte_pos as int),
        ensures
            final(self).bytes == old(self).bytes,
            final(self).source == old(self).source,
            final(self).byte_pos == old(self).byte_pos + 1,
            final(self).inv(),
            final(self).grows_from(old(self)),
            final(self).curr_token_start == final(self).byte_pos,
            final(self).no_errors() == old(self).no_errors(),
            final(self).tokens@.len() > 0 && final(self).tokens@.last().token == kind,
    {
        proof { reveal(Lexer::inv); }
        let has_frag = self.curr_token_start != self.byte_pos;
        if has_frag {
            let frag = TokenSpan {
                token: TokenKind::StringFrag,
                span: Span {
                    line: self.curr_line,
                    byte_offset: self.curr_token_start,
                    length: self.byte_pos - self.curr_token_start,
                },
            };
            self.tokens.push(frag);
        }
        self.byte_pos = self.byte_pos + 1;
        let closing = TokenSpan {
            token: kind,
            span: Span {
                line: self.curr_line,
                byte_offset: self.curr_token_start,
                length: self.byte_pos - self.curr_token_start,
            },
        };
        self.tokens.push(closing);
        self.curr_token_start = self.byte_pos;
        proof {
            reveal(Lexer::grows_from);
            let t = self.tokens@;
            let n = t.len() as int;
            let m = old(self).tokens@.len() as int;
            assert(t.subrange(0, m) =~= old(self).tokens@);
            if self.no_errors() {
                assert forall|k: int| 0 <= k < self.curr_token_start && #[trigger] self.bytes@[k] == 10u8 implies
                    self.line_start_lookup@.contains((k + 1) as usize) || in_some_token(t, k) by {
                    if k < old(self).curr_token_start {
                        if in_some_token(old(self).tokens@, k) {
                            lemma_in_token_grows(old(self).tokens@, t, k);
                        }
                    } else {
                        assert(t[n - 1].span.byte_offset <= k < t[n - 1].span.byte_offset + t[n - 1].span.length);
                    }
                }
            }
            assert forall|i: int| 0 <= i < n - 1 && (#[trigger] t[i]).token != TokenKind::StringFrag implies
                t[i].span.byte_offset + t[i].span.length <= t[i + 1].span.byte_offset by {
                if i < m - 1 {
                    assert(t[i] == old(self).tokens@[i]);
                    assert(t[i + 1] == old(self).tokens@[i + 1]);
                } else if i == m - 1 {
                    assert(t[i] == old(self).tokens@.last());
                }
            }
            assert forall|i: int| 0 <= i < n && (#[trigger] t[i]).token == TokenKind::StringFrag implies
                i + 1 < n && (t[i + 1].token == TokenKind::StringEnd || t[i + 1].token == TokenKind::LeftBrace) by {
                if i < m {
                    assert(t[i] == old(self).tokens@[i]);
                    assert(t[i + 1] == old(self).tokens@[i + 1]);
                }
            }
            assert(self.tokens@.subrange(0, m) =~= old(self).tokens@);
            assert(self.err_data.errors@.subrange(0, old(self).err_data.errors@.len() as int) =~= old(self).err_data.errors@);
            assert(self.line_start_lookup@.subrange(0, old(self).line_start_lookup@.len() as int) =~= old(self).line_start_lookup@);
        }
    }

    /// Moves the position forward to `new_pos`.
    fn advance_to(&mut self, new_pos: usize)
        requires
            old(self).inv(),
            old(self).byte_pos <= new_pos <= old(self).bytes@.len(),
        ensures
            final(self).bytes == old(self).bytes,
            final(self).source == old(self).source,
            final(self).inv(),
            final(self).grows_from(old(self)),
            final(self).byte_pos == new_pos,
            final(self).curr_token_start == old(self).curr_token_start,
            final(self).tokens@ == old(self).tokens@,
            final(self).no_errors() == old(self).no_errors(),
            // skipping bytes that are no line breaks keeps every line break since the token start counted
            old(self).pending_counted() && (forall|k: int| old(self).byte_pos <= k < new_pos ==> #[trigger] old(self).bytes@[k] != 10u8)
                ==> final(self).pending_counted(),
    {
        proof { reveal(Lexer::inv); }
        self.byte_pos = new_pos;
        proof {
            old(self).lemma_grows_refl();
            reveal(Lexer::grows_from);
        }
    }

    /// The next token starts at the current position.
    fn reset_token_start(&mut self)
        requires
            old(self).inv(),
            old(self).pending_counted(),
        ensures
            final(self).bytes == old(self).bytes,
            final(self).source == old(self).source,
            final(self).inv(),
            final(self).grows_from(old(self)),
            final(self).byte_pos == old(self).byte_pos,
            final(self).curr_token_start == old(self).byte_pos,
            final(self).tokens@ == old(self).tokens@,
            final(self).no_errors() == old(self).no_errors(),
    {
        proof { reveal(Lexer::inv); }
        self.curr_token_start = self.byte_pos;
        proof {
            old(self).lemma_grows_refl();
            reveal(Lexer::grows_from);
        }
    }

    /// Counts the line break at the current position and moves `n` bytes forward.
    fn newline_then_advance(&mut self, n: usize)
        requires
            old(self).inv(),
            old(self).byte_pos < old(self).bytes@.len(),
            old(self).bytes@[old(self).byte_pos as int] == 10u8,
            1 <= n,
            old(self).byte_pos + n <= old(self).bytes@.len(),
        ensures
            final(self).bytes == old(self).bytes,
            final(self).source == old(self).source,
            final(self).inv(),
            final(self).grows_from(old(self)),
            final(self).byte_pos == old(self).byte_pos + n,
            final(self).curr_token_start == old(self).curr_token_start,
            final(self).tokens@ == old(self).tokens@,
            final(self).no_errors() == old(self).no_errors(),
            n == 1 && old(self).pending_counted() ==> final(self).pending_counted(),
    {
        proof { reveal(Lexer::inv); }
        self.curr_line = self.curr_line + 1;
        self.line_start_lookup.push(self.byte_pos + 1);
        self.byte_pos = self.byte_pos + n;
        proof {
            reveal(Lexer::grows_from);
            let l = self.line_start_lookup@;
            assert forall|i: int, j: int| 0 <= i < j < l.len() implies l[i] < l[j] by {
                if j == l.len() - 1 {
                    assert(l[i] == old(self).line_start_lookup@[i]);
                }
            }
            assert(self.tokens@.subrange(0, old(self).tokens@.len() as int) =~= old(self).tokens@);
            assert(self.err_data.errors@.subrange(0, old(self).err_data.errors@.len() as int) =~= old(self).err_data.errors@);
            assert(self.line_start_lookup@.subrange(0, old(self).line_start_lookup@.len() as int) =~= old(self).line_start_lookup@);
            assert(l[l.len() - 1] == old(self).byte_pos + 1);
            if self.no_errors() {
                assert forall|k: int| 0 <= k < self.curr_token_start && #[trigger] self.bytes@[k] == 10u8 implies
                    l.contains((k + 1) as usize) || in_some_token(self.tokens@, k) by {
                    if old(self).line_start_lookup@.contains((k + 1) as usize) {
                        lemma_contains_grows(old(self).line_start_lookup@, l, (k + 1) as usize);
                    }
                }
                if n == 1 && old(self).pending_counted() {
                    assert forall|k: int| self.curr_token_start <= k < self.byte_pos && #[trigger] self.bytes@[k] == 10u8 implies
                        l.contains((k + 1) as usize) by {
                        if k < old(self).byte_pos {
                            lemma_contains_grows(old(self).line_start_lookup@, l, (k + 1) as usize);
                        } else {
                            assert(l[l.len() - 1] == (k + 1) as usize);
                        }
                    }
                }
            }
        }
    }

    fn pos_in_bounds(&self) -> (r: bool)
        requires
            self.inv(),
        ensures
            r == (self.byte_pos < self.bytes@.len()),
            self.bytes@.len() < usize::MAX,
            self.byte_pos <= self.bytes@.len(),
            self.curr_token_start <= self.byte_pos,
            self.bytes@ == self.source.spec_bytes(),
    {
        proof { reveal(Lexer::inv); }
        self.byte_pos < self.bytes.len()
    }

    /// Skips a comment up to and including `end_str` (or to the end of the source).
    fn skip_comment(&mut self, end_str: &[u8])
        requires
            old(self).inv(),
            (end_str@.len() == 1 && end_str@[0] == 10u8) || (end_str@.len() == 2 && end_str@[0] == 42u8 && end_str@[1] == 47u8),
            old(self).pending_counted(),
        ensures
            final(self).no_errors() == old(self).no_errors(),
            final(self).byte_pos >= old(self).byte_pos,
            final(self).byte_pos <= final(self).bytes@.len(),
            final(self).bytes == old(self).bytes,
            final(self).source == old(self).source,
            final(self).inv(),
            final(self).grows_from(old(self)),
            final(self).tokens@ == old(self).tokens@,
            final(self).curr_token_start == final(self).byte_pos,
            old(self).byte_pos < old(self).bytes@.len() ==> final(self).byte_pos > old(self).byte_pos,
    {
        proof { old(self).lemma_grows_refl(); old(self).lemma_inv_facts(); }
        while self.pos_in_bounds()
            invariant
                self.inv(),
                self.grows_from(old(self)),
                self.bytes == old(self).bytes,
                self.source == old(self).source,
                self.byte_pos >= old(self).byte_pos,
                self.byte_pos <= self.bytes@.len(),
                self.tokens@ == old(self).tokens@,
                old(self).byte_pos <= self.byte_pos,
                (end_str@.len() == 1 && end_str@[0] == 10u8) || (end_str@.len() == 2 && end_str@[0] == 42u8 && end_str@[1] == 47u8),
                self.pending_counted(),
                self.no_errors() == old(self).no_errors(),
            ensures
                self.pending_counted(),
                self.no_errors() == old(self).no_errors(),
                self.inv(),
                self.grows_from(old(self)),
                self.bytes == old(self).bytes,
                self.source == old(self).source,
                self.byte_pos >= old(self).byte_pos,
                self.byte_pos <= self.bytes@.len(),
                self.tokens@ == old(self).tokens@,
                old(self).byte_pos < self.bytes@.len() ==> self.byte_pos > old(self).byte_pos,
            decreases self.bytes@.len() - self.byte_pos,
        {
            let ghost prev = *self;
            let at_newline = self.bytes[self.byte_pos] == 10u8;
            let ends = starts_with_at(self.bytes, self.byte_pos, end_str);
            if at_newline {
                if ends {
                    self.newline_then_advance(end_str.len());
                    proof { Self::lemma_grows_trans(old(self), &prev, self); }
                    break;
                }
                self.newline_then_advance(1);
            } else {
                if ends {
                    self.advance_to(self.byte_pos + end_str.len());
                    proof { Self::lemma_grows_trans(old(self), &prev, self); }
                    break;
                }
                self.advance_to(self.byte_pos + 1);
            }
            proof { Self::lemma_grows_trans(old(self), &prev, self); }
        }
        let ghost prev = *self;
        self.reset_token_start();
        proof {
            Self::lemma_grows_trans(old(self), &prev, self);
            self.lemma_inv_facts();
        }
    }

    /// Skips spaces, tabs, carriage returns, line breaks and comments.
    fn skip_whitespaces(&mut self)
        requires
            old(self).inv(),
            old(self).pending_counted(),
        ensures
            final(self).pending_counted(),
            final(self).no_errors() == old(self).no_errors(),
            final(self).byte_pos >= old(self).byte_pos,
            final(self).byte_pos <= final(self).bytes@.len(),
            final(self).bytes == old(self).bytes,
            final(self).source == old(self).source,
            final(self).inv(),
            final(self).grows_from(old(self)),
            final(self).tokens@ == old(self).tokens@,
    {
        proof { old(self).lemma_grows_refl(); old(self).lemma_inv_facts(); }
        loop
            invariant
                self.inv(),
                self.grows_from(old(self)),
                self.bytes == old(self).bytes,
                self.source == old(self).source,
                self.byte_pos >= old(self).byte_pos,
                self.byte_pos <= self.bytes@.len(),
                self.tokens@ == old(self).tokens@,
                self.pending_counted(),
                self.no_errors() == old(self).no_errors(),
            decreases self.bytes@.len() - self.byte_pos,
        {
            if !self.pos_in_bounds() {
                break;
            }
            let ghost prev = *self;
            let b = self.bytes[self.byte_pos];
            if b == 32u8 || b == 13u8 || b == 9u8 {
                self.advance_to(self.byte_pos + 1);
            } else if b == 10u8 {
                self.newline_then_advance(1);
            } else if starts_with_at(self.bytes, self.byte_pos, &[47u8, 47u8]) {
                self.skip_comment(&[10u8]);
            } else if starts_with_at(self.bytes, self.byte_pos, &[47u8, 42u8]) {
                self.skip_comment(&[42u8, 47u8]);
            } else {
                break;
            }
            proof { Self::lemma_grows_trans(old(self), &prev, self); }
        }
    }

    /// Consumes the chars of an identifier (alphanumeric or `_`).
    fn eat_identifier(&mut self)
        requires
            old(self).inv(),
        ensures
            final(self).byte_pos >= old(self).byte_pos,
            final(self).byte_pos <= final(self).bytes@.len(),
            final(self).bytes == old(self).bytes,
            final(self).source == old(self).source,
            final(self).inv(),
            final(self).grows_from(old(self)),
            final(self).tokens@ == old(self).tokens@,
            final(self).curr_token_start == old(self).curr_token_start,
    {
        proof { old(self).lemma_grows_refl(); old(self).lemma_inv_facts(); }
        loop
            invariant
                self.inv(),
                self.grows_from(old(self)),
                self.bytes == old(self).bytes,
                self.source == old(self).source,
                self.byte_pos >= old(self).byte_pos,
                self.byte_pos <= self.bytes@.len(),
                self.tokens@ == old(self).tokens@,
                self.curr_token_start == old(self).curr_token_start,
            decreases self.bytes@.len() - self.byte_pos,
        {
            if !self.pos_in_bounds() {
                break;
            }
            let ghost prev = *self;
            match char_at(self.source, self.byte_pos) {
                Some(c) => {
                    if is_alphanumeric(c) || c == '_' {
                        let next = next_char_start(self.bytes, self.byte_pos);
                        self.advance_to(next);
                    } else {
                        break;
                    }
                }
                None => break,
            }
            proof { Self::lemma_grows_trans(old(self), &prev, self); }
        }
    }

    /// Consumes a number literal: digits and `_`, with at most one `.` that is followed by a digit.
    fn eat_number(&mut self)
        requires
            old(self).inv(),
            old(self).curr_token_start + 1 == old(self).byte_pos,
            48u8 <= old(self).bytes@[old(self).curr_token_start as int] <= 57u8,
        ensures
            final(self).curr_token_start == final(self).byte_pos,
            final(self).byte_pos >= old(self).byte_pos,
            final(self).byte_pos <= final(self).bytes@.len(),
            final(self).bytes == old(self).bytes,
            final(self).source == old(self).source,
            final(self).inv(),
            final(self).grows_from(old(self)),
    {
        proof { old(self).lemma_grows_refl(); old(self).lemma_inv_facts(); }
        let mut has_dot = false;
        while self.pos_in_bounds()
            invariant
                self.inv(),
                self.grows_from(old(self)),
                self.bytes == old(self).bytes,
                self.source == old(self).source,
                self.byte_pos >= old(self).byte_pos,
                self.byte_pos <= self.bytes@.len(),
                self.curr_token_start == old(self).curr_token_start,
                self.tokens@ == old(self).tokens@,
                !has_dot ==> forall|k: int| self.curr_token_start <= k < self.byte_pos ==>
                    (48u8 <= #[trigger] self.bytes@[k] <= 57u8) || self.bytes@[k] == 95u8,
            decreases self.bytes@.len() - self.byte_pos,
        {
            let ghost prev = *self;
            let b = self.bytes[self.byte_pos];
            if b == 95u8 || (48u8 <= b && b <= 57u8) {
                self.advance_to(self.byte_pos + 1);
            } else if b == 46u8 && !has_dot && self.byte_pos + 1 < self.bytes.len()
                && 48u8 <= self.bytes[self.byte_pos + 1] && self.bytes[self.byte_pos + 1] <= 57u8 {
                has_dot = true;
                self.advance_to(self.byte_pos + 2);
            } else {
                break;
            }
            proof { Self::lemma_grows_trans(old(self), &prev, self); }
        }
        let ghost prev = *self;
        self.add_token(if has_dot { TokenKind::NumFloat } else { TokenKind::NumInt });
        proof { Self::lemma_grows_trans(old(self), &prev, self); }
    }

    /// Consumes a string literal that starts with the quote at the current position; a `{` in
    /// it starts a template part that is lexed like code up to the matching `}`.
    fn eat_string(&mut self, quote: u8)
        requires
            old(self).inv(),
            old(self).byte_pos < old(self).bytes@.len(),
            quote == 34u8 || quote == 39u8,
            old(self).bytes@[old(self).byte_pos as int] == quote,
        ensures
            final(self).bytes == old(self).bytes,
            final(self).source == old(self).source,
            final(self).inv(),
            final(self).grows_from(old(self)),
            final(self).byte_pos > old(self).byte_pos,
            final(self).byte_pos <= final(self).bytes@.len(),
            final(self).no_errors() ==> final(self).curr_token_start == final(self).byte_pos,
            // without errors the string ends at a quote like the opening one that no backslash escapes
            final(self).no_errors() ==> ({
                let q = final(self).byte_pos - 1;
                &&& old(self).byte_pos < q
                &&& final(self).bytes@[q] == quote
                &&& !escaped_at(final(self).bytes@, q)
                &&& final(self).tokens@.last().token == TokenKind::StringEnd
            }),
        decreases old(self).bytes@.len() - old(self).byte_pos, 0nat,
    {
        proof { old(self).lemma_inv_facts(); }
        self.advance_to(self.byte_pos + 1);
        let ghost prev1 = *self;
        self.add_token(TokenKind::StringStart);
        proof { Self::lemma_grows_trans(old(self), &prev1, self); }
        let mut is_backslashed = false;
        proof { self.lemma_inv_facts(); }

        while self.pos_in_bounds()
            invariant
                self.inv(),
                self.grows_from(old(self)),
                self.bytes == old(self).bytes,
                self.source == old(self).source,
                self.byte_pos >= old(self).byte_pos,
                self.byte_pos <= self.bytes@.len(),
                self.byte_pos > old(self).byte_pos,
                // a backslash that is not itself escaped escapes the byte after it
                is_backslashed == escaped_at(self.bytes@, self.byte_pos as int),
            decreases self.bytes@.len() - self.byte_pos,
        {
            let ghost prev = *self;
            let b = self.bytes[self.byte_pos];
            proof {
                assert(backslash_run(self.bytes@, self.byte_pos + 1)
                    == if b == 92u8 { 1 + backslash_run(self.bytes@, self.byte_pos as int) } else { 0 });
            }
            if is_backslashed {
                is_backslashed = false;
                self.advance_to(self.byte_pos + 1);
            } else if b == quote {
                self.close_string_part(TokenKind::StringEnd);
                proof { Self::lemma_grows_trans(old(self), &prev, self); }
                return;
            } else if b == 123u8 {
                // start of a template part
                self.close_string_part(TokenKind::LeftBrace);
                let ghost mid3 = *self;
                self.tokenize(Some(0));
                proof { Self::lemma_grows_trans(&prev, &mid3, self); }
                let ghost mid4 = *self;
                if self.pos_in_bounds() && self.bytes[self.byte_pos] == 125u8 {
                    self.advance_to(self.byte_pos + 1);
                    let ghost mid5 = *self;
                    self.add_token(TokenKind::RightBrace);
                    proof {
                        Self::lemma_grows_trans(&prev, &mid4, &mid5);
                        Self::lemma_grows_trans(&prev, &mid5, self);
                    }
                } else {
                    self.error(ErrType::LexerMissingClosingStringBrace);
                    proof {
                        Self::lemma_grows_trans(&prev, &mid4, self);
                        Self::lemma_grows_trans(old(self), &prev, self);
                    }
                    return;
                }
            } else if b == 92u8 {
                is_backslashed = true;
                self.advance_to(self.byte_pos + 1);
            } else {
                self.advance_to(self.byte_pos + 1);
            }
            proof { Self::lemma_grows_trans(old(self), &prev, self); }
        }
        let ghost prev = *self;
        self.error(ErrType::LexerUnterminatedString);
        proof { Self::lemma_grows_trans(old(self), &prev, self); }
    }

    /// Lexes tokens until the end of the source or, inside a template part (`brace_level` is
    /// `Some`), until the `}` that closes it, which is left unconsumed.
    #[verifier::rlimit(50)]
    fn tokenize(&mut self, brace_level: Option<usize>)
        requires
            old(self).inv(),
            brace_level matches Some(l) ==> l == 0,
            old(self).no_errors() ==> old(self).curr_token_start == old(self).byte_pos,
        ensures
            final(self).no_errors() ==> final(self).curr_token_start == final(self).byte_pos,
            brace_level is None ==> final(self).byte_pos == final(self).bytes@.len(),
            final(self).byte_pos >= old(self).byte_pos,
            final(self).byte_pos <= final(self).bytes@.len(),
            final(self).bytes == old(self).bytes,
            final(self).source == old(self).source,
            final(self).inv(),
            final(self).grows_from(old(self)),
        decreases old(self).bytes@.len() - old(self).byte_pos, 1nat,
    {
        proof { old(self).lemma_grows_refl(); old(self).lemma_inv_facts(); }
        let mut level = brace_level;
        loop
            invariant
                self.inv(),
                self.grows_from(old(self)),
                self.bytes == old(self).bytes,
                self.source == old(self).source,
                self.byte_pos >= old(self).byte_pos,
                self.byte_pos <= self.bytes@.len(),
                level matches Some(l) ==> l <= self.byte_pos,
                brace_level is None ==> level is None,
                self.no_errors() ==> self.curr_token_start == self.byte_pos,
            decreases self.bytes@.len() - self.byte_pos,
        {
            let ghost prev = *self;
            self.skip_whitespaces();
            let ghost mid = *self;
            self.reset_token_start();
            proof {
                Self::lemma_grows_trans(&prev, &mid, self);
                Self::lemma_grows_trans(old(self), &prev, self);
                reveal(Lexer::grows_from);
            }
            let ghost prev = *self;

            if !self.pos_in_bounds() {
                // end of file
                return;
            }

            // comments
            if starts_with_at(self.bytes, self.byte_pos, &[47u8, 47u8]) {
                self.skip_comment(&[10u8]);
                proof { Self::lemma_grows_trans(old(self), &prev, self); }
                continue;
            }
            if starts_with_at(self.bytes, self.byte_pos, &[47u8, 42u8]) {
                self.skip_comment(&[42u8, 47u8]);
                proof { Self::lemma_grows_trans(old(self), &prev, self); }
                continue;
            }

            // punctuation
            match find_punctuation(self.bytes, self.byte_pos) {
                Some((len, kind)) => {
                    proof {
                        let i = first_match_from(spec_punctuation(), self.bytes@, self.byte_pos as int, 0)->0;
                        lemma_first_match_in(spec_punctuation(), self.bytes@, self.byte_pos as int, 0);
                        lemma_punctuation_nonempty(i);
                    }
                    match level {
                        Some(bl) => {
                            if kind == TokenKind::LeftBrace {
                                level = Some(bl + 1);
                            }
                            if kind == TokenKind::RightBrace {
                                if bl == 0 {
                                    return;
                                }
                                level = Some(bl - 1);
                            }
                        }
                        None => {}
                    }
                    self.advance_to(self.byte_pos + len);
                    let ghost mid = *self;
                    self.add_token(kind);
                    proof {
                        Self::lemma_grows_trans(&prev, &mid, self);
                        Self::lemma_grows_trans(old(self), &prev, self);
                    }
                    continue;
                }
                None => {}
            }

            match char_at(self.source, self.byte_pos) {
                Some(c) => {
                    if is_alphabetic(c) || c == '_' {
                        // identifiers / keywords
                        let next = next_char_start(self.bytes, self.byte_pos);
                        self.advance_to(next);
                        let ghost m1 = *self;
                        self.eat_identifier();
                        let ghost m2 = *self;
                        proof { Self::lemma_grows_trans(&prev, &m1, &m2); }
                        match find_keyword(self.bytes, self.curr_token_start, self.byte_pos) {
                            Some(kind) => {
                                proof {
                                    let i = choose|i: int| 0 <= i < spec_keywords().len()
                                        && (#[trigger] spec_keywords()[i]).0 == self.bytes@.subrange(self.curr_token_start as int, self.byte_pos as int)
                                        && spec_keywords()[i].1 == kind;
                                    lemma_keyword_kinds(i);
                                }
                                self.add_token(kind)
                            },
                            None => {
                                proof { reveal(Lexer::inv); }
                                self.add_token(TokenKind::Identifier)
                            },
                        }
                        proof { Self::lemma_grows_trans(&prev, &m2, self); }
                    } else if self.bytes[self.byte_pos] == 34u8 {
                        // `"`
                        self.eat_string(34u8);
                    } else if self.bytes[self.byte_pos] == 39u8 {
                        // `'`
                        self.eat_string(39u8);
                    } else if 48u8 <= self.bytes[self.byte_pos] && self.bytes[self.byte_pos] <= 57u8 {
                        // a digit
                        self.advance_to(self.byte_pos + 1);
                        let ghost m1 = *self;
                        self.eat_number();
                        proof { Self::lemma_grows_trans(&prev, &m1, self); }
                    } else {
                        self.error(ErrType::LexerUnexpectedCharacter { c });
                        let ghost m1 = *self;
                        let next = next_char_start(self.bytes, self.byte_pos);
                        self.advance_to(next);
                        proof { Self::lemma_grows_trans(&prev, &m1, self); }
                    }
                }
                None => {
                    // the position is inside a char
                    self.error(ErrType::LexerUnexpectedCharacter { c: '\u{FFFD}' });
                    let ghost m1 = *self;
                    let next = next_char_start(self.bytes, self.byte_pos);
                    self.advance_to(next);
                    proof { Self::lemma_grows_trans(&prev, &m1, self); }
                }
            }
            proof { Self::lemma_grows_trans(old(self), &prev, self); }
        }
    }
}

} // verus!
