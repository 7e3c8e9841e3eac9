use vstd::prelude::*;
use vstd::string::StringSliceAdditionalSpecFns;
use crate::{ErrType, ProgramError, ProgramErrorData, WarnType};
use crate::lexing::tokens::{AssignOp, Span, TokenKind, TokenSpan};
use crate::lexing::lexer::tokens_wf;
use crate::lexing::token_tables::{keywords, spec_keywords};
use crate::parsing::ast::{AstArena, Expr, ExprId, Pattern, PatternId, expr_children_lt, pattern_children_lt, expr_children_all, pattern_children_all};
use crate::parsing::parse_expressions::ParserCtx;

pub mod ast;
pub mod desugar;
pub mod parse_expressions;
pub mod parse_patterns;

verus! {

/// The token at position `i`, or the end token past the last one.
pub open spec fn spec_tok(tokens: Seq<TokenSpan>, i: int) -> TokenSpan {
    if 0 <= i < tokens.len() { tokens[i] } else { TokenSpan::spec_end_token() }
}

/// The warnings that the parser gives: about the spacing around operators.
pub open spec fn is_parser_warning(w: WarnType) -> bool {
    w is ParserInconsistentSpacingAroundInfixOp || w is ParserUnnecessarySpacingAfterPrefixOp
}

/// The tokens that can start an expression (those `parse_prefix` handles).
pub open spec fn is_expression_start(t: TokenKind) -> bool {
    match t {
        TokenKind::Exclamation | TokenKind::Op(AssignOp::Minus) | TokenKind::Op(AssignOp::Star)
        | TokenKind::Identifier | TokenKind::Mut | TokenKind::NumInt | TokenKind::NumFloat
        | TokenKind::Bool(_) | TokenKind::LeftBrace | TokenKind::LeftParen | TokenKind::StringStart
        | TokenKind::Let | TokenKind::Const | TokenKind::Type | TokenKind::If | TokenKind::Ensure
        | TokenKind::While | TokenKind::For | TokenKind::Loop | TokenKind::Match | TokenKind::Enum
        | TokenKind::Impl | TokenKind::ImplSelf | TokenKind::Colon | TokenKind::Fn | TokenKind::Pipe
        | TokenKind::Return | TokenKind::Break | TokenKind::Continue | TokenKind::Ampersand => true,
        _ => false,
    }
}

/// The token is one of the keywords.
pub open spec fn is_keyword_token(t: TokenKind) -> bool {
    exists|i: int| 0 <= i < spec_keywords().len() && (#[trigger] spec_keywords()[i]).1 == t
}

/// Turns tokens into an `AstArena`.
pub struct Parser<'a> {
    error_data: ProgramErrorData,
    source: &'a str,
    tokens: &'a [TokenSpan],
    curr_token_pos: usize,
    ast: AstArena,
    prev_token_span: Span,
}

impl<'a> Parser<'a> {
    /// Parses the tokens that the lexer made of `source`. Expression 0 of the result is the block
    /// of the whole program. Errors and warnings are appended to `error_data`.
    pub fn start(error_data: &mut ProgramErrorData, source: &str, tokens: &[TokenSpan]) -> (r: AstArena)
        requires
            source.spec_bytes().len() < usize::MAX,
            tokens_wf(source.spec_bytes().len(), tokens@),
            tokens@.len() < usize::MAX,
        ensures
            r.ranked(),
            r.ranked_with_gap(64),
            // no node refers to the main block
            r.no_ref_to_first(),
            r.exprs@.len() >= 1,
            r.exprs@[0] is Block,
            // the program's block holds an expression unless there are no tokens
            spec_tok(tokens@, 0).token != TokenKind::Hashtag ==>
                r.exprs@[0]->Block_label is None
                && ((r.exprs@[0]->Block_exprs@.len() == 0) == (spec_tok(tokens@, 0).token == TokenKind::EndOfFile)),
            final(error_data).errors@.len() >= old(error_data).errors@.len(),
            forall|i: int| 0 <= i < old(error_data).errors@.len() ==>
                #[trigger] final(error_data).errors@[i] == old(error_data).errors@[i],
            forall|i: int| old(error_data).errors@.len() <= i < final(error_data).errors@.len() ==>
                crate::is_parser_error((#[trigger] final(error_data).errors@[i]).err_type),
            final(error_data).warnings@.len() >= old(error_data).warnings@.len(),
            forall|i: int| 0 <= i < old(error_data).warnings@.len() ==>
                #[trigger] final(error_data).warnings@[i] == old(error_data).warnings@[i],
            forall|i: int| old(error_data).warnings@.len() <= i < final(error_data).warnings@.len() ==>
                is_parser_warning((#[trigger] final(error_data).warnings@[i]).err_type),
    {
        let mut ast = AstArena::new();
        // reserve the first slot of the ast
        ast.push_expr(Span::invalid(), Expr::ParserError);

        let mut data = ProgramErrorData::new();
        std::mem::swap(&mut data, error_data);
        let mut parser = Parser {
            error_data: data,
            source,
            tokens,
            curr_token_pos: 0,
            ast,
            prev_token_span: Span::default(),
        };
        proof { Parser::lemma_initial_inv(parser); }
        let _root = parser.parse_block_expression(TokenKind::EndOfFile, Span::default());
        proof { parser.lemma_inv(); }
        std::mem::swap(&mut parser.error_data, error_data);

        // swap the last expression (the main block) into the reserved first slot
        parser.ast.move_last_to_front()
    }

    /// The next token.
    spec fn spec_peek(&self) -> TokenSpan {
        spec_tok(self.tokens@, self.curr_token_pos as int)
    }

    /// The token after the next one.
    spec fn spec_peek_further(&self) -> TokenSpan {
        spec_tok(self.tokens@, self.curr_token_pos + 1)
    }

    /// The span of the token consumed last: none yet, a token, or the end past the last token.
    spec fn prev_ok(&self) -> bool {
        ||| self.curr_token_pos == 0 && self.prev_token_span == (Span { line: 0, byte_offset: 0, length: 0 })
        ||| 0 < self.curr_token_pos <= self.tokens@.len()
                && self.prev_token_span == self.tokens@[self.curr_token_pos - 1].span
        ||| self.curr_token_pos == self.tokens@.len() && self.prev_token_span == Span::spec_invalid()
    }

    /// Nothing has been consumed yet, or the last token consumed is a real token and no string fragment.
    spec fn after_plain_token(&self) -> bool {
        ||| self.curr_token_pos == 0 && self.prev_token_span == (Span { line: 0, byte_offset: 0, length: 0 })
        ||| 0 < self.curr_token_pos <= self.tokens@.len()
                && self.prev_token_span == self.tokens@[self.curr_token_pos - 1].span
                && self.tokens@[self.curr_token_pos - 1].token != TokenKind::StringFrag
    }

    proof fn lemma_initial_inv(p: Parser)
        requires
            p.source.spec_bytes().len() < usize::MAX,
            tokens_wf(p.source.spec_bytes().len(), p.tokens@),
            p.tokens@.len() < usize::MAX,
            p.curr_token_pos == 0,
            p.prev_token_span == (Span { line: 0, byte_offset: 0, length: 0 }),
            p.ast.built(),
            p.ast.exprs@.len() == 1,
            p.ast.exprs@[0] == Expr::ParserError,
            p.ast.patterns@.len() == 0,
        ensures
            p.inv(),
    {
        reveal(Parser::inv_core);
    }

    /// The parser's invariant: the position lies in the tokens (a visible part) and the rest.
    spec fn inv(&self) -> bool {
        &&& self.curr_token_pos <= self.tokens@.len()
        &&& self.tokens@.len() < usize::MAX
        &&& self.ast.exprs@.len() >= 1
        &&& self.inv_core()
    }

    #[verifier::opaque]
    spec fn inv_core(&self) -> bool {
        &&& self.source.spec_bytes().len() < usize::MAX
        &&& tokens_wf(self.source.spec_bytes().len(), self.tokens@)
        &&& self.tokens@.len() < usize::MAX
        &&& self.curr_token_pos <= self.tokens@.len()
        &&& self.prev_ok()
        &&& self.ast.built()
        &&& self.ast.no_ref_to_first()
        &&& self.ast.exprs@.len() >= 1
    }

    /// The errors and warnings only grow, keeping what was there.
    spec fn log_grows(&self, old: &Self) -> bool {
        &&& self.error_data.errors@.len() >= old.error_data.errors@.len()
        &&& forall|i: int| 0 <= i < old.error_data.errors@.len() ==>
                #[trigger] self.error_data.errors@[i] == old.error_data.errors@[i]
        &&& forall|i: int| old.error_data.errors@.len() <= i < self.error_data.errors@.len() ==>
                crate::is_parser_error((#[trigger] self.error_data.errors@[i]).err_type)
        &&& self.error_data.warnings@.len() >= old.error_data.warnings@.len()
        &&& forall|i: int| 0 <= i < old.error_data.warnings@.len() ==>
                #[trigger] self.error_data.warnings@[i] == old.error_data.warnings@[i]
        &&& forall|i: int| old.error_data.warnings@.len() <= i < self.error_data.warnings@.len() ==>
                is_parser_warning((#[trigger] self.error_data.warnings@[i]).err_type)
    }

    /// What any parsing step keeps: the input, forward movement, and an arena and log that only grow.
    spec fn keeps(&self, old: &Self) -> bool {
        &&& self.source == old.source
        &&& self.tokens == old.tokens
        &&& old.curr_token_pos <= self.curr_token_pos
        &&& old.ast.exprs@.len() <= self.ast.exprs@.len()
        &&& old.ast.patterns@.len() <= self.ast.patterns@.len()
        &&& self.log_grows(old)
    }

    /// A parsing step kept the invariant and only moved forward and grew.
    spec fn stepped(&self, old: &Self) -> bool {
        &&& self.inv()
        &&& self.keeps(old)
        &&& self.curr_token_pos <= self.tokens@.len()
    }

    /// A step that started before the end consumed at least one token.
    spec fn progressed(&self, old: &Self) -> bool {
        old.curr_token_pos < old.tokens@.len() ==> self.curr_token_pos > old.curr_token_pos
    }

    proof fn lemma_inv(&self)
        requires
            self.inv(),
        ensures
            self.curr_token_pos <= self.tokens@.len() < usize::MAX,
            self.ast.wf(),
            self.ast.ordered(),
            self.ast.built(),
            self.ast.no_ref_to_first(),
            self.ast.exprs@.len() >= 1,
            self.prev_ok(),
    {
        reveal(Parser::inv_core);
        self.ast.lemma_built_ordered();
    }

    /// Before a real token that no string fragment can precede, the last consumed token is plain.
    proof fn lemma_after_plain(&self)
        requires
            self.inv(),
            self.curr_token_pos < self.tokens@.len(),
            self.tokens@[self.curr_token_pos as int].token != TokenKind::StringEnd,
            self.tokens@[self.curr_token_pos as int].token != TokenKind::LeftBrace,
        ensures
            self.after_plain_token(),
    {
        reveal(Parser::inv_core);
        if self.curr_token_pos > 0 {
            let i = self.curr_token_pos - 1;
            assert(self.tokens@[i].token != TokenKind::StringFrag);
        }
    }

    fn peek(&self) -> (r: TokenSpan)
        requires
            self.inv(),
        ensures
            r == self.spec_peek(),
    {
        proof { self.lemma_inv(); }
        if self.curr_token_pos < self.tokens.len() {
            self.tokens[self.curr_token_pos]
        } else {
            TokenSpan::end_token()
        }
    }

    /// Needed for tuple labels `(x: 2, y: 3)` against `(2, 3)`; the parser never looks further.
    fn peek_one_further(&self) -> (r: TokenSpan)
        requires
            self.inv(),
        ensures
            r == self.spec_peek_further(),
    {
        proof { self.lemma_inv(); }
        if self.curr_token_pos + 1 < self.tokens.len() {
            self.tokens[self.curr_token_pos + 1]
        } else {
            TokenSpan::end_token()
        }
    }

    /// Consumes the next token (the position stays at the end once there).
    fn next(&mut self) -> (r: TokenSpan)
        requires
            old(self).inv(),
        ensures
            final(self).inv(),
            final(self).keeps(old(self)),
            r == old(self).spec_peek(),
            final(self).prev_token_span == r.span,
            final(self).curr_token_pos == if old(self).curr_token_pos < old(self).tokens@.len() {
                old(self).curr_token_pos + 1
            } else {
                old(self).curr_token_pos as int
            },
            final(self).ast == old(self).ast,
            final(self).error_data == old(self).error_data,
            old(self).curr_token_pos < old(self).tokens@.len() ==>
                final(self).tokens@[final(self).curr_token_pos - 1] == r,
    {
        proof { self.lemma_inv(); }
        let next = self.peek();
        if self.curr_token_pos < self.tokens.len() {
            self.curr_token_pos = self.curr_token_pos + 1;
        }
        self.prev_token_span = next.span;
        proof {
            reveal(Parser::inv_core);
        }
        next
    }

    fn peek_is_on_same_line(&self) -> (r: bool)
        requires
            self.inv(),
        ensures
            r == (self.spec_peek().span.line == self.prev_token_span.line),
    {
        self.peek().span.line == self.prev_token_span.line
    }

    fn peek_further_is_on_same_line(&self) -> (r: bool)
        requires
            self.inv(),
        ensures
            r == (self.spec_peek_further().span.line == self.prev_token_span.line),
    {
        self.peek_one_further().span.line == self.prev_token_span.line
    }

    /// The bytes between the end of the last consumed token and the next token.
    fn peek_spaces_before(&self) -> (r: usize)
        requires
            self.inv(),
            self.after_plain_token(),
        ensures
            r == self.spec_peek().span.byte_offset - (self.prev_token_span.byte_offset + self.prev_token_span.length),
    {
        proof {
            reveal(Parser::inv_core);
            let p = self.curr_token_pos as int;
            if 0 < p < self.tokens@.len() {
                assert(self.tokens@[p - 1].token != TokenKind::StringFrag);
            }
            if 0 < p {
                assert(crate::lexing::lexer::span_within(self.tokens@[p - 1].span, self.source.spec_bytes().len()));
            }
            if p < self.tokens@.len() {
                assert(crate::lexing::lexer::span_within(self.tokens@[p].span, self.source.spec_bytes().len()));
            }
        }
        self.peek().span.byte_offset - (self.prev_token_span.byte_offset + self.prev_token_span.length)
    }

    /// The bytes between the end of the next token and the token after it.
    fn peek_spaces_after(&self) -> (r: usize)
        requires
            self.inv(),
            self.curr_token_pos < self.tokens@.len(),
            self.spec_peek().token != TokenKind::StringFrag,
        ensures
            r == self.spec_peek_further().span.byte_offset - (self.spec_peek().span.byte_offset + self.spec_peek().span.length),
    {
        proof {
            reveal(Parser::inv_core);
            let p = self.curr_token_pos as int;
            assert(crate::lexing::lexer::span_within(self.tokens@[p].span, self.source.spec_bytes().len()));
            if p + 1 < self.tokens@.len() {
                assert(crate::lexing::lexer::span_within(self.tokens@[p + 1].span, self.source.spec_bytes().len()));
            }
        }
        self.peek_one_further().span.byte_offset - (self.peek().span.byte_offset + self.peek().span.length)
    }

    /// Records an error at the next token.
    fn error(&mut self, err_type: ErrType)
        requires
            old(self).inv(),
            crate::is_parser_error(err_type),
        ensures
            final(self).inv(),
            final(self).keeps(old(self)),
            final(self).curr_token_pos == old(self).curr_token_pos,
            final(self).prev_token_span == old(self).prev_token_span,
            final(self).ast == old(self).ast,
            final(self).error_data.errors@ == old(self).error_data.errors@.push(ProgramError { span: old(self).spec_peek().span, err_type }),
            final(self).error_data.warnings@ == old(self).error_data.warnings@,
    {
        let span = self.peek().span;
        self.error_with_span(err_type, span);
    }

    fn error_with_span(&mut self, err_type: ErrType, span: Span)
        requires
            old(self).inv(),
            crate::is_parser_error(err_type),
        ensures
            final(self).inv(),
            final(self).keeps(old(self)),
            final(self).curr_token_pos == old(self).curr_token_pos,
            final(self).prev_token_span == old(self).prev_token_span,
            final(self).ast == old(self).ast,
            final(self).error_data.errors@ == old(self).error_data.errors@.push(ProgramError { span, err_type }),
            final(self).error_data.warnings@ == old(self).error_data.warnings@,
    {
        self.error_data.errors.push(ProgramError { span, err_type });
        proof {
            reveal(Parser::inv_core);
        }
    }

    /// Records a warning at the next token.
    fn warn(&mut self, warn_type: WarnType)
        requires
            old(self).inv(),
            is_parser_warning(warn_type),
        ensures
            final(self).inv(),
            final(self).keeps(old(self)),
            final(self).curr_token_pos == old(self).curr_token_pos,
            final(self).prev_token_span == old(self).prev_token_span,
            final(self).ast == old(self).ast,
            final(self).error_data.warnings@ == old(self).error_data.warnings@.push(
                ProgramError { span: old(self).spec_peek().span, err_type: warn_type }),
            final(self).error_data.errors@ == old(self).error_data.errors@,
    {
        let span = self.peek().span;
        self.warn_with_span(warn_type, span);
    }

    fn warn_with_span(&mut self, warn_type: WarnType, span: Span)
        requires
            old(self).inv(),
            is_parser_warning(warn_type),
        ensures
            final(self).inv(),
            final(self).keeps(old(self)),
            final(self).curr_token_pos == old(self).curr_token_pos,
            final(self).prev_token_span == old(self).prev_token_span,
            final(self).ast == old(self).ast,
            final(self).error_data.warnings@ == old(self).error_data.warnings@.push(ProgramError { span, err_type: warn_type }),
            final(self).error_data.errors@ == old(self).error_data.errors@,
    {
        self.error_data.warn(warn_type, span);
        proof {
            reveal(Parser::inv_core);
        }
    }

    /// Adds an expression spanning from `start` to the last consumed token.
    fn add_expr(&mut self, start: Span, expr: Expr) -> (id: ExprId)
        requires
            old(self).inv(),
            expr_children_lt(expr, old(self).ast.exprs@.len(), old(self).ast.patterns@.len()),
            expr_children_all(expr, |c: ExprId| c.0 >= 1, |q: PatternId| true),
        ensures
            final(self).inv(),
            final(self).keeps(old(self)),
            final(self).curr_token_pos == old(self).curr_token_pos,
            final(self).prev_token_span == old(self).prev_token_span,
            final(self).error_data == old(self).error_data,
            id.0 == old(self).ast.exprs@.len(),
            id.0 >= 1,
            final(self).ast.exprs@ == old(self).ast.exprs@.push(expr),
            final(self).ast.patterns@ == old(self).ast.patterns@,
    {
        proof { self.lemma_inv(); }
        let span = start.merge(self.prev_token_span);
        let id = self.ast.push_expr(span, expr);
        proof {
            reveal(Parser::inv_core);
        }
        id
    }

    /// Adds a pattern spanning from `start` to the last consumed token.
    fn add_pattern(&mut self, start: Span, pattern: Pattern) -> (id: PatternId)
        requires
            old(self).inv(),
            pattern_children_lt(pattern, old(self).ast.exprs@.len(), old(self).ast.patterns@.len()),
            pattern_children_all(pattern, |c: ExprId| c.0 >= 1, |q: PatternId| true),
        ensures
            final(self).inv(),
            final(self).keeps(old(self)),
            final(self).curr_token_pos == old(self).curr_token_pos,
            final(self).prev_token_span == old(self).prev_token_span,
            final(self).error_data == old(self).error_data,
            id.0 == old(self).ast.patterns@.len(),
            final(self).ast.patterns@ == old(self).ast.patterns@.push(pattern),
            final(self).ast.exprs@ == old(self).ast.exprs@,
    {
        proof { self.lemma_inv(); }
        let span = start.merge(self.prev_token_span);
        let id = self.ast.push_pattern(span, pattern);
        proof {
            reveal(Parser::inv_core);
        }
        id
    }

    /// Consumes the next token if it is `expected`, records an error otherwise.
    fn expect_token(&mut self, expected: TokenKind, error_msg: &str)
        requires
            old(self).inv(),
        ensures
            final(self).inv(),
            final(self).keeps(old(self)),
            final(self).ast == old(self).ast,
            old(self).spec_peek().token == expected ==> final(self).curr_token_pos == old(self).curr_token_pos + 1
                || old(self).curr_token_pos == old(self).tokens@.len(),
            old(self).spec_peek().token != expected ==> final(self).curr_token_pos == old(self).curr_token_pos
                && final(self).prev_token_span == old(self).prev_token_span,
    {
        proof { self.lemma_inv(); }
        let found = self.peek().token;
        if !self.optional_token(expected) {
            self.error(ErrType::ParserExpectToken {
                expected: vec![expected],
                err_msg: error_msg.to_string(),
                found,
            });
        }
    }

    /// Consumes an identifier and gives its name; records an error and gives `""` otherwise.
    fn expect_identifier(&mut self, err_msg: &str) -> (r: String)
        requires
            old(self).inv(),
        ensures
            final(self).inv(),
            final(self).keeps(old(self)),
            final(self).ast == old(self).ast,
            old(self).spec_peek().token == TokenKind::Identifier ==>
                final(self).curr_token_pos == old(self).curr_token_pos + 1,
            old(self).spec_peek().token != TokenKind::Identifier ==>
                final(self).curr_token_pos == old(self).curr_token_pos
                && final(self).prev_token_span == old(self).prev_token_span,
            final(self).after_plain_token() || final(self).curr_token_pos == old(self).curr_token_pos,
            old(self).spec_peek().token == TokenKind::Identifier ==>
                r@ == old(self).span_text(old(self).spec_peek().span) && final(self).error_data == old(self).error_data,
            old(self).spec_peek().token != TokenKind::Identifier ==> r@.len() == 0
                && final(self).error_data.errors@.len() == old(self).error_data.errors@.len() + 1,
    {
        proof { self.lemma_inv(); }
        let peek = self.peek();
        if peek.token == TokenKind::Identifier {
            self.next();
            self.get_from_source(peek.span).to_string()
        } else {
            self.error(ErrType::ParserExpectToken {
                expected: vec![TokenKind::Identifier],
                err_msg: err_msg.to_string(),
                found: peek.token,
            });
            String::new()
        }
    }

    /// Like `expect_identifier`, but a keyword or a number is taken as a name too.
    fn expect_identifier_relaxed(&mut self, err_msg: &str) -> (r: String)
        requires
            old(self).inv(),
        ensures
            final(self).inv(),
            final(self).keeps(old(self)),
            final(self).ast == old(self).ast,
            final(self).after_plain_token() || final(self).curr_token_pos == old(self).curr_token_pos,
            final(self).curr_token_pos == old(self).curr_token_pos
                ==> final(self).prev_token_span == old(self).prev_token_span,
            // a name, a number or a keyword gives its text
            (old(self).spec_peek().token == TokenKind::NumInt || is_keyword_token(old(self).spec_peek().token))
                ==> r@ == old(self).span_text(old(self).spec_peek().span)
                    && final(self).error_data == old(self).error_data,
    {
        proof { self.lemma_inv(); }
        let peek = self.peek();
        if peek.token == TokenKind::NumInt || is_keyword(peek.token) {
            self.next();
            self.get_from_source(peek.span).to_string()
        } else {
            self.expect_identifier(err_msg)
        }
    }

    /// Consumes the next token if it is `expected`.
    fn optional_token(&mut self, expected: TokenKind) -> (matched: bool)
        requires
            old(self).inv(),
        ensures
            final(self).inv(),
            final(self).keeps(old(self)),
            final(self).ast == old(self).ast,
            final(self).error_data == old(self).error_data,
            matched == (old(self).spec_peek().token == expected),
            matched && old(self).curr_token_pos < old(self).tokens@.len() ==>
                final(self).curr_token_pos == old(self).curr_token_pos + 1
                && final(self).tokens@[old(self).curr_token_pos as int].token == expected
                && final(self).prev_token_span == final(self).tokens@[old(self).curr_token_pos as int].span,
            matched && old(self).curr_token_pos == old(self).tokens@.len() ==>
                final(self).curr_token_pos == old(self).curr_token_pos && expected == TokenKind::EndOfFile,
            !matched ==> final(self).curr_token_pos == old(self).curr_token_pos
                && final(self).prev_token_span == old(self).prev_token_span,
    {
        proof { self.lemma_inv(); }
        let matched = self.peek().token == expected;
        if matched {
            self.next();
        }
        matched
    }

    /// `#label`, which has to be on the line of the token before it.
    fn optional_label(&mut self) -> (r: Option<String>)
        requires
            old(self).inv(),
        ensures
            final(self).inv(),
            final(self).keeps(old(self)),
            final(self).ast == old(self).ast,
            old(self).spec_peek().token != TokenKind::Hashtag ==> final(self).curr_token_pos == old(self).curr_token_pos
                && final(self).prev_token_span == old(self).prev_token_span && r is None,
            old(self).spec_peek().token == TokenKind::Hashtag ==> r is Some,
            final(self).after_plain_token() || final(self).curr_token_pos == old(self).curr_token_pos,
    {
        let label_on_same_line = self.prev_token_span.line == self.peek().span.line;
        if self.optional_token(TokenKind::Hashtag) {
            if !label_on_same_line {
                self.error(ErrType::ParserLabelsHaveToBeOnSameLine);
            }
            Some(self.expect_identifier_relaxed("to name the label"))
        } else {
            None
        }
    }

    /// The value of a string fragment, if one comes next.
    fn optional_string_frag(&mut self) -> (r: String)
        requires
            old(self).inv(),
        ensures
            final(self).inv(),
            final(self).keeps(old(self)),
            final(self).ast == old(self).ast,
            old(self).spec_peek().token != TokenKind::StringFrag ==> final(self).curr_token_pos == old(self).curr_token_pos
                && final(self).prev_token_span == old(self).prev_token_span && r@.len() == 0,
            // a fragment's value is its source text
            old(self).spec_peek().token == TokenKind::StringFrag ==> r@ == old(self).span_text(old(self).spec_peek().span),
    {
        if self.optional_token(TokenKind::StringFrag) {
            let source_frag = self.get_from_source(self.prev_token_span);
            crate::lexing::lex_string_from(source_frag)
        } else {
            String::new()
        }
    }

    /// The source text that `span` covers (empty where the span does not lie on char boundaries
    /// inside the source, which a span of the lexer always does).
    pub closed spec fn span_text(&self, span: Span) -> Seq<char> {
        let b = self.source.spec_bytes();
        let (s, e) = (span.byte_offset as int, span.byte_offset + span.length);
        if e <= b.len() && vstd::utf8::is_char_boundary(b, s) && vstd::utf8::is_char_boundary(b, e) {
            vstd::utf8::decode_utf8(b.subrange(s, e))
        } else {
            Seq::empty()
        }
    }

    /// The source text that `span` covers.
    fn get_from_source(&self, span: Span) -> (r: &'a str)
        requires
            self.inv(),
        ensures
            r@ == self.span_text(span),
            ({
                let b = self.source.spec_bytes();
                let (s, e) = (span.byte_offset as int, span.byte_offset + span.length);
                if e <= b.len() && vstd::utf8::is_char_boundary(b, s) && vstd::utf8::is_char_boundary(b, e) {
                    r.spec_bytes() == b.subrange(s, e)
                } else {
                    r@.len() == 0
                }
            }),
    {
        let end = if span.byte_offset <= usize::MAX - span.length { span.byte_offset + span.length } else { 0 };
        if span.byte_offset > usize::MAX - span.length {
            proof { reveal(Parser::inv_core); }
            let empty: &'a str = "";
            proof {
                reveal_strlit("");
                assert(empty@.len() == 0);
            }
            return empty;
        }
        let r = crate::text::source_slice(self.source, span.byte_offset, end);
        proof {
            vstd::utf8::encode_utf8_decode_utf8(r@);
            if r@.len() == 0 {
                assert(vstd::utf8::encode_utf8(r@) =~= Seq::<u8>::empty());
                assert(vstd::utf8::decode_utf8(Seq::<u8>::empty()) =~= Seq::<char>::empty());
            }
        }
        r
    }

    /// Whether the next token starts an expression.
    fn peek_is_expression_start(&self) -> (r: bool)
        requires
            self.inv(),
        ensures
            r == is_expression_start(self.spec_peek().token),
    {
        match self.peek().token {
            TokenKind::Exclamation | TokenKind::Op(AssignOp::Minus) | TokenKind::Op(AssignOp::Star)
            | TokenKind::Identifier | TokenKind::Mut | TokenKind::NumInt | TokenKind::NumFloat
            | TokenKind::Bool(_) | TokenKind::LeftBrace | TokenKind::LeftParen | TokenKind::StringStart
            | TokenKind::Let | TokenKind::Const | TokenKind::Type | TokenKind::If | TokenKind::Ensure
            | TokenKind::While | TokenKind::For | TokenKind::Loop | TokenKind::Match | TokenKind::Enum
            | TokenKind::Impl | TokenKind::ImplSelf | TokenKind::Colon | TokenKind::Fn | TokenKind::Pipe
            | TokenKind::Return | TokenKind::Break | TokenKind::Continue | TokenKind::Ampersand => true,
            _ => false,
        }
    }
}

/// Whether `t` is one of the keyword tokens.
pub fn is_keyword(t: TokenKind) -> (r: bool)
    ensures
        r == is_keyword_token(t),
{
    let table = keywords();
    let mut i: usize = 0;
    while i < table.len()
        invariant
            table@.len() == spec_keywords().len(),
            forall|k: int| 0 <= k < table@.len() ==> #[trigger] table@[k].1 == spec_keywords()[k].1,
            0 <= i <= table@.len(),
            forall|k: int| 0 <= k < i ==> spec_keywords()[k].1 != t,
        decreases table@.len() - i,
    {
        if table[i].1 == t {
            return true;
        }
        i = i + 1;
    }
    false
}

} // verus!
