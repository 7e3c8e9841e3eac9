use vstd::prelude::*;
use vstd::string::StringSliceAdditionalSpecFns;
use crate::{ErrType, ProgramError};
use crate::lexing::tokens::{Span, TokenKind};
use crate::parsing::Parser;
use crate::parsing::ast::{AstTuplePattern, Expr, ExprId, Pattern, PatternId, expr_children_lt};
use crate::parsing::parse_expressions::{ParserCtx, Precedence};
use crate::text::usize_to_string;

verus! {

/// Whether the text starts with `_` (its first byte is the one of `_`).
pub fn starts_with_underscore(s: &str) -> (r: bool)
    ensures
        r == (s.spec_bytes().len() > 0 && s.spec_bytes()[0] == 95u8),
{
    let b = s.as_bytes();
    b.len() > 0 && b[0] == 95u8
}

/// The tokens that start a pattern in binding mode.
pub open spec fn starts_binding_pattern(t: TokenKind) -> bool {
    t == TokenKind::Let || t == TokenKind::Identifier || t == TokenKind::LeftParen || t == TokenKind::Colon
        || t == TokenKind::Exclamation || t is NumInt || t is NumFloat || t is Bool || t == TokenKind::Mut
        || t == TokenKind::StringStart
}

impl<'a> Parser<'a> {
    /// One pattern without `|`, `:` or `and` after it.
    /// A `let` enters binding mode: `x is let y` binds `y`, while `x is y` compares with `y`.
    fn parse_one_pattern(&mut self, binding_mode: bool, ctx: ParserCtx) -> (r: PatternId)
        requires
            old(self).inv(),
        ensures
            final(self).stepped(old(self)),
            r.0 < final(self).ast.patterns@.len(),
            // the pattern that the first token starts
            ({
                let t = old(self).spec_peek();
                let p = final(self).ast.patterns@[r.0 as int];
                let name = vstd::utf8::encode_utf8(old(self).span_text(t.span));
                &&& t.token == TokenKind::Identifier && name.len() > 0 && name[0] == 95u8 ==> p == Pattern::Wildcard
                // a name binds in binding mode, and is compared with otherwise
                &&& t.token == TokenKind::Identifier && !(name.len() > 0 && name[0] == 95u8)
                    && !(old(self).spec_peek_further().span.byte_offset == t.span.byte_offset + t.span.length
                        && old(self).spec_peek_further().token == TokenKind::LeftBrace) ==>
                    (binding_mode ==> p == Pattern::Binding { name: p->Binding_name, mutable: false }
                        && p->Binding_name@ == old(self).span_text(t.span))
                    && (!binding_mode ==> p is CompareExpr)
                &&& t.token == TokenKind::Exclamation ==> p is Not
                &&& t.token == TokenKind::Colon ==> p is EnumVariant
                &&& t.token == TokenKind::StringStart ==> p is String
                &&& binding_mode && t.token == TokenKind::Mut ==> (p matches Pattern::Binding { mutable, .. } && mutable)
                &&& binding_mode && (t.token is NumInt || t.token is NumFloat || t.token is Bool) ==> p is CompareExpr
                &&& binding_mode && !starts_binding_pattern(t.token) ==> p == Pattern::Wildcard
                    && final(self).error_data.errors@ == old(self).error_data.errors@.push(
                        ProgramError { span: t.span, err_type: ErrType::ParserExpectedABindingPattern { found: t.token } })
            }),
        decreases old(self).tokens@.len() - old(self).curr_token_pos, 4nat,
    {
        proof { self.lemma_inv(); }
        let token = self.peek();
        let start = token.span;

        match token.token {
            TokenKind::Let => {
                // enter binding mode!
                self.next();
                self.parse_pattern(true, ctx)
            },
            TokenKind::Identifier => {
                let name = self.get_from_source(token.span);
                if starts_with_underscore(name) {
                    // x is _
                    self.next();
                    self.add_pattern(start, Pattern::Wildcard)
                } else if self.peek_spaces_after() == 0 && self.peek_one_further().token == TokenKind::LeftBrace {
                    // x is N{ ... }
                    self.next(); // consume <ident>
                    self.next(); // consume '{'
                    let typ = self.add_expr(start, Expr::IdentifierRef { name: name.to_string(), mutable: false });
                    let span = self.prev_token_span;
                    let data = self.parse_tuple_pattern(span, binding_mode, TokenKind::RightBrace, false);
                    proof { self.lemma_inv(); }
                    self.add_pattern(start, Pattern::TypeDestructor { typ, data })
                } else if binding_mode {
                    // x is let a
                    self.next();
                    self.add_pattern(start, Pattern::Binding { name: name.to_string(), mutable: false })
                } else {
                    // x is y
                    let expr = self.parse_expression(Precedence::And, ctx);
                    self.add_pattern(start, Pattern::CompareExpr(expr))
                }
            },
            TokenKind::LeftParen => {
                self.next(); // consume '('
                self.parse_tuple_pattern(start, binding_mode, TokenKind::RightParen, true)
            },
            TokenKind::Colon => {
                self.next();
                // .Some(T)
                let variant_name = self.expect_identifier("to name an enum variant");
                let attached_tuple = if self.optional_token(TokenKind::LeftBrace) {
                    let span = self.prev_token_span;
                    Some(self.parse_tuple_pattern(span, binding_mode, TokenKind::RightBrace, false))
                } else {
                    None
                };
                self.add_pattern(start, Pattern::EnumVariant { name: variant_name, attached_tuple })
            },
            TokenKind::Exclamation => {
                self.next(); // consume '!'
                let pat = self.parse_one_pattern(binding_mode, ctx);
                self.add_pattern(start, Pattern::Not(pat))
            },
            // literals in binding mode:
            // `x is 5 + 2` parses as `x is (5 + 2)`, `x is let 5 + 2` as `(x is 5) + 2`
            TokenKind::NumInt if binding_mode => {
                let (expr, _) = self.parse_prefix(ctx);
                self.add_pattern(start, Pattern::CompareExpr(expr))
            },
            TokenKind::NumFloat if binding_mode => {
                let (expr, _) = self.parse_prefix(ctx);
                self.add_pattern(start, Pattern::CompareExpr(expr))
            },
            TokenKind::Bool(_) if binding_mode => {
                let (expr, _) = self.parse_prefix(ctx);
                self.add_pattern(start, Pattern::CompareExpr(expr))
            },
            TokenKind::Mut if binding_mode => {
                // let mut x = ...
                self.next();
                let name = self.expect_identifier("after mut");
                self.add_pattern(start, Pattern::Binding { name, mutable: true })
            },
            TokenKind::StringStart => {
                self.next();
                let before = self.optional_string_frag();
                let mut hole_parts: Vec<(PatternId, String)> = Vec::new();
                loop
                    invariant
                        self.stepped(old(self)),
                        self.curr_token_pos > old(self).curr_token_pos,
                        forall|k: int| 0 <= k < hole_parts@.len() ==> (#[trigger] hole_parts@[k]).0.0 < self.ast.patterns@.len(),
                    decreases self.tokens@.len() - self.curr_token_pos,
                {
                    if self.optional_token(TokenKind::StringEnd) {
                        break;
                    }
                    // "...{...}...": the lexer puts a `{` after every fragment that does not end the string
                    if !self.optional_token(TokenKind::LeftBrace) {
                        break;
                    }
                    let pattern = self.parse_pattern(binding_mode, ctx);
                    self.expect_token(TokenKind::RightBrace, "to close string pattern interpolation");
                    let after = self.optional_string_frag();
                    hole_parts.push((pattern, after));
                }
                self.add_pattern(start, Pattern::String { before, hole_parts })
            },
            _ => {
                if !binding_mode {
                    // in non-binding mode any expression is allowed: `x is 5`
                    if self.peek_is_expression_start() {
                        let expr = self.parse_expression(Precedence::And, ctx);
                        self.add_pattern(start, Pattern::CompareExpr(expr))
                    } else {
                        let found = self.peek().token;
                        self.error(ErrType::ParserExpectedAPattern { found });
                        self.add_pattern(start, Pattern::Wildcard)
                    }
                } else {
                    // in binding mode one of the arms above should have found something
                    self.error(ErrType::ParserExpectedABindingPattern { found: token.token });
                    self.add_pattern(start, Pattern::Wildcard)
                }
            },
        }
    }

    /// A pattern with its alternatives (`|`), type annotation (`:`) and condition (`and`).
    pub(super) fn parse_pattern(&mut self, binding_mode: bool, ctx: ParserCtx) -> (r: PatternId)
        requires
            old(self).inv(),
        ensures
            final(self).stepped(old(self)),
            r.0 < final(self).ast.patterns@.len(),
        decreases old(self).tokens@.len() - old(self).curr_token_pos, 5nat,
    {
        let mut pattern = self.parse_one_pattern(binding_mode, ctx);
        proof { self.lemma_inv(); }
        let start = self.ast.get_pattern_span(pattern);

        // or pattern!
        if self.optional_token(TokenKind::Pipe) {
            let mut patterns: Vec<PatternId> = vec![pattern];
            loop
                invariant
                    self.stepped(old(self)),
                    self.curr_token_pos > old(self).curr_token_pos,
                    forall|k: int| 0 <= k < patterns@.len() ==> (#[trigger] patterns@[k]).0 < self.ast.patterns@.len(),
                decreases self.tokens@.len() - self.curr_token_pos,
            {
                patterns.push(self.parse_one_pattern(binding_mode, ctx));
                if !self.optional_token(TokenKind::Pipe) {
                    break;
                }
            }
            pattern = self.add_pattern(start, Pattern::Or(patterns));
        }

        // optional type annotation after the pattern
        if self.optional_token(TokenKind::Colon) {
            let typ = self.parse_expression(Precedence::And, ctx);
            pattern = self.add_pattern(start, Pattern::Typed { pattern, typ });
        }

        // extra condition after the pattern
        if self.optional_token(TokenKind::And) {
            let cond = self.parse_expression_default(ctx);
            pattern = self.add_pattern(start, Pattern::Conditional { pattern, cond });
        }

        pattern
    }

    /// One element of a tuple pattern: `pattern`, `label: pattern` or the shorthand `label:`.
    fn parse_one_tuple_pattern(&mut self, binding_mode: bool, default_label: String) -> (r: AstTuplePattern)
        requires
            old(self).inv(),
        ensures
            final(self).stepped(old(self)),
            r.pattern.0 < final(self).ast.patterns@.len(),
        decreases old(self).tokens@.len() - old(self).curr_token_pos, 6nat,
    {
        let ctx = ParserCtx { stop_on_newline_is: false };
        if self.peek_one_further().token == TokenKind::Colon {
            // it's labeled!
            let label = self.expect_identifier("to label the tuple element");
            self.expect_token(TokenKind::Colon, "unreachable");
            let next = self.peek().token;
            if next == TokenKind::Comma || next == TokenKind::RightParen || next == TokenKind::RightBrace {
                // shorthand (x:, y:)
                let span = self.prev_token_span;
                let name = label.clone();
                let pattern = self.add_pattern(span, Pattern::Binding { name, mutable: false });
                AstTuplePattern { label, pattern }
            } else {
                // (x: 0, y: 1)
                let pattern = self.parse_pattern(binding_mode, ctx);
                AstTuplePattern { label, pattern }
            }
        } else {
            // unlabeled tuple (1, 2)
            let pattern = self.parse_pattern(binding_mode, ctx);
            AstTuplePattern { label: default_label, pattern }
        }
    }

    /// A tuple pattern or a grouped pattern; the opening token was consumed, the closing
    /// `end_token` is consumed here.
    fn parse_tuple_pattern(&mut self, start: Span, binding_mode: bool, end_token: TokenKind, maybe_just_grouped_expr: bool) -> (r: PatternId)
        requires
            old(self).inv(),
        ensures
            final(self).stepped(old(self)),
            r.0 < final(self).ast.patterns@.len(),
        decreases old(self).tokens@.len() - old(self).curr_token_pos, 7nat,
    {
        if self.optional_token(end_token) {
            // tuple is empty
            return self.add_pattern(start, Pattern::Tuple(Vec::new()));
        }

        let first_elem = self.parse_one_tuple_pattern(binding_mode, "0".to_string());

        if self.optional_token(TokenKind::Comma) {
            // comma => definitely a tuple
            let mut tuple_body: Vec<AstTuplePattern> = vec![first_elem];
            let mut i: usize = 0;
            loop
                invariant
                    self.stepped(old(self)),
                    self.curr_token_pos > old(self).curr_token_pos,
                    forall|k: int| 0 <= k < tuple_body@.len() ==> (#[trigger] tuple_body@[k]).pattern.0 < self.ast.patterns@.len(),
                    i <= self.curr_token_pos,
                decreases self.tokens@.len() - self.curr_token_pos,
            {
                if self.peek().token == end_token {
                    break;
                }
                let label = usize_to_string(i + 1);
                tuple_body.push(self.parse_one_tuple_pattern(binding_mode, label));
                if !self.optional_token(TokenKind::Comma) {
                    break;
                }
                i = i + 1;
            }
            self.expect_token(end_token, "to close the tuple");
            self.add_pattern(start, Pattern::Tuple(tuple_body))
        } else if maybe_just_grouped_expr {
            self.expect_token(end_token, "to close the grouped pattern");
            first_elem.pattern
        } else {
            // 1-element tuple
            self.expect_token(end_token, "to close the tuple");
            self.add_pattern(start, Pattern::Tuple(vec![first_elem]))
        }
    }

    /// The pattern for the left side of `=`: `x = 2`, `(a, let b) = (1, 2)`, `map.get_mut("k") = ...`.
    pub(super) fn convert_expr_into_assign_pattern(&mut self, expr: ExprId) -> (r: PatternId)
        requires
            old(self).inv(),
            1 <= expr.0 < old(self).ast.exprs@.len(),
        ensures
            final(self).stepped(old(self)),
            final(self).curr_token_pos == old(self).curr_token_pos,
            final(self).prev_token_span == old(self).prev_token_span,
            final(self).ast.exprs@ == old(self).ast.exprs@,
            r.0 < final(self).ast.patterns@.len(),
        decreases expr.0,
    {
        proof { self.lemma_inv(); }
        let start = self.ast.get_expr_span(expr);

        let mut existing: Option<PatternId> = None;
        let mut wildcard = false;
        let mut tuple_elems: Option<Vec<(String, ExprId)>> = None;
        match self.ast.get_expr(expr) {
            Expr::EmptyLet { pattern } => {
                existing = Some(*pattern);
            },
            Expr::IdentifierRef { name, mutable } => {
                if !*mutable && starts_with_underscore(name.as_str()) {
                    wildcard = true;
                }
            },
            Expr::Tuple { elems } => {
                let mut copied: Vec<(String, ExprId)> = Vec::new();
                let mut k: usize = 0;
                while k < elems.len()
                    invariant
                        0 <= k <= elems@.len(),
                        copied@.len() == k,
                        forall|j: int| 0 <= j < k ==> (#[trigger] copied@[j]).1 == elems@[j].expr,
                    decreases elems@.len() - k,
                {
                    copied.push((elems[k].label.clone(), elems[k].expr));
                    k = k + 1;
                }
                proof {
                    assert(expr_children_lt(self.ast.exprs@[expr.0 as int], expr.0 as nat, self.ast.patterns@.len()));
                    assert forall|j: int| 0 <= j < copied@.len() implies (#[trigger] copied@[j]).1.0 < expr.0 by {
                        assert(copied@[j].1 == elems@[j].expr);
                    }
                }
                tuple_elems = Some(copied);
            },
            _ => {},
        }

        if let Some(pattern) = existing {
            return pattern;
        }
        if wildcard {
            return self.add_pattern(start, Pattern::Wildcard);
        }
        match tuple_elems {
            Some(copied) => {
                let mut converted: Vec<AstTuplePattern> = Vec::new();
                let mut k: usize = 0;
                while k < copied.len()
                    invariant
                        self.stepped(old(self)),
                        self.curr_token_pos == old(self).curr_token_pos,
                        self.prev_token_span == old(self).prev_token_span,
                        self.ast.exprs@ == old(self).ast.exprs@,
                        1 <= expr.0 < self.ast.exprs@.len(),
                        0 <= k <= copied@.len(),
                        forall|j: int| 0 <= j < copied@.len() ==> 1 <= (#[trigger] copied@[j]).1.0 < expr.0,
                        forall|j: int| 0 <= j < converted@.len() ==> (#[trigger] converted@[j]).pattern.0 < self.ast.patterns@.len(),
                    decreases copied@.len() - k,
                {
                    let label = copied[k].0.clone();
                    let pattern = self.convert_expr_into_assign_pattern(copied[k].1);
                    converted.push(AstTuplePattern { label, pattern });
                    k = k + 1;
                }
                self.add_pattern(start, Pattern::Tuple(converted))
            },
            None => self.add_pattern(start, Pattern::PlacePointer(expr)),
        }
    }
}

} // verus!
