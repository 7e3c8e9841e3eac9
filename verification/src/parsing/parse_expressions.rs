use vstd::prelude::*;
use crate::{ErrType, ProgramError, WarnType};
use crate::lexing::{int_literal_fits, is_int_literal_text, lex_num_int_from, lex_string_from, spec_int_value};
use crate::lexing::tokens::{AssignOp, Span, TokenKind, TokenSpan};
use crate::parsing::{Parser, is_expression_start, spec_tok};
use crate::parsing::ast::{
    AstClosure, AstEnumExpression, AstMatchArm, AstTupleElement, AstValue, Expr, ExprId, PatternId,
    expr_children_lt,
};
use crate::text::{concat3, usize_to_string};

verus! {

/// How strongly an infix operator binds, from loosest to tightest.
#[derive(Clone, Copy, PartialEq, Eq, Debug, Structural)]
pub enum Precedence {
    Lowest,
    /// =, +=, -=, etc.
    Assign,
    /// 1..2
    Range,
    /// or
    Or,
    /// and
    And,
    /// ==, !=
    Comparison,
    /// <, >, <=, >=
    LessGreater,
    /// is
    Is,
    /// +, -
    Sum,
    /// *, /, %
    Product,
    /// ! -
    Prefix,
    /// square(X), array[i], arr.len, Option::Some
    CallIndex,
    /// ^
    Postfix,
}

/// The kind of expression that a token starting an expression makes (literals, names and `(`
/// aside): `!x` and `-x` a prefix operation, `*x` a move, `{` a block, each keyword its construct.
pub open spec fn prefix_shape(t: TokenKind, e: Expr) -> bool {
    match t {
        TokenKind::Exclamation | TokenKind::Op(AssignOp::Minus) => (e matches Expr::Prefix { op, .. } && op == t),
        TokenKind::Op(AssignOp::Star) => e is Move,
        TokenKind::Mut => (e matches Expr::IdentifierRef { mutable, .. } && mutable),
        TokenKind::LeftBrace => e is Block,
        TokenKind::StringStart => e is TemplateString || (e matches Expr::Literal { val } && val is Str),
        TokenKind::Let => e is EmptyLet,
        TokenKind::Const => e is Const,
        TokenKind::Type => e is CustomType,
        TokenKind::If => (e matches Expr::If { never_alt, .. } && !never_alt),
        TokenKind::Ensure => (e matches Expr::If { never_alt, .. } && never_alt),
        TokenKind::While => e is While,
        TokenKind::For => e is For,
        TokenKind::Loop => e is Loop,
        TokenKind::Match => e is Match,
        TokenKind::Enum => e is EnumDefinition,
        TokenKind::Impl => e is ImplBlock,
        TokenKind::ImplSelf => e is ImplSelf,
        TokenKind::Colon => e is EnumVariant,
        TokenKind::Fn => e is FnDefinition,
        TokenKind::Pipe => (e matches Expr::Closure { requires_type_annotation, .. } && !requires_type_annotation),
        TokenKind::Return => e is Return,
        TokenKind::Break => e is Break,
        TokenKind::Continue => e is Continue,
        TokenKind::Ampersand => e is Borrow,
        _ => true,
    }
}

/// A token that is an operand by itself: a number or a boolean literal.
pub open spec fn is_atom_token(t: TokenKind) -> bool {
    t == TokenKind::NumInt || t == TokenKind::NumFloat || t is Bool
}

/// The place of a precedence in the order from loosest to tightest.
pub open spec fn spec_level(p: Precedence) -> nat {
    match p {
        Precedence::Lowest => 0,
        Precedence::Assign => 1,
        Precedence::Range => 2,
        Precedence::Or => 3,
        Precedence::And => 4,
        Precedence::Comparison => 5,
        Precedence::LessGreater => 6,
        Precedence::Is => 7,
        Precedence::Sum => 8,
        Precedence::Product => 9,
        Precedence::Prefix => 10,
        Precedence::CallIndex => 11,
        Precedence::Postfix => 12,
    }
}

/// The precedence of a token used as an infix operator (`Lowest` for any other token).
pub open spec fn spec_precedence(t: TokenKind) -> Precedence {
    match t {
        TokenKind::Assign { .. } => Precedence::Assign,
        TokenKind::DotDot | TokenKind::DotDotEqual => Precedence::Range,
        TokenKind::Or => Precedence::Or,
        TokenKind::And => Precedence::And,
        TokenKind::EqualEqual | TokenKind::NotEqual => Precedence::Comparison,
        TokenKind::Less | TokenKind::Greater | TokenKind::LessEqual | TokenKind::GreaterEqual => Precedence::LessGreater,
        TokenKind::Is => Precedence::Is,
        TokenKind::Op(AssignOp::Plus) | TokenKind::Op(AssignOp::Minus) => Precedence::Sum,
        TokenKind::Op(AssignOp::Star) | TokenKind::Op(AssignOp::Slash) | TokenKind::Op(AssignOp::Percent) => Precedence::Product,
        TokenKind::LeftParen | TokenKind::LeftBracket | TokenKind::Dot | TokenKind::ColonColon => Precedence::CallIndex,
        TokenKind::Caret => Precedence::Postfix,
        _ => Precedence::Lowest,
    }
}

impl Precedence {
    /// The precedence of `token_type` as an infix operator.
    pub fn get_precedence(token_type: TokenKind) -> (r: Self)
        ensures
            r == spec_precedence(token_type),
    {
        match token_type {
            TokenKind::Assign { .. } => Self::Assign,
            TokenKind::DotDot | TokenKind::DotDotEqual => Self::Range,
            TokenKind::Or => Self::Or,
            TokenKind::And => Self::And,
            TokenKind::EqualEqual | TokenKind::NotEqual => Self::Comparison,
            TokenKind::Less | TokenKind::Greater | TokenKind::LessEqual | TokenKind::GreaterEqual => Self::LessGreater,
            TokenKind::Is => Self::Is,
            TokenKind::Op(AssignOp::Plus) | TokenKind::Op(AssignOp::Minus) => Self::Sum,
            TokenKind::Op(AssignOp::Star) | TokenKind::Op(AssignOp::Slash) | TokenKind::Op(AssignOp::Percent) => Self::Product,
            TokenKind::LeftParen | TokenKind::LeftBracket | TokenKind::Dot | TokenKind::ColonColon => Self::CallIndex,
            TokenKind::Caret => Self::Postfix,
            _ => Self::Lowest,
        }
    }

    /// The place of this precedence in the order from loosest to tightest.
    pub fn level(self) -> (r: u8)
        ensures
            r == spec_level(self),
    {
        match self {
            Precedence::Lowest => 0,
            Precedence::Assign => 1,
            Precedence::Range => 2,
            Precedence::Or => 3,
            Precedence::And => 4,
            Precedence::Comparison => 5,
            Precedence::LessGreater => 6,
            Precedence::Is => 7,
            Precedence::Sum => 8,
            Precedence::Product => 9,
            Precedence::Prefix => 10,
            Precedence::CallIndex => 11,
            Precedence::Postfix => 12,
        }
    }
}

/// Settings that travel down through the parsing of an expression.
#[derive(Clone, Copy, Debug)]
pub struct ParserCtx {
    /// toggled on in match arms, toggled back off in `{}`, `()`, `[]`
    pub stop_on_newline_is: bool,
}

/// The parser tells statements from expressions only to refuse code such as `let x = let y = 3`:
/// after a statement (`impl {}`, `fn ...`) it takes no infix operator.
#[derive(Clone, Copy, PartialEq, Eq, Debug, Structural)]
pub enum StmtKind {
    Stmt,
    Expr,
    Let,
    NestedLet,
}

/// The precedences of the binary operators: `and`, `or`, comparisons and arithmetic.
pub open spec fn is_binary_precedence(p: Precedence) -> bool {
    p == Precedence::And || p == Precedence::Or || p == Precedence::Comparison
        || p == Precedence::LessGreater || p == Precedence::Sum || p == Precedence::Product
}

impl<'a> Parser<'a> {
    pub(super) fn parse_expression_default(&mut self, ctx: ParserCtx) -> (r: ExprId)
        requires
            old(self).inv(),
        ensures
            final(self).stepped(old(self)),
            final(self).progressed(old(self)),
            1 <= r.0 < final(self).ast.exprs@.len(),
            // a node made here
            old(self).ast.exprs@.len() <= r.0,
        decreases old(self).tokens@.len() - old(self).curr_token_pos, 4nat,
    {
        self.parse_expression(Precedence::Lowest, ctx)
    }

    pub(super) fn parse_expression(&mut self, precedence: Precedence, ctx: ParserCtx) -> (r: ExprId)
        requires
            old(self).inv(),
        ensures
            final(self).stepped(old(self)),
            final(self).progressed(old(self)),
            1 <= r.0 < final(self).ast.exprs@.len(),
            // a node made here
            old(self).ast.exprs@.len() <= r.0,
            // an operand of one literal token, followed by an operator that binds no tighter than
            // `precedence` (or by no operator at all), is the whole expression: the parse stops
            // before that operator, which is what makes operators of one precedence left-associative
            is_atom_token(old(self).spec_peek().token)
                && spec_level(spec_precedence(old(self).spec_peek_further().token)) <= spec_level(precedence) ==>
                final(self).curr_token_pos == old(self).curr_token_pos + 1
                && (final(self).ast.exprs@[r.0 as int] is Literal || final(self).ast.exprs@[r.0 as int] is ParserError),
            // an operand of one literal token, followed on its line by an operator that binds
            // tighter than `precedence`, takes that operator in: the expression goes on past it
            is_atom_token(old(self).spec_peek().token)
                && is_binary_precedence(spec_precedence(old(self).spec_peek_further().token))
                && spec_level(spec_precedence(old(self).spec_peek_further().token)) > spec_level(precedence)
                && old(self).spec_peek_further().span.line == old(self).spec_peek().span.line ==>
                r.0 > old(self).ast.exprs@.len() && final(self).curr_token_pos >= old(self).curr_token_pos + 2,
        decreases old(self).tokens@.len() - old(self).curr_token_pos, 3nat,
    {
        self.parse_expression_or_statement(precedence, ctx, false).0
    }

    /// A prefix, then every infix operator that binds tighter than `precedence` (a Pratt parser).
    pub(super) fn parse_expression_or_statement(&mut self, precedence: Precedence, ctx: ParserCtx, allow_stmt: bool) -> (r: (ExprId, StmtKind))
        requires
            old(self).inv(),
        ensures
            final(self).stepped(old(self)),
            final(self).progressed(old(self)),
            1 <= r.0.0 < final(self).ast.exprs@.len(),
            // a node made here
            old(self).ast.exprs@.len() <= r.0.0,
            // an operand of one literal token, followed by an operator that binds no tighter than
            // `precedence` (or by no operator at all), is the whole expression: the parse stops
            // before that operator, which is what makes operators of one precedence left-associative
            is_atom_token(old(self).spec_peek().token)
                && spec_level(spec_precedence(old(self).spec_peek_further().token)) <= spec_level(precedence) ==>
                final(self).curr_token_pos == old(self).curr_token_pos + 1
                && (final(self).ast.exprs@[r.0.0 as int] is Literal || final(self).ast.exprs@[r.0.0 as int] is ParserError),
            is_atom_token(old(self).spec_peek().token)
                && spec_level(spec_precedence(old(self).spec_peek_further().token)) <= spec_level(precedence) ==>
                r.1 == StmtKind::Expr,
            // an operand of one literal token, followed on its line by an operator that binds
            // tighter than `precedence`, takes that operator in: the expression goes on past it
            is_atom_token(old(self).spec_peek().token)
                && is_binary_precedence(spec_precedence(old(self).spec_peek_further().token))
                && spec_level(spec_precedence(old(self).spec_peek_further().token)) > spec_level(precedence)
                && old(self).spec_peek_further().span.line == old(self).spec_peek().span.line ==>
                r.0.0 > old(self).ast.exprs@.len() && final(self).curr_token_pos >= old(self).curr_token_pos + 2,
        decreases old(self).tokens@.len() - old(self).curr_token_pos, 2nat,
    {
        let ghost atom_case = is_atom_token(old(self).spec_peek().token)
            && spec_level(spec_precedence(old(self).spec_peek_further().token)) <= spec_level(precedence);
        let ghost atom_up = is_atom_token(old(self).spec_peek().token)
            && is_binary_precedence(spec_precedence(old(self).spec_peek_further().token))
            && spec_level(spec_precedence(old(self).spec_peek_further().token)) > spec_level(precedence)
            && old(self).spec_peek_further().span.line == old(self).spec_peek().span.line;
        let (first_expr, first_stmt) = self.parse_prefix(ctx);
        proof {
            self.lemma_inv();
            if atom_up {
                assert(old(self).curr_token_pos + 1 < old(self).tokens@.len());
            }
        }
        let mut left_expr = first_expr;
        let mut is_stmt = first_stmt;

        loop
            invariant
                self.stepped(old(self)),
                self.progressed(old(self)),
                1 <= left_expr.0 < self.ast.exprs@.len(),
                old(self).ast.exprs@.len() <= left_expr.0,
                atom_case ==> spec_level(spec_precedence(old(self).spec_peek_further().token)) <= spec_level(precedence),
                atom_up ==> spec_level(spec_precedence(old(self).spec_peek_further().token)) > spec_level(precedence)
                    && is_binary_precedence(spec_precedence(old(self).spec_peek_further().token))
                    && old(self).spec_peek_further().span.line == old(self).spec_peek().span.line,
                atom_up ==> (left_expr.0 == old(self).ast.exprs@.len() && is_stmt == StmtKind::Expr
                    && self.curr_token_pos == old(self).curr_token_pos + 1 && old(self).curr_token_pos < self.tokens@.len()
                    && self.spec_peek() == old(self).spec_peek_further()
                    && self.prev_token_span == old(self).spec_peek().span)
                    || (left_expr.0 > old(self).ast.exprs@.len() && self.curr_token_pos >= old(self).curr_token_pos + 2),
                atom_case ==> left_expr == first_expr && is_stmt == StmtKind::Expr
                    && self.curr_token_pos == old(self).curr_token_pos + 1
                    && self.spec_peek() == old(self).spec_peek_further()
                    && (self.ast.exprs@[left_expr.0 as int] is Literal || self.ast.exprs@[left_expr.0 as int] is ParserError),
            ensures
                self.stepped(old(self)),
                self.progressed(old(self)),
                1 <= left_expr.0 < self.ast.exprs@.len(),
                old(self).ast.exprs@.len() <= left_expr.0,
                atom_case ==> left_expr == first_expr && is_stmt == StmtKind::Expr
                    && self.curr_token_pos == old(self).curr_token_pos + 1
                    && (self.ast.exprs@[left_expr.0 as int] is Literal || self.ast.exprs@[left_expr.0 as int] is ParserError),
                atom_up ==> left_expr.0 > old(self).ast.exprs@.len() && self.curr_token_pos >= old(self).curr_token_pos + 2,
            decreases self.tokens@.len() - self.curr_token_pos,
        {
            let peek_op = self.peek();

            match is_stmt {
                // statements (x = 2, fn ...) can't consume infix operators
                StmtKind::Stmt => { break; },
                // `let` or `(let a, b)` can ONLY be followed by `=`
                StmtKind::Let | StmtKind::NestedLet => {
                    if peek_op.token != (TokenKind::Assign { extra_op: None }) {
                        break;
                    }
                },
                _ => {},
            }

            // `..=` has the precedence of a range but no infix rule: the expression ends before it
            if peek_op.token == TokenKind::DotDotEqual {
                break;
            }

            let op_precedence = Precedence::get_precedence(peek_op.token);

            // Not an infix operator.
            if op_precedence.level() == 0 {
                break;
            }

            // only includes the next operator if it binds stronger than the current one.
            if precedence.level() >= op_precedence.level() {
                break;
            }

            // operators that are not allowed to be line-split, so that semicolons are never needed
            if !self.peek_is_on_same_line() && (
                matches!(peek_op.token, TokenKind::LeftParen | TokenKind::LeftBracket)
                || (matches!(peek_op.token, TokenKind::Is) && ctx.stop_on_newline_is)
            ) {
                break;
            }

            // special handling for normal Ops: + - * / ...
            if let TokenKind::Op(_) = peek_op.token {
                // this is an infix operator: `5 \n - 2`, this is NOT: `5 \n -2`
                if !self.peek_is_on_same_line() && self.peek_spaces_after() == 0 {
                    break;
                }

                if self.peek_is_on_same_line() && self.peek_further_is_on_same_line() {
                    proof { self.lemma_after_plain(); }
                    // warnings for uneven spacing around infix operator `5- 2`
                    if self.peek_spaces_before() != self.peek_spaces_after() {
                        self.warn(WarnType::ParserInconsistentSpacingAroundInfixOp { op: peek_op.token });
                    }
                }
            }

            proof { self.lemma_inv(); }
            self.next(); // consume the operator

            let (new_left, new_stmt) = self.parse_infix(left_expr, peek_op, op_precedence, ctx);
            left_expr = new_left;
            is_stmt = new_stmt;
        }

        if (!allow_stmt && is_stmt != StmtKind::Expr) || is_stmt == StmtKind::NestedLet {
            // not allowed in expression context (`some_func((let a, let b))`, `1 + let x`)
            // or plain `(let a, let b)` without `=`
            proof { self.lemma_inv(); }
            let span = self.ast.get_expr_span(left_expr);
            self.error_with_span(ErrType::ParserOnlyAllowedInStatementPosition, span);
        }

        (left_expr, is_stmt)
    }

    /// The rest of an infix expression, after its operator `op` was consumed.
    fn parse_infix(&mut self, left_expr: ExprId, op: TokenSpan, op_precedence: Precedence, ctx: ParserCtx) -> (r: (ExprId, StmtKind))
        requires
            old(self).inv(),
            1 <= left_expr.0 < old(self).ast.exprs@.len(),
            op_precedence == spec_precedence(op.token),
            op_precedence != Precedence::Lowest,
            op.token != TokenKind::DotDotEqual,
            old(self).after_plain_token(),
        ensures
            final(self).stepped(old(self)),
            1 <= r.0.0 < final(self).ast.exprs@.len(),
            // a node made here
            old(self).ast.exprs@.len() <= r.0.0,
            // what the operator builds around the left side
            // an operand of one literal token before an operator that binds no tighter than `op`
            // is the whole right side: `8 / 4 / 2` is `(8 / 4) / 2`
            is_binary_precedence(op_precedence) && is_atom_token(old(self).spec_peek().token)
                && spec_level(spec_precedence(old(self).spec_peek_further().token)) <= spec_level(op_precedence) ==>
                final(self).curr_token_pos == old(self).curr_token_pos + 1
                && (final(self).ast.exprs@[final(self).ast.exprs@[r.0.0 as int]->Infix_right.0 as int] is Literal
                    || final(self).ast.exprs@[final(self).ast.exprs@[r.0.0 as int]->Infix_right.0 as int] is ParserError),
            // and before an operator that binds tighter than `op`, the right side goes on past it:
            // `1 - 2 * 3` is `1 - (2 * 3)`
            is_binary_precedence(op_precedence) && is_atom_token(old(self).spec_peek().token)
                && is_binary_precedence(spec_precedence(old(self).spec_peek_further().token))
                && spec_level(spec_precedence(old(self).spec_peek_further().token)) > spec_level(op_precedence)
                && old(self).spec_peek_further().span.line == old(self).spec_peek().span.line ==>
                final(self).ast.exprs@[r.0.0 as int]->Infix_right.0 > old(self).ast.exprs@.len()
                && final(self).curr_token_pos >= old(self).curr_token_pos + 2,
            is_binary_precedence(op_precedence) ==> r.1 == StmtKind::Expr
                && (final(self).ast.exprs@[r.0.0 as int] matches Expr::Infix { op: o, op_span: s, left: l, .. }
                    && o == op.token && s == op.span && l == left_expr),
            op.token == TokenKind::Caret ==> r.1 == StmtKind::Expr
                && final(self).ast.exprs@[r.0.0 as int] == (Expr::Move { expr: left_expr }),
            op.token == TokenKind::LeftBracket ==> r.1 == StmtKind::Expr
                && (final(self).ast.exprs@[r.0.0 as int] matches Expr::Index { left: l, .. } && l == left_expr),
            op.token == TokenKind::LeftParen ==> r.1 == StmtKind::Expr
                && (final(self).ast.exprs@[r.0.0 as int] matches Expr::Call { callee: c, .. } && c == left_expr),
            op.token matches TokenKind::Assign { extra_op: x } ==> r.1 == StmtKind::Stmt
                && (final(self).ast.exprs@[r.0.0 as int] matches Expr::Assign { extra_op: y, op_span: s, .. }
                    && y == x && s == op.span),
        decreases old(self).tokens@.len() - old(self).curr_token_pos, 6nat,
    {
        proof { self.lemma_inv(); }
        let start = self.ast.get_expr_span(left_expr);

        match op_precedence {
            Precedence::And | Precedence::Or | Precedence::Comparison
            | Precedence::LessGreater | Precedence::Sum | Precedence::Product => {
                let right = self.parse_expression(op_precedence, ctx);
                let expr = self.add_expr(start, Expr::Infix { op: op.token, op_span: op.span, left: left_expr, right });
                return (expr, StmtKind::Expr);
            },
            _ => {},
        }

        match op.token {
            TokenKind::Dot => {
                // supports both x.member and x.2
                let member = self.expect_identifier_relaxed("to name the member");
                let member_expr = self.add_expr(start, Expr::MemberAccess { left: left_expr, member });
                (self.wrap_in_optional_type_instantiation(member_expr), StmtKind::Expr)
            },
            TokenKind::ColonColon => {
                let member = self.expect_identifier("to name the path");
                (self.add_expr(start, Expr::TypeMemberAccess { left: left_expr, member }), StmtKind::Expr)
            },
            TokenKind::Assign { extra_op } => {
                let pattern = self.convert_expr_into_assign_pattern(left_expr);
                let value = self.parse_expression_default(ctx);
                (self.add_expr(start, Expr::Assign { pattern, value, extra_op, op_span: op.span }), StmtKind::Stmt)
            },
            TokenKind::Caret => {
                // move/clone operator
                (self.add_expr(start, Expr::Move { expr: left_expr }), StmtKind::Expr)
            },
            TokenKind::Is => {
                let pattern = self.parse_pattern(false, ctx);
                (self.add_expr(start, Expr::Is { value: left_expr, pattern }), StmtKind::Expr)
            },
            TokenKind::LeftParen => {
                let arguments = self.parse_comma_seperated_expressions(TokenKind::RightParen, "to close the function arguments list");
                (self.add_expr(start, Expr::Call { callee: left_expr, arguments }), StmtKind::Expr)
            },
            TokenKind::LeftBracket => {
                let index = self.parse_expression_default(ctx);
                self.expect_token(TokenKind::RightBracket, "to close the index expression");
                (self.add_expr(start, Expr::Index { left: left_expr, index }), StmtKind::Expr)
            },
            TokenKind::DotDot => {
                let right = self.parse_expression_default(ctx);
                let range_type = self.add_expr(start, Expr::IdentifierRef { name: "Range".to_string(), mutable: false });
                let elems = vec![
                    AstTupleElement { label: "start".to_string(), expr: left_expr },
                    AstTupleElement { label: "end".to_string(), expr: right },
                ];
                let data = self.add_expr(start, Expr::Tuple { elems });
                (self.add_expr(start, Expr::TypeInstantiation { typ: range_type, data }), StmtKind::Expr)
            },
            _ => {
                // every other token has the precedence `Lowest` or one handled above
                proof { assert(false); }
                (left_expr, StmtKind::Expr)
            },
        }
    }

    /// One expression that starts with a prefix token: a literal, a name, a block, a keyword form...
    #[verifier::rlimit(100)]
    #[verifier::spinoff_prover]
    pub(super) fn parse_prefix(&mut self, ctx: ParserCtx) -> (r: (ExprId, StmtKind))
        requires
            old(self).inv(),
        ensures
            final(self).stepped(old(self)),
            final(self).progressed(old(self)),
            1 <= r.0.0 < final(self).ast.exprs@.len(),
            // a node made here
            old(self).ast.exprs@.len() <= r.0.0,
            // a literal token is a literal expression with the value its text writes
            old(self).curr_token_pos < old(self).tokens@.len() ==> ({
                let t = old(self).tokens@[old(self).curr_token_pos as int];
                let text = old(self).span_text(t.span);
                let e = final(self).ast.exprs@[r.0.0 as int];
                &&& t.token matches TokenKind::Bool(b) ==> e == (Expr::Literal { val: AstValue::Bool(b) })
                &&& t.token == TokenKind::NumFloat ==> (e matches Expr::Literal { val: AstValue::NumFloat(f) } && f@ == text)
                &&& t.token == TokenKind::NumInt && is_int_literal_text(text) && spec_int_value(text) <= i64::MAX ==>
                    e == (Expr::Literal { val: AstValue::NumInt(spec_int_value(text) as i64) })
                &&& t.token == TokenKind::NumInt && !(is_int_literal_text(text) && spec_int_value(text) <= i64::MAX) ==>
                    e == Expr::ParserError
                    && final(self).error_data.errors@ == old(self).error_data.errors@.push(ProgramError { span: t.span, err_type: ErrType::ParserNumberParseError })
                // a name is a reference to it, instantiated where a `{` follows at once
                &&& t.token == TokenKind::Identifier ==> {
                    let nx = old(self).spec_peek_further();
                    if nx.token == TokenKind::LeftBrace && nx.span.byte_offset == t.span.byte_offset + t.span.length {
                        e is TypeInstantiation
                    } else {
                        e == (Expr::IdentifierRef { name: e->IdentifierRef_name, mutable: false })
                            && e->IdentifierRef_name@ == text
                    }
                }
            }),
            // a literal token is consumed alone
            is_atom_token(old(self).spec_peek().token) ==>
                final(self).curr_token_pos == old(self).curr_token_pos + 1 && r.1 == StmtKind::Expr
                && r.0.0 == old(self).ast.exprs@.len()
                && (final(self).ast.exprs@[r.0.0 as int] is Literal || final(self).ast.exprs@[r.0.0 as int] is ParserError),
            // the expression that each other token starts
            prefix_shape(old(self).spec_peek().token, final(self).ast.exprs@[r.0.0 as int]),
            // `if` parses its condition, then its branch, then the `else` branch (`void` where
            // there is none), in this order
            old(self).spec_peek().token == TokenKind::If ==>
                (final(self).ast.exprs@[r.0.0 as int] matches Expr::If { condition, then, alt, .. }
                    && old(self).ast.exprs@.len() <= condition.0 < then.0 < alt.0 < r.0.0),
            // a token that starts no expression is reported
            !is_expression_start(old(self).spec_peek().token) ==>
                final(self).ast.exprs@[r.0.0 as int] == Expr::ParserError
                && final(self).error_data.errors@ == old(self).error_data.errors@.push(ProgramError {
                    span: old(self).spec_peek().span, err_type: ErrType::ParserExpectedAnExpression { found: old(self).spec_peek().token } }),
        decreases old(self).tokens@.len() - old(self).curr_token_pos, 1nat,
    {
        proof { self.lemma_inv(); }
        let op = self.next();
        let start = op.span;
        proof {
            self.lemma_inv();
            // only the end token has the kind `EndOfFile` among what `next` can give once at the end
            if old(self).curr_token_pos >= old(self).tokens@.len() {
                assert(op.token == TokenKind::EndOfFile);
            }
        }

        match op.token {
            TokenKind::Exclamation | TokenKind::Op(AssignOp::Minus) => {
                if self.peek_spaces_before() > 0 {
                    self.warn_with_span(WarnType::ParserUnnecessarySpacingAfterPrefixOp { op: op.token }, op.span);
                }
                let right = self.parse_expression(Precedence::Prefix, ctx);
                (self.add_expr(start, Expr::Prefix { op: op.token, right }), StmtKind::Expr)
            },
            TokenKind::Op(AssignOp::Star) => {
                let expr = self.parse_expression(Precedence::Prefix, ctx);
                (self.add_expr(start, Expr::Move { expr }), StmtKind::Expr)
            },
            TokenKind::Identifier => {
                let name = self.get_from_source(op.span).to_string();
                let name_expr = self.add_expr(start, Expr::IdentifierRef { name, mutable: false });
                (self.wrap_in_optional_type_instantiation(name_expr), StmtKind::Expr)
            },
            TokenKind::Mut => {
                let name = self.expect_identifier("after mut");
                (self.add_expr(start, Expr::IdentifierRef { name, mutable: true }), StmtKind::Expr)
            },
            TokenKind::NumInt => {
                let text = self.get_from_source(start);
                if int_literal_fits(text) {
                    let num = lex_num_int_from(text);
                    (self.add_expr(start, Expr::Literal { val: AstValue::NumInt(num) }), StmtKind::Expr)
                } else {
                    self.error_with_span(ErrType::ParserNumberParseError, start);
                    (self.add_expr(start, Expr::ParserError), StmtKind::Expr)
                }
            },
            TokenKind::NumFloat => {
                let text = self.get_from_source(start).to_string();
                (self.add_expr(start, Expr::Literal { val: AstValue::NumFloat(text) }), StmtKind::Expr)
            },
            TokenKind::Bool(val) => (self.add_expr(start, Expr::Literal { val: AstValue::Bool(val) }), StmtKind::Expr),
            TokenKind::LeftBrace => (self.parse_block_expression(TokenKind::RightBrace, start), StmtKind::Expr),
            TokenKind::LeftParen => self.parse_tuple_or_arr_expression(start, TokenKind::RightParen, true, true),
            TokenKind::StringStart => {
                let mut elems: Vec<ExprId> = Vec::new();
                let mut only_string_frags = true;
                loop
                    invariant
                        self.stepped(old(self)),
                        self.curr_token_pos > old(self).curr_token_pos,
                        forall|k: int| 0 <= k < elems@.len() ==> 1 <= (#[trigger] elems@[k]).0 < self.ast.exprs@.len(),
                        forall|k: int| 0 <= k < elems@.len() ==> old(self).ast.exprs@.len() <= (#[trigger] elems@[k]).0,
                        only_string_frags ==> forall|k: int| 0 <= k < elems@.len() ==>
                            (self.ast.exprs@[(#[trigger] elems@[k]).0 as int] matches Expr::Literal { val } && val is Str),
                    decreases self.tokens@.len() - self.curr_token_pos,
                {
                    if self.optional_token(TokenKind::StringEnd) {
                        break;
                    }
                    let before = self.curr_token_pos;
                    if self.optional_token(TokenKind::StringFrag) {
                        // the string's value is taken from the source here
                        let source_frag = self.get_from_source(self.prev_token_span);
                        let s = lex_string_from(source_frag);
                        let span = self.prev_token_span;
                        elems.push(self.add_expr(span, Expr::Literal { val: AstValue::Str(s) }));
                    }
                    if self.optional_token(TokenKind::LeftBrace) {
                        elems.push(self.parse_expression_default(ctx));
                        only_string_frags = false;
                        self.expect_token(TokenKind::RightBrace, "to close string interpolation");
                    }
                    if self.curr_token_pos == before {
                        // the lexer reported this string as unterminated; nothing more belongs to it
                        break;
                    }
                }
                if elems.len() == 1 && only_string_frags {
                    (elems[0], StmtKind::Expr)
                } else if elems.len() == 0 {
                    (self.add_expr(start, Expr::Literal { val: AstValue::Str(String::new()) }), StmtKind::Expr)
                } else {
                    (self.add_expr(start, Expr::TemplateString { elems }), StmtKind::Expr)
                }
            },
            TokenKind::Let => {
                // only an EmptyLet, because let has more uses: `(a, let b) = 2`, `x is let .Some(a)`
                let pattern = self.parse_pattern(true, ctx);
                (self.add_expr(start, Expr::EmptyLet { pattern }), StmtKind::Let)
            },
            TokenKind::Const => {
                let pattern = self.parse_pattern(true, ctx);
                self.expect_token(TokenKind::Assign { extra_op: None }, "to assign a value to the const.");
                let value = self.parse_expression_default(ctx);
                (self.add_expr(start, Expr::Const { pattern, value }), StmtKind::Stmt)
            },
            TokenKind::Type => {
                let name = self.expect_identifier("to name the type");
                self.expect_token(TokenKind::Assign { extra_op: None }, "to assign a value to the type.");
                let value = self.parse_expression_default(ctx);
                (self.add_expr(start, Expr::CustomType { name, value }), StmtKind::Stmt)
            },
            TokenKind::If => {
                let condition = self.parse_expression(Precedence::Lowest, ctx);
                let then = self.parse_arrow_or_block_expression("if", ctx);
                let alt = if self.optional_token(TokenKind::Else) {
                    self.parse_expression_default(ctx)
                } else {
                    proof { self.lemma_inv(); }
                    let then_span = self.ast.get_expr_span(then);
                    self.add_expr(then_span.to_0_width_right(), Expr::Void)
                };
                (self.add_expr(start, Expr::If { condition, then, alt, never_alt: false }), StmtKind::Expr)
            },
            TokenKind::Ensure => {
                let condition = self.parse_expression(Precedence::Lowest, ctx);
                self.expect_token(TokenKind::Else, "after the ensure condition");
                let alt = self.parse_expression_default(ctx);

                if !self.optional_token(TokenKind::Semicolon) && self.peek_is_on_same_line() && self.peek_is_expression_start() {
                    self.error(ErrType::MultipleExprsWithoutSemicolon);
                }

                let then_start = self.prev_token_span.to_0_width_right();
                let then_exprs = self.parse_line_seperated(TokenKind::RightBrace, false, ctx, true);
                let then = self.add_expr(then_start, Expr::Block { exprs: then_exprs, label: None });
                (self.add_expr(start, Expr::If { condition, then, alt, never_alt: true }), StmtKind::Stmt)
            },
            TokenKind::While => {
                let label = match self.optional_label() { Some(l) => l, None => "while".to_string() };
                let condition = self.parse_expression_default(ctx);
                let body = self.parse_arrow_or_block_expression("while", ctx);
                (self.add_expr(start, Expr::While { condition, body, label }), StmtKind::Expr)
            },
            TokenKind::For => {
                let label = match self.optional_label() { Some(l) => l, None => "for".to_string() };
                let pattern = self.parse_pattern(true, ctx);
                self.expect_token(TokenKind::In, "after for-loop pattern");
                let iter_expr = self.parse_expression_default(ctx);
                let body = self.parse_arrow_or_block_expression("for", ctx);
                (self.add_expr(start, Expr::For { pattern, iter_expr, body, label }), StmtKind::Expr)
            },
            TokenKind::Loop => {
                let label = match self.optional_label() { Some(l) => l, None => "loop".to_string() };
                let body = self.parse_arrow_or_block_expression("loop", ctx);
                (self.add_expr(start, Expr::Loop { body, label }), StmtKind::Expr)
            },
            TokenKind::Match => {
                let match_value = self.parse_expression(Precedence::Is, ctx);
                let mut arms: Vec<AstMatchArm> = Vec::new();
                while self.optional_token(TokenKind::Is)
                    invariant
                        self.stepped(old(self)),
                        self.curr_token_pos > old(self).curr_token_pos,
                        1 <= match_value.0 < self.ast.exprs@.len(),
                        forall|k: int| 0 <= k < arms@.len() ==> (#[trigger] arms@[k]).pattern.0 < self.ast.patterns@.len()
                            && 1 <= arms@[k].body.0 < self.ast.exprs@.len(),
                    decreases self.tokens@.len() - self.curr_token_pos,
                {
                    let pattern = self.parse_pattern(false, ctx);
                    let body = self.parse_arrow_or_block_expression("match arm", ParserCtx { stop_on_newline_is: true });
                    self.optional_token(TokenKind::Comma);
                    arms.push(AstMatchArm { pattern, body });
                }
                (self.add_expr(start, Expr::Match { match_value, arms }), StmtKind::Expr)
            },
            TokenKind::Enum => {
                self.expect_token(TokenKind::LeftBrace, "to open the enum definition block");
                let mut variants: Vec<AstEnumExpression> = Vec::new();
                loop
                    invariant
                        self.stepped(old(self)),
                        self.curr_token_pos > old(self).curr_token_pos,
                        forall|k: int| 0 <= k < variants@.len() ==>
                            crate::parsing::ast::opt_expr_lt((#[trigger] variants@[k]).attached_tuple, self.ast.exprs@.len())
                            && crate::parsing::ast::opt_expr_all(variants@[k].attached_tuple, |c: ExprId| c.0 >= 1),
                    decreases self.tokens@.len() - self.curr_token_pos,
                {
                    if self.peek().token == TokenKind::RightBrace {
                        break;
                    }
                    variants.push(self.parse_enum_variant());
                    if !self.optional_token(TokenKind::Comma) {
                        break;
                    }
                }
                self.expect_token(TokenKind::RightBrace, "to close the enum definition block");
                (self.add_expr(start, Expr::EnumDefinition { variants }), StmtKind::Expr)
            },
            TokenKind::Impl => {
                let typ = self.parse_expression_default(ctx);
                self.expect_token(TokenKind::LeftBrace, "to open the impl definition block");
                let const_exprs = self.parse_line_seperated(TokenKind::RightBrace, true, ctx, false);
                (self.add_expr(start, Expr::ImplBlock { typ, const_exprs }), StmtKind::Stmt)
            },
            TokenKind::ImplSelf => (self.add_expr(start, Expr::ImplSelf), StmtKind::Expr),
            TokenKind::Colon => {
                // enum variant!
                let data = self.parse_enum_variant();
                (self.add_expr(start, Expr::EnumVariant { data }), StmtKind::Expr)
            },
            TokenKind::Fn => {
                let name = self.expect_identifier("to name the function");
                self.expect_token(TokenKind::LeftParen, "to open the fn definition paramter list");
                let params = self.parse_parameter_list(TokenKind::RightParen, ctx);
                let return_type = if self.optional_token(TokenKind::MinusArrow) {
                    Some(self.parse_expression(Precedence::Lowest, ctx))
                } else {
                    None
                };
                let body = self.parse_arrow_or_block_expression("function body", ctx);
                let closure = AstClosure { params, return_type, body };
                (self.add_expr(start, Expr::FnDefinition { name, closure }), StmtKind::Stmt)
            },
            TokenKind::Pipe => {
                // Closure!
                let params = self.parse_parameter_list(TokenKind::EqualArrow, ctx);
                let body = self.parse_expression_default(ctx);
                let closure = AstClosure { params, return_type: None, body };
                (self.add_expr(start, Expr::Closure { closure, requires_type_annotation: false }), StmtKind::Expr)
            },
            TokenKind::Return => {
                let expr = self.parse_optional_expression_or_void(ctx);
                (self.add_expr(start, Expr::Return { expr }), StmtKind::Expr)
            },
            TokenKind::Break => {
                let label = self.optional_label();
                let expr = self.parse_optional_expression_or_void(ctx);
                (self.add_expr(start, Expr::Break { expr, label }), StmtKind::Expr)
            },
            TokenKind::Continue => {
                let label = self.optional_label();
                (self.add_expr(start, Expr::Continue { label }), StmtKind::Expr)
            },
            TokenKind::Ampersand => {
                let mutable = self.optional_token(TokenKind::Mut);
                let expr = self.parse_expression(Precedence::Prefix, ctx);
                (self.add_expr(start, Expr::Borrow { expr, mutable }), StmtKind::Expr)
            },
            _ => {
                self.error_with_span(ErrType::ParserExpectedAnExpression { found: op.token }, op.span);
                (self.add_expr(start, Expr::ParserError), StmtKind::Expr)
            },
        }
    }

    /// The patterns of a parameter list, up to and including `end_token`.
    fn parse_parameter_list(&mut self, end_token: TokenKind, ctx: ParserCtx) -> (r: Vec<PatternId>)
        requires
            old(self).inv(),
        ensures
            final(self).stepped(old(self)),
            forall|k: int| 0 <= k < r@.len() ==> (#[trigger] r@[k]).0 < final(self).ast.patterns@.len(),
            // no parameters exactly where the list closes at once
            (r@.len() == 0) == (old(self).spec_peek().token == end_token),
        decreases old(self).tokens@.len() - old(self).curr_token_pos, 6nat,
    {
        let mut params: Vec<PatternId> = Vec::new();
        loop
            invariant
                self.stepped(old(self)),
                forall|k: int| 0 <= k < params@.len() ==> (#[trigger] params@[k]).0 < self.ast.patterns@.len(),
                params@.len() == 0 ==> self.curr_token_pos == old(self).curr_token_pos,
                params@.len() > 0 ==> old(self).spec_peek().token != end_token,
            ensures
                self.stepped(old(self)),
                forall|k: int| 0 <= k < params@.len() ==> (#[trigger] params@[k]).0 < self.ast.patterns@.len(),
                (params@.len() == 0) == (old(self).spec_peek().token == end_token),
            decreases self.tokens@.len() - self.curr_token_pos,
        {
            if self.peek().token == end_token {
                break;
            }
            let ghost before = self.curr_token_pos;
            params.push(self.parse_pattern(true, ctx));
            if !self.optional_token(TokenKind::Comma) {
                break;
            }
        }
        self.expect_token(end_token, "to close the fn definition parameter list");
        params
    }

    /// A block whose `{` (or start) was already consumed, up to and including `end_token`.
    pub(super) fn parse_block_expression(&mut self, end_token: TokenKind, start: Span) -> (r: ExprId)
        requires
            old(self).inv(),
        ensures
            final(self).stepped(old(self)),
            1 <= r.0 < final(self).ast.exprs@.len(),
            r.0 == final(self).ast.exprs@.len() - 1,
            r.0 >= old(self).ast.exprs@.len(),
            final(self).ast.exprs@[r.0 as int] is Block,
            forall|i: int| 0 <= i < final(self).ast.patterns@.len() ==>
                crate::parsing::ast::pattern_children_lt(#[trigger] final(self).ast.patterns@[i], r.0 as nat, final(self).ast.patterns@.len()),
            // without a label, the block is empty exactly where it ends at once
            old(self).spec_peek().token != TokenKind::Hashtag ==>
                final(self).ast.exprs@[r.0 as int]->Block_label is None
                && ((final(self).ast.exprs@[r.0 as int]->Block_exprs@.len() == 0)
                    == (old(self).spec_peek().token == end_token || old(self).spec_peek().token == TokenKind::EndOfFile)),
        decreases old(self).tokens@.len() - old(self).curr_token_pos, 7nat,
    {
        let label = self.optional_label();
        let exprs = self.parse_line_seperated(end_token, true, ParserCtx { stop_on_newline_is: false }, true);
        proof { self.lemma_inv(); }
        self.add_expr(start, Expr::Block { exprs, label })
    }

    /// Expressions separated by newlines or `;`, up to `end_token` (consumed if `consume_end`).
    pub(super) fn parse_line_seperated(&mut self, end_token: TokenKind, consume_end: bool, parse_ctx: ParserCtx, add_semicolon_expr: bool) -> (r: Vec<ExprId>)
        requires
            old(self).inv(),
        ensures
            final(self).stepped(old(self)),
            forall|k: int| 0 <= k < r@.len() ==> 1 <= (#[trigger] r@[k]).0 < final(self).ast.exprs@.len(),
            // no expressions exactly where the end comes at once
            (r@.len() == 0) == (old(self).spec_peek().token == end_token || old(self).spec_peek().token == TokenKind::EndOfFile),
        decreases old(self).tokens@.len() - old(self).curr_token_pos, 5nat,
    {
        let mut list: Vec<ExprId> = Vec::new();
        proof { self.lemma_inv(); }
        while self.peek().token != end_token && self.peek().token != TokenKind::EndOfFile
            invariant
                self.stepped(old(self)),
                forall|k: int| 0 <= k < list@.len() ==> 1 <= (#[trigger] list@[k]).0 < self.ast.exprs@.len(),
                list@.len() == 0 ==> self.curr_token_pos == old(self).curr_token_pos,
                list@.len() > 0 ==> !(old(self).spec_peek().token == end_token || old(self).spec_peek().token == TokenKind::EndOfFile),
            decreases self.tokens@.len() - self.curr_token_pos,
        {
            // each line may be a statement (`let x = 5`, `fn f() {}`)
            let (expr, _) = self.parse_expression_or_statement(Precedence::Lowest, parse_ctx, true);
            list.push(expr);
            if self.optional_token(TokenKind::Semicolon) {
                if add_semicolon_expr {
                    let span = self.prev_token_span;
                    list.push(self.add_expr(span, Expr::Void));
                }
            } else if self.peek_is_on_same_line() && self.peek_is_expression_start() {
                // no semicolon -> the next expression can't be on the same line
                self.error(ErrType::MultipleExprsWithoutSemicolon);
            }
        }
        if consume_end && end_token != TokenKind::EndOfFile {
            self.expect_token(end_token, "to close the block");
        }
        list
    }

    /// `=> expr` or `{ ... }`.
    pub(super) fn parse_arrow_or_block_expression(&mut self, block_name: &str, ctx: ParserCtx) -> (r: ExprId)
        requires
            old(self).inv(),
        ensures
            final(self).stepped(old(self)),
            1 <= r.0 < final(self).ast.exprs@.len(),
            // a node made here
            old(self).ast.exprs@.len() <= r.0,
        decreases old(self).tokens@.len() - old(self).curr_token_pos, 1nat,
    {
        proof { self.lemma_inv(); }
        if self.optional_token(TokenKind::EqualArrow) {
            if !self.peek_is_on_same_line() {
                self.error(ErrType::ParserArrowExprsHaveToBeOnSameLine);
            }
            let expr = self.parse_expression_default(ctx);
            let span = self.prev_token_span;
            self.add_expr(span, Expr::Block { exprs: vec![expr], label: None })
        } else if self.optional_token(TokenKind::LeftBrace) {
            let span = self.prev_token_span;
            self.parse_block_expression(TokenKind::RightBrace, span)
        } else {
            let found = self.peek().token;
            self.error(ErrType::ParserExpectToken {
                expected: vec![TokenKind::EqualArrow, TokenKind::LeftBrace],
                err_msg: concat3("to open the ", block_name, " block"),
                found,
            });
            let span = self.prev_token_span;
            self.add_expr(span, Expr::ParserError)
        }
    }

    /// `Name` or `Name{ ... }`.
    fn parse_enum_variant(&mut self) -> (r: AstEnumExpression)
        requires
            old(self).inv(),
        ensures
            final(self).stepped(old(self)),
            crate::parsing::ast::opt_expr_lt(r.attached_tuple, final(self).ast.exprs@.len()),
            crate::parsing::ast::opt_expr_all(r.attached_tuple, |c: ExprId| c.0 >= 1),
            // the variant's name, and its data where a `{` follows the name
            old(self).spec_peek().token == TokenKind::Identifier ==>
                r.variant_name@ == old(self).span_text(old(self).spec_peek().span)
                && (r.attached_tuple is Some <==> old(self).spec_peek_further().token == TokenKind::LeftBrace),
        decreases old(self).tokens@.len() - old(self).curr_token_pos, 1nat,
    {
        let variant_name = self.expect_identifier("to name an enum variant");
        let attached_tuple = if self.optional_token(TokenKind::LeftBrace) {
            let span = self.prev_token_span;
            Some(self.parse_tuple_or_arr_expression(span, TokenKind::RightBrace, false, false).0)
        } else {
            None
        };
        AstEnumExpression { variant_name, attached_tuple }
    }

    /// `Number{ 3 }`: only where no space follows the name.
    fn wrap_in_optional_type_instantiation(&mut self, wrap: ExprId) -> (r: ExprId)
        requires
            old(self).inv(),
            old(self).after_plain_token(),
            1 <= wrap.0 < old(self).ast.exprs@.len(),
        ensures
            final(self).stepped(old(self)),
            1 <= r.0 < final(self).ast.exprs@.len(),
            r == wrap || old(self).ast.exprs@.len() <= r.0,
            // a `{` right after the name instantiates it, anything else leaves the name as it is
            ({
                let spaces = old(self).spec_peek().span.byte_offset
                    - (old(self).prev_token_span.byte_offset + old(self).prev_token_span.length);
                &&& spaces == 0 && old(self).spec_peek().token == TokenKind::LeftBrace ==>
                    (final(self).ast.exprs@[r.0 as int] matches Expr::TypeInstantiation { typ, .. } && typ == wrap)
                &&& !(spaces == 0 && old(self).spec_peek().token == TokenKind::LeftBrace) ==> r == wrap
                    && final(self).ast == old(self).ast
            }),
        decreases old(self).tokens@.len() - old(self).curr_token_pos, 1nat,
    {
        proof { self.lemma_inv(); }
        if self.peek_spaces_before() == 0 && self.optional_token(TokenKind::LeftBrace) {
            let span = self.prev_token_span;
            let data = self.parse_tuple_or_arr_expression(span, TokenKind::RightBrace, false, false).0;
            proof { self.lemma_inv(); }
            let wrap_span = self.ast.get_expr_span(wrap);
            self.add_expr(wrap_span, Expr::TypeInstantiation { typ: wrap, data })
        } else {
            wrap
        }
    }

    /// `(1, 2)`, `[1, 2]`: expressions separated by commas, up to and including `end_token`.
    fn parse_comma_seperated_expressions(&mut self, end_token: TokenKind, err_msg: &str) -> (r: Vec<ExprId>)
        requires
            old(self).inv(),
        ensures
            final(self).stepped(old(self)),
            forall|k: int| 0 <= k < r@.len() ==> 1 <= (#[trigger] r@[k]).0 < final(self).ast.exprs@.len(),
            // no expressions exactly where the list closes at once
            (r@.len() == 0) == (old(self).spec_peek().token == end_token),
        decreases old(self).tokens@.len() - old(self).curr_token_pos, 5nat,
    {
        let mut list: Vec<ExprId> = Vec::new();
        loop
            invariant
                self.stepped(old(self)),
                forall|k: int| 0 <= k < list@.len() ==> 1 <= (#[trigger] list@[k]).0 < self.ast.exprs@.len(),
                list@.len() == 0 ==> self.curr_token_pos == old(self).curr_token_pos,
                list@.len() > 0 ==> old(self).spec_peek().token != end_token,
            ensures
                self.stepped(old(self)),
                forall|k: int| 0 <= k < list@.len() ==> 1 <= (#[trigger] list@[k]).0 < self.ast.exprs@.len(),
                (list@.len() == 0) == (old(self).spec_peek().token == end_token),
            decreases self.tokens@.len() - self.curr_token_pos,
        {
            if self.peek().token == end_token {
                break;
            }
            list.push(self.parse_expression_default(ParserCtx { stop_on_newline_is: false }));
            if !self.optional_token(TokenKind::Comma) {
                break;
            }
        }
        self.expect_token(end_token, err_msg);
        list
    }

    /// One element of a tuple expression: `expr`, `label: expr` or the shorthand `label:`.
    fn parse_one_tuple_expression(&mut self, default_label: String, allow_let: bool, is_stmt: &mut StmtKind) -> (r: AstTupleElement)
        requires
            old(self).inv(),
        ensures
            final(self).stepped(old(self)),
            1 <= r.expr.0 < final(self).ast.exprs@.len(),
            old(self).ast.exprs@.len() <= r.expr.0,
        decreases old(self).tokens@.len() - old(self).curr_token_pos, 3nat,
    {
        let mut elem_stmt = StmtKind::Expr;
        let (label, expr) = if self.peek_one_further().token == TokenKind::Colon {
            // it's labeled!
            let label = self.expect_identifier("to label the tuple element");
            self.expect_token(TokenKind::Colon, "unreachable");
            let next = self.peek().token;
            if next == TokenKind::Comma || next == TokenKind::RightParen || next == TokenKind::RightBrace {
                // shorthand (x:, y:)
                let span = self.prev_token_span;
                let name = label.clone();
                (label, self.add_expr(span, Expr::IdentifierRef { name, mutable: false }))
            } else {
                // (x: 0, y: 1)
                let (expr, stmt) = self.parse_expression_or_statement(Precedence::Lowest, ParserCtx { stop_on_newline_is: false }, true);
                elem_stmt = stmt;
                (label, expr)
            }
        } else {
            // unlabeled tuple (1, 2)
            let (expr, stmt) = self.parse_expression_or_statement(Precedence::Lowest, ParserCtx { stop_on_newline_is: false }, true);
            elem_stmt = stmt;
            (default_label, expr)
        };

        match elem_stmt {
            StmtKind::Let | StmtKind::NestedLet => {
                if allow_let {
                    *is_stmt = StmtKind::NestedLet;
                } else {
                    proof { self.lemma_inv(); }
                    let span = self.ast.get_expr_span(expr);
                    self.error_with_span(ErrType::ParserOnlyAllowedInStatementPosition, span);
                }
            },
            StmtKind::Expr => {},
            StmtKind::Stmt => {
                proof { self.lemma_inv(); }
                let span = self.ast.get_expr_span(expr);
                self.error_with_span(ErrType::ParserOnlyAllowedInStatementPosition, span);
            },
        }

        AstTupleElement { label, expr }
    }

    /// A tuple `(1, 2)`, a tuple array `(true; 3)` or a grouped expression `(1)`; the opening token
    /// was consumed, the closing `end_token` is consumed here.
    fn parse_tuple_or_arr_expression(&mut self, start: Span, end_token: TokenKind, maybe_just_grouped_expr: bool, allow_let: bool) -> (r: (ExprId, StmtKind))
        requires
            old(self).inv(),
        ensures
            final(self).stepped(old(self)),
            1 <= r.0.0 < final(self).ast.exprs@.len(),
            // a node made here
            old(self).ast.exprs@.len() <= r.0.0,
        decreases old(self).tokens@.len() - old(self).curr_token_pos, 4nat,
    {
        let mut is_stmt = StmtKind::Expr;

        if self.optional_token(end_token) {
            // tuple is empty
            return (self.add_expr(start, Expr::Tuple { elems: Vec::new() }), is_stmt);
        }

        let first_elem = self.parse_one_tuple_expression("0".to_string(), allow_let, &mut is_stmt);

        let expr = if self.optional_token(TokenKind::Semicolon) {
            // `(true; 3)`
            let length = self.parse_expression_default(ParserCtx { stop_on_newline_is: false });
            self.expect_token(end_token, "to close the tuple array expression");
            self.add_expr(start, Expr::TupleArr { elem: first_elem.expr, length })
        } else if self.optional_token(TokenKind::Comma) {
            // comma => definitely a tuple
            let mut tuple_body: Vec<AstTupleElement> = vec![first_elem];
            let mut i: usize = 0;
            loop
                invariant
                    self.stepped(old(self)),
                    self.curr_token_pos > old(self).curr_token_pos,
                    forall|k: int| 0 <= k < tuple_body@.len() ==> 1 <= (#[trigger] tuple_body@[k]).expr.0 < self.ast.exprs@.len(),
                    i <= self.curr_token_pos,
                decreases self.tokens@.len() - self.curr_token_pos,
            {
                if self.peek().token == end_token {
                    break;
                }
                let label = usize_to_string(i + 1);
                tuple_body.push(self.parse_one_tuple_expression(label, allow_let, &mut is_stmt));
                if !self.optional_token(TokenKind::Comma) {
                    break;
                }
                i = i + 1;
            }
            self.expect_token(end_token, "to close the tuple");
            self.add_expr(start, Expr::Tuple { elems: tuple_body })
        } else if maybe_just_grouped_expr {
            self.expect_token(end_token, "to close the grouped expression");
            first_elem.expr
        } else {
            // 1-element tuple
            self.expect_token(end_token, "to close the tuple");
            self.add_expr(start, Expr::Tuple { elems: vec![first_elem] })
        };

        (expr, is_stmt)
    }

    /// An expression on the same line, or `Void`.
    fn parse_optional_expression_or_void(&mut self, ctx: ParserCtx) -> (r: ExprId)
        requires
            old(self).inv(),
        ensures
            final(self).stepped(old(self)),
            1 <= r.0 < final(self).ast.exprs@.len(),
            // a node made here
            old(self).ast.exprs@.len() <= r.0,
        decreases old(self).tokens@.len() - old(self).curr_token_pos, 5nat,
    {
        if self.peek_is_on_same_line() && self.peek_is_expression_start() {
            self.parse_expression_default(ctx)
        } else {
            let span = self.prev_token_span.to_0_width_right();
            self.add_expr(span, Expr::Void)
        }
    }
}

} // verus!
