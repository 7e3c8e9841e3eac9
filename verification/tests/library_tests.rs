use thrum_engine::{check_code, ErrType, ProgramErrorData, ProgramSourceData, WarnType};
use thrum_engine::error_location::format_error_location;
use thrum_engine::lexing::{int_literal_fits, lex_num_int_from, lex_string_from, parse_decimal_usize};
use thrum_engine::lexing::lexer::Lexer;
use thrum_engine::lexing::tokens::{AssignOp, Span, TokenKind};
use thrum_engine::nativelib::{get_native_lib, native_str_len};
use thrum_engine::parsing::Parser;
use thrum_engine::parsing::ast::{AstArena, AstTupleElement, AstValue, Expr, ExprId};
use thrum_engine::parsing::desugar::desugar_after_parsing;
use thrum_engine::pretty_printing::{slice_to_debug_string, slice_to_or_string, slice_to_string};
use thrum_engine::text::{is_whitespace, trim_end};
use thrum_engine::text::{str_eq, usize_to_string};
use thrum_engine::typing::{Type, TypeArena, TypeId, TypeTuple, TypedAst};
use thrum_engine::typing::check_expressions::{AutoDerefMode, CheckExprCtx};
use thrum_engine::typing::type_vars::{
    assign_refusal, eval_int_infix, merge_mem_states, use_refusal, TypeVarMemState, TypeVarScope, VarRefusal,
};
use thrum_engine::typing::TypeVarId;
use thrum_engine::typing::type_vars::TypeVarMemState as S;
use thrum_engine::vm_compiling::{NativeFn, VmValue};

fn outcome(code: &str) -> (Result<(), Vec<ErrType>>, Vec<WarnType>) {
    check_code(code).expect("the program could be checked")
}

// --- whole programs ---

#[test] fn valid_programs_check_without_errors() {
    for code in [
        "let x = 5; x^",
        "let mut x = 1; x = x^ + 1; x^",
        "const X = 2 * Y; const Y = 3; X^",
        "type N = int; N{ 2 } * N{ 3 }",
        "match true is true => 1, is false => 2",
        "const E = enum { A, B }; let e: E = :A; match e^ is :A => 1, is :B => 2",
        "fn square(x: int) -> int => x^ * x^\nsquare(3)",
        "let mut i = 0; while i^ < 3 { i = i^ + 1 }; i^",
        "let x; x = 5; x^ + 1",
        "let t = (a: 1, b: true); t.b^",
    ] {
        let (result, warnings) = outcome(code);
        assert!(result.is_ok(), "{code:?} failed: {result:?}");
        assert!(warnings.is_empty(), "{code:?} warned: {warnings:?}");
    }
}

#[test] fn mismatch_names_both_types() {
    let (result, _) = outcome("let x: int = true");
    let errs = result.unwrap_err();
    assert!(errs.iter().any(|e| matches!(e, ErrType::TyperMismatch { expected, found } if expected == "int" && found == "bool")), "{errs:?}");

    let (result, _) = outcome("let x: (int, bool) = (1, 2)");
    let errs = result.unwrap_err();
    assert!(errs.iter().any(|e| matches!(e, ErrType::TyperMismatch { expected, found } if expected == "bool" && found == "int")), "{errs:?}");
}

#[test] fn unused_warning_names_the_variable() {
    let (result, warnings) = outcome("let count = 5");
    assert!(result.is_ok());
    assert!(warnings.iter().any(|w| matches!(w, WarnType::UnusedVar { var } if var.name == "count")), "{warnings:?}");
}

#[test] fn undefined_identifier_names_it() {
    let errs = outcome("missing + 1").0.unwrap_err();
    assert!(errs.iter().any(|e| matches!(e, ErrType::TyperUndefinedIdentifier { name } if name == "missing")), "{errs:?}");
}

#[test] fn undefined_label_lists_the_labels_in_scope() {
    let errs = outcome("loop #outer { loop { break #nope } }").0.unwrap_err();
    assert!(errs.iter().any(|e| matches!(e, ErrType::TyperUndefinedLoopLabel { label, .. } if label == "nope")), "{errs:?}");
}

#[test] fn inclusive_range_is_no_expression() {
    // `..=` starts no expression
    let (res, _) = outcome("..= 5");
    let errs = res.expect_err("`..=` in prefix position fails");
    assert!(errs.iter().any(|e| matches!(e, ErrType::ParserExpectedAnExpression { found: TokenKind::DotDotEqual })), "{errs:?}");
    // and has no infix rule: the expression before it ends there
    let (res, _) = outcome("1 ..= 2");
    assert!(res.is_err());
}

#[test] fn lexer_errors_stop_before_parsing() {
    // the lexer's error is the only one, though the tokens would not parse either
    let errs = outcome("1 + ~").0.unwrap_err();
    assert_eq!(errs.len(), 1);
}

#[test] fn int_literal_too_large_is_an_error() {
    let errs = outcome("99999999999999999999").0.unwrap_err();
    assert!(errs.iter().any(|e| matches!(e, ErrType::ParserNumberParseError)), "{errs:?}");
}

#[test] fn or_pattern_lists_missing_names() {
    let errs = outcome("if (1, 2) is let (x, y) | (x, _) {}").0.unwrap_err();
    assert!(errs.iter().any(|e| matches!(e, ErrType::TyperOrPatternDoesntBindVars { vars } if vars == &vec!["y".to_string()])), "{errs:?}");
}

// --- stages ---

#[test] fn lexer_tokens_and_lines() {
    let mut data = ProgramErrorData::new();
    let (tokens, lines) = Lexer::start(&mut data, "1 + 2\nx");
    assert!(data.errors.is_empty());
    let kinds: Vec<TokenKind> = tokens.iter().map(|t| t.token).collect();
    assert!(matches!(kinds.as_slice(), [TokenKind::NumInt, TokenKind::Op(AssignOp::Plus), TokenKind::NumInt, TokenKind::Identifier]), "{kinds:?}");
    assert_eq!(tokens[1].span.byte_offset, 2);
    assert_eq!(tokens[1].span.length, 1);
    assert_eq!(lines, vec![0, 6]);
}

#[test] fn wrong_number_of_arguments_gives_both_counts() {
    let errs = outcome("fn square(x: int) {}; square(2, 3)").0.unwrap_err();
    assert!(errs.iter().any(|e| matches!(e, ErrType::TyperWrongNumberOfArguments { expected: 1, found: 2 })), "{errs:?}");
    let errs = outcome("fn square(x: int) {}; square()").0.unwrap_err();
    assert!(errs.iter().any(|e| matches!(e, ErrType::TyperWrongNumberOfArguments { expected: 1, found: 0 })), "{errs:?}");
}

#[test] fn line_table_counts_line_breaks_outside_strings() {
    let mut data = ProgramErrorData::new();
    // line breaks at 1, 4 (inside the string) and 7
    let (_, lines) = Lexer::start(&mut data, "a\n\"b\nc\"\nd");
    assert!(data.errors.is_empty(), "{:?}", data.errors);
    assert_eq!(lines, vec![0, 2, 8]);
    // comments count their line breaks too
    let (_, lines) = Lexer::start(&mut data, "/* a\nb */ x // c\n");
    assert!(data.errors.is_empty(), "{:?}", data.errors);
    assert_eq!(lines, vec![0, 5, 17]);
}

#[test] fn program_block_is_empty_only_without_tokens() {
    for (source, empty) in [("", true), ("  // nothing\n", true), ("1", false), ("x = 2", false)] {
        let mut data = ProgramErrorData::new();
        let (tokens, _) = Lexer::start(&mut data, source);
        let ast = Parser::start(&mut data, source, &tokens);
        match &ast.exprs[0] {
            Expr::Block { exprs, label: None } => assert_eq!(exprs.is_empty(), empty, "{source:?}"),
            other => panic!("{other:?}"),
        }
    }
}

#[test] fn parser_puts_the_program_block_first() {
    let mut data = ProgramErrorData::new();
    let source = "let x = 1\nx^";
    let (tokens, _) = Lexer::start(&mut data, source);
    let ast = Parser::start(&mut data, source, &tokens);
    assert!(data.errors.is_empty(), "{:?}", data.errors);
    match &ast.exprs[0] {
        Expr::Block { exprs, .. } => assert_eq!(exprs.len(), 2),
        other => panic!("{other:?}"),
    }
}

#[test] fn typed_ast_starts_with_error_types() {
    let t = TypedAst::new(3, 2);
    assert_eq!(t.expr_types.len(), 3);
    assert!(t.expr_types.iter().all(|id| *id == TypeId(0)));
    assert_eq!(t.pattern_vars.len(), 2);
    assert!(t.vars.is_empty());
}

// --- laws on concrete values ---

#[test] fn type_arena_keeps_builtins_and_dedups() {
    let mut arena = TypeArena::new();
    assert_eq!(arena.types.len(), 8);
    assert_eq!(arena.add_type(Type::NumInt), TypeId(4));
    assert_eq!(arena.add_type(Type::Str), TypeId(7));
    let tup = || Type::Tup(vec![TypeTuple { label: "0".to_string(), typ: TypeId(4) }]);
    let a = arena.add_type(tup());
    let b = arena.add_type(tup());
    assert_eq!(a, b);
    assert_eq!(a, TypeId(8));
    assert_eq!(arena.types.len(), 9);
    let c = arena.add_type(Type::TupArr(TypeId(4), 3));
    assert_eq!(c, TypeId(9));
    assert!(matches!(arena.get_type(c), Type::TupArr(TypeId(4), 3)));
}

#[test] fn scope_read_after_write() {
    let mut scope = TypeVarScope::new();
    assert_eq!(scope.insert("x".to_string(), TypeVarId(1)), None);
    assert_eq!(scope.insert("y".to_string(), TypeVarId(2)), None);
    assert_eq!(scope.insert("x".to_string(), TypeVarId(3)), Some(TypeVarId(1)));
    assert_eq!(scope.get("x"), Some(TypeVarId(3)));
    assert_eq!(scope.get("y"), Some(TypeVarId(2)));
    assert_eq!(scope.get("z"), None);
}

#[test] fn branch_states_join() {
    assert_eq!(merge_mem_states(&vec![S::Init, S::NotInit]), S::MaybeInit);
    assert_eq!(merge_mem_states(&vec![S::NotInit, S::Init]), S::MaybeInit);
    assert_eq!(merge_mem_states(&vec![S::Init, S::Init]), S::Init);
    assert_eq!(merge_mem_states(&vec![S::Moved]), S::Moved);
    assert_eq!(merge_mem_states(&vec![S::Moved, S::Init]), S::MaybeMoved);
    assert_eq!(merge_mem_states(&vec![S::NotInit, S::NotInit]), S::NotInit);
    assert_eq!(merge_mem_states(&vec![S::Moved, S::NotInit]), S::Moved);
    // no branch finishes: nothing is known for sure
    assert_eq!(merge_mem_states(&vec![]), S::MaybeInit);
}

#[test] fn assigning_and_using_variables() {
    for state in [S::NotInit, S::Init, S::MaybeInit, S::Moved, S::MaybeMoved] {
        assert_eq!(assign_refusal(true, state), VarRefusal::Fine);
    }
    assert_eq!(assign_refusal(false, S::NotInit), VarRefusal::Fine);
    assert_eq!(assign_refusal(false, S::Init), VarRefusal::NotMutable);
    assert_eq!(assign_refusal(false, S::MaybeInit), VarRefusal::MaybeInitialized);
    assert_eq!(use_refusal(S::Init), VarRefusal::Fine);
    assert_eq!(use_refusal(S::Moved), VarRefusal::Moved);
    assert_eq!(use_refusal(S::NotInit), VarRefusal::Uninitialized);
    assert_eq!(use_refusal(S::MaybeMoved), VarRefusal::MaybeMoved);
    assert_eq!(use_refusal(S::MaybeInit), VarRefusal::MaybeInitialized);
}

#[test] fn span_merge() {
    let a = Span { line: 2, byte_offset: 10, length: 5 };
    let b = Span { line: 1, byte_offset: 3, length: 4 };
    let m = a.merge(b);
    assert_eq!((m.line, m.byte_offset, m.length), (1, 3, 12));
    let n = b.merge(a);
    assert_eq!((n.line, n.byte_offset, n.length), (1, 3, 12));
    let same = a.merge(a);
    assert_eq!((same.line, same.byte_offset, same.length), (2, 10, 5));
    let right = a.to_0_width_right();
    assert_eq!((right.byte_offset, right.length), (15, 0));
    let inv = Span::invalid();
    assert_eq!(inv.byte_offset, usize::MAX);
}

// --- text and numbers ---

#[test] fn numbers_as_text() {
    assert_eq!(usize_to_string(0), "0");
    assert_eq!(usize_to_string(1234), "1234");
    assert_eq!(usize_to_string(usize::MAX), usize::MAX.to_string());
}

#[test] fn int_literals() {
    assert_eq!(lex_num_int_from("1_000"), 1000);
    assert_eq!(lex_num_int_from("9223372036854775807"), i64::MAX);
    assert!(int_literal_fits("9223372036854775807"));
    assert!(!int_literal_fits("9223372036854775808"));
    assert!(!int_literal_fits("12a"));
    assert_eq!(parse_decimal_usize("12"), Some(12));
    assert_eq!(parse_decimal_usize("1a"), None);
    assert_eq!(parse_decimal_usize(""), None);
    assert_eq!(parse_decimal_usize("99999999999999999999999"), None);
}

#[test] fn strings() {
    assert_eq!(lex_string_from("a\\nb"), "a\\nb");
    assert!(str_eq("héllo", "héllo"));
    assert!(!str_eq("hello", "hellö"));
    assert!(!str_eq("a", "ab"));
}

#[test] fn slices_as_text() {
    let v = vec!["a".to_string(), "b".to_string(), "c".to_string()];
    assert_eq!(slice_to_string(&v, ", "), "a, b, c");
    assert_eq!(slice_to_string(&[], ", "), "");
    assert_eq!(slice_to_or_string(&v, "or"), "a, b or c");
    assert_eq!(slice_to_or_string(&v[..1], "or"), "a");
    assert_eq!(slice_to_or_string(&[], "or"), "");
    assert_eq!(slice_to_debug_string(&v[..2], " "), "\"a\" \"b\"");
}

// --- native library and constants ---

#[test] fn native_lib_contents() {
    let mut arena = TypeArena::new();
    let lib = get_native_lib(&mut arena);
    let names: Vec<&str> = lib.values.iter().map(|(n, _)| n.as_str()).collect();
    assert_eq!(names, vec!["int", "float", "bool", "str"]);
    assert!(matches!(lib.values[0].1.val, VmValue::Type(TypeId(4))));
    assert_eq!(lib.sub_modules[0].0, "io");
    assert!(matches!(lib.sub_modules[0].1.values[1].1.val, VmValue::NativeFn(NativeFn::Panic)));
    assert_eq!(lib.type_impls[0].1[0].0, "len");
}

#[test] fn str_len_counts_bytes() {
    let r = native_str_len(&[VmValue::Str("héllo".to_string())]);
    assert!(matches!(r, Ok(VmValue::Int(6))), "{r:?}");
}

#[test] fn constant_arithmetic() {
    assert!(matches!(eval_int_infix(TokenKind::Op(AssignOp::Plus), 2, 3), Some(VmValue::Int(5))));
    assert!(matches!(eval_int_infix(TokenKind::Op(AssignOp::Star), -4, 3), Some(VmValue::Int(-12))));
    assert!(matches!(eval_int_infix(TokenKind::Op(AssignOp::Plus), i64::MAX, 1), None));
    assert!(matches!(eval_int_infix(TokenKind::Op(AssignOp::Slash), 1, 0), None));
    assert!(matches!(eval_int_infix(TokenKind::Less, 1, 2), Some(VmValue::Bool(true))));
    assert!(matches!(eval_int_infix(TokenKind::Op(AssignOp::Slash), -7, 2), Some(VmValue::Int(-3))));
    assert!(matches!(eval_int_infix(TokenKind::Op(AssignOp::Percent), -7, 2), Some(VmValue::Int(-1))));
    assert!(matches!(eval_int_infix(TokenKind::Op(AssignOp::Slash), i64::MIN, -1), None));
    assert!(matches!(eval_int_infix(TokenKind::And, 1, 2), None));
}

#[test] fn check_context_builders() {
    let ctx = CheckExprCtx::new();
    assert!(ctx.expected_type.is_none() && !ctx.is_const && !ctx.auto_borrow_mut && !ctx.allow_is_expr_bindings);
    let ctx = ctx.expect(TypeId(4)).is_const().auto_deref(AutoDerefMode::Fully).auto_borrow_mut(true).allow_is_bindings(true);
    assert_eq!(ctx.expected_type, Some(TypeId(4)));
    assert!(ctx.is_const && ctx.auto_borrow_mut && ctx.allow_is_expr_bindings);
    assert_eq!(ctx.deref_mode, AutoDerefMode::Fully);
    assert_eq!(ctx.maybe_expect(None).expected_type, None);
}

// --- more errors ---

fn has_error(code: &str, pred: fn(&ErrType) -> bool) -> bool {
    match outcome(code).0 {
        Ok(()) => panic!("{code:?} checked without errors"),
        Err(errs) => {
            assert!(errs.iter().any(pred), "{code:?} gave {errs:?}");
            true
        },
    }
}

#[test] fn impl_needs_a_custom_type() {
    assert!(has_error("impl int { }", |e| matches!(e, ErrType::TyperCantImplNonCustomType { .. })));
}

#[test] fn variant_with_data_needs_it() {
    assert!(has_error("const E = enum { A{ int }, B }; E.A", |e| matches!(e, ErrType::TyperVariantRequiresData { .. })));
}

#[test] fn negative_tuple_length() {
    assert!(has_error("const N = 0 - 1; let x: (int; N) = ()", |e| matches!(e, ErrType::RuntimeError { .. })));
}

#[test] fn type_must_be_known() {
    assert!(has_error("let x; x^ + x^", |e| matches!(e, ErrType::TyperTypeMustBeKnownHere { .. })));
}

// --- where an error is ---

#[test] fn error_location_underlines_the_span() {
    let source_data = ProgramSourceData { source_code: "let x = 1\nfoo + 2", line_lookup: &[0, 10] };
    let shown = format_error_location("msg", Span { line: 2, byte_offset: 10, length: 3 }, &source_data);
    assert_eq!(shown, "msg\n2 |  foo + 2\n  |  ^^^\n");
}

#[test] fn error_location_trims_line_ends() {
    let source_data = ProgramSourceData { source_code: "x  \t\ny", line_lookup: &[0, 5] };
    let shown = format_error_location("e", Span { line: 1, byte_offset: 0, length: 1 }, &source_data);
    assert_eq!(shown, "e\n1 |  x\n  |  ^\n");
}

#[test] fn error_location_spanning_lines() {
    let source_data = ProgramSourceData { source_code: "ab\ncd", line_lookup: &[0, 3] };
    let shown = format_error_location("e", Span { line: 1, byte_offset: 1, length: 3 }, &source_data);
    assert_eq!(shown, "e\n1 |  ab\n  | __^^\n2 || cd\n  ||_^\n");
}

#[test] fn error_location_of_a_too_long_span() {
    let source_data = ProgramSourceData { source_code: "x", line_lookup: &[0] };
    let shown = format_error_location("e", Span { line: 1, byte_offset: 0, length: usize::MAX }, &source_data);
    assert_eq!(shown, "e\n(couldn't print where...)");
}

#[test] fn longest_punctuation_wins() {
    let kinds = |code: &str| -> Vec<TokenKind> {
        let mut data = ProgramErrorData::new();
        let (tokens, _) = Lexer::start(&mut data, code);
        tokens.iter().map(|t| t.token).collect()
    };
    assert!(matches!(kinds("a->b").as_slice(), [TokenKind::Identifier, TokenKind::MinusArrow, TokenKind::Identifier]));
    assert!(matches!(kinds("a..=b").as_slice(), [TokenKind::Identifier, TokenKind::DotDotEqual, TokenKind::Identifier]));
    assert!(matches!(kinds("a==b").as_slice(), [TokenKind::Identifier, TokenKind::EqualEqual, TokenKind::Identifier]));
    assert!(matches!(kinds("a??b").as_slice(), [TokenKind::Identifier, TokenKind::Op(AssignOp::QuestQuest), TokenKind::Identifier]));
    assert!(matches!(kinds("a??=b").as_slice(), [TokenKind::Identifier, TokenKind::Assign { extra_op: Some(AssignOp::QuestQuest) }, TokenKind::Identifier]));
    assert!(matches!(kinds("a?b").as_slice(), [TokenKind::Identifier, TokenKind::Quest, TokenKind::Identifier]));
}

#[test] fn member_of_a_type_without_members() {
    assert!(has_error("let x = 5; x.len", |e| matches!(e, ErrType::TyperTypeDoesntHaveMember { typ, member } if typ == "int" && member == "len")));
    assert!(has_error("let t = (a: 1); t.b", |e| matches!(e, ErrType::TyperTypeDoesntHaveMember { member, .. } if member == "b")));
}

#[test] fn keywords_are_not_identifiers() {
    let mut data = ProgramErrorData::new();
    let (tokens, _) = Lexer::start(&mut data, "if iff true trueish _x");
    let kinds: Vec<TokenKind> = tokens.iter().map(|t| t.token).collect();
    assert!(matches!(kinds.as_slice(),
        [TokenKind::If, TokenKind::Identifier, TokenKind::Bool(true), TokenKind::Identifier, TokenKind::Identifier]), "{kinds:?}");
}

#[test] fn desugaring_rewrites_only_sugar() {
    let mut data = ProgramErrorData::new();
    let source = "while true { 7 }; 3 != 4; 42";
    let (tokens, _) = Lexer::start(&mut data, source);
    let mut ast = Parser::start(&mut data, source, &tokens);
    assert!(data.errors.is_empty(), "{:?}", data.errors);
    let literal_42 = ast.exprs.iter().position(|e| matches!(e, Expr::Literal { val: AstValue::NumInt(42) })).unwrap();
    desugar_after_parsing(&mut ast);
    assert!(matches!(ast.exprs[literal_42], Expr::Literal { val: AstValue::NumInt(42) }));
    assert!(!ast.exprs.iter().any(|e| matches!(e, Expr::While { .. })));
    assert!(!ast.exprs.iter().any(|e| matches!(e, Expr::Infix { op: TokenKind::NotEqual, .. })));
    assert!(ast.exprs.iter().any(|e| matches!(e, Expr::Loop { .. })));
    assert!(ast.exprs.iter().any(|e| matches!(e, Expr::Infix { op: TokenKind::EqualEqual, .. })));
}

#[test] fn literal_tokens_become_literals() {
    let mut data = ProgramErrorData::new();
    let source = "1_000; 2.5; false";
    let (tokens, _) = Lexer::start(&mut data, source);
    let ast = Parser::start(&mut data, source, &tokens);
    assert!(data.errors.is_empty(), "{:?}", data.errors);
    assert!(ast.exprs.iter().any(|e| matches!(e, Expr::Literal { val: AstValue::NumInt(1000) })));
    assert!(ast.exprs.iter().any(|e| matches!(e, Expr::Literal { val: AstValue::NumFloat(f) } if f == "2.5")));
    assert!(ast.exprs.iter().any(|e| matches!(e, Expr::Literal { val: AstValue::Bool(false) })));
}

#[test] fn no_unused_warnings_with_errors() {
    let (result, warnings) = outcome("let x = 5; missing^");
    assert!(result.is_err());
    assert!(!warnings.iter().any(|w| matches!(w, WarnType::UnusedVar { .. } | WarnType::UnusedMutVar { .. })), "{warnings:?}");
    let (result, warnings) = outcome("let x = 5");
    assert!(result.is_ok());
    assert!(warnings.iter().any(|w| matches!(w, WarnType::UnusedVar { .. })));
}

#[test] fn errors_come_from_one_stage() {
    let lexer = |e: &ErrType| matches!(e, ErrType::LexerUnexpectedCharacter { .. } | ErrType::LexerUnterminatedString | ErrType::LexerMissingClosingStringBrace);
    let parser = |e: &ErrType| matches!(e, ErrType::ParserExpectToken { .. } | ErrType::MultipleExprsWithoutSemicolon
        | ErrType::ParserExpectedAnExpression { .. } | ErrType::ParserExpectedAPattern { .. } | ErrType::ParserExpectedABindingPattern { .. }
        | ErrType::ParserLabelsHaveToBeOnSameLine | ErrType::ParserArrowExprsHaveToBeOnSameLine
        | ErrType::ParserOnlyAllowedInStatementPosition | ErrType::ParserNumberParseError);
    let errs = outcome("~ { missing").0.unwrap_err();
    assert!(errs.iter().all(lexer), "{errs:?}");
    let errs = outcome("{ missing").0.unwrap_err();
    assert!(errs.iter().all(parser), "{errs:?}");
    let errs = outcome("let x: int = true; missing^").0.unwrap_err();
    assert!(errs.iter().all(|e| !lexer(e) && !parser(e)), "{errs:?}");
}

#[test] fn trailing_whitespace_is_trimmed() {
    assert_eq!(trim_end("let x = 1; \t\r\n"), "let x = 1;");
    assert_eq!(trim_end("a\u{3000}\u{2029}"), "a");
    assert_eq!(trim_end("  "), "");
    assert_eq!(trim_end("x y"), "x y");
    for c in ['\t', '\n', '\u{0B}', '\u{0C}', '\r', ' ', '\u{85}', '\u{A0}', '\u{1680}', '\u{2000}', '\u{200A}', '\u{2028}', '\u{202F}', '\u{205F}', '\u{3000}'] {
        assert!(is_whitespace(c) && c.is_whitespace(), "{c:?}");
    }
    for c in ['a', '_', '\u{200B}', '\u{FEFF}', '\u{1F}'] {
        assert!(!is_whitespace(c) && !c.is_whitespace(), "{c:?}");
    }
}

#[test] fn desugaring_an_arena_built_by_hand() {
    let mut ast = AstArena::new();
    let one = ast.add_expr(Span::invalid(), Expr::Literal { val: AstValue::NumInt(1) });
    let two = ast.add_expr(Span::invalid(), Expr::Literal { val: AstValue::NumInt(2) });
    let op_span = Span { line: 1, byte_offset: 2, length: 2 };
    let not_equal = ast.add_expr(op_span, Expr::Infix { op: TokenKind::NotEqual, op_span, left: one, right: two });
    let elems = vec![
        AstTupleElement { label: "b".to_string(), expr: one },
        AstTupleElement { label: "a".to_string(), expr: two },
        AstTupleElement { label: "b".to_string(), expr: not_equal },
    ];
    let tuple = ast.add_expr(Span::invalid(), Expr::Tuple { elems });
    desugar_after_parsing(&mut ast);
    // `1 != 2` became `!(1 == 2)`, in place, with its span
    match &ast.exprs[not_equal.0] {
        Expr::Prefix { op: TokenKind::Exclamation, right } => {
            assert!(matches!(ast.exprs[right.0], Expr::Infix { op: TokenKind::EqualEqual, left, right, .. } if left == one && right == two));
        },
        other => panic!("{other:?}"),
    }
    let span = ast.expr_spans[not_equal.0];
    assert!(span.line == 1 && span.byte_offset == 2 && span.length == 2);
    // exactly one node was appended, the inner comparison, with the span of the `!=`
    assert_eq!(ast.exprs.len(), 5);
    assert!(matches!(ast.exprs[4], Expr::Infix { op: TokenKind::EqualEqual, .. }));
    let inner_span = ast.expr_spans[4];
    assert!(inner_span.line == 1 && inner_span.byte_offset == 2 && inner_span.length == 2);
    // the tuple is sorted by label, the two `b` elements in their old order
    match &ast.exprs[tuple.0] {
        Expr::Tuple { elems } => {
            let order: Vec<(String, ExprId)> = elems.iter().map(|e| (e.label.clone(), e.expr)).collect();
            assert_eq!(order, vec![("a".to_string(), two), ("b".to_string(), one), ("b".to_string(), not_equal)]);
        },
        other => panic!("{other:?}"),
    }
    assert!(matches!(ast.exprs[one.0], Expr::Literal { val: AstValue::NumInt(1) }));
    // a second pass finds no sugar and appends nothing
    let before = ast.exprs.len();
    desugar_after_parsing(&mut ast);
    assert_eq!(ast.exprs.len(), before);
}

#[test] fn precedence_and_left_associativity() {
    let mut data = ProgramErrorData::new();
    let source = "1 - 2 * 3 - 4";
    let (tokens, _) = Lexer::start(&mut data, source);
    let ast = Parser::start(&mut data, source, &tokens);
    assert!(data.errors.is_empty() && data.warnings.is_empty());
    let lit = |id: ExprId| match &ast.exprs[id.0] { Expr::Literal { val: AstValue::NumInt(n) } => *n, other => panic!("{other:?}") };
    let infix = |id: ExprId| match &ast.exprs[id.0] { Expr::Infix { op, left, right, .. } => (*op, *left, *right), other => panic!("{other:?}") };
    let root = match &ast.exprs[0] { Expr::Block { exprs, label: None } if exprs.len() == 1 => exprs[0], other => panic!("{other:?}") };
    let (op, left, right) = infix(root);
    assert!(matches!(op, TokenKind::Op(AssignOp::Minus)) && lit(right) == 4);
    let (op, left, right) = infix(left);
    assert!(matches!(op, TokenKind::Op(AssignOp::Minus)) && lit(left) == 1);
    let (op, left, right) = infix(right);
    assert!(matches!(op, TokenKind::Op(AssignOp::Star)) && lit(left) == 2 && lit(right) == 3);
}
