use thrum_engine::{check_code, CheckOutcome, ErrType};
use thrum_engine::lexing::tokens::{AssignOp, TokenKind};

fn run_code(code: &str) -> CheckOutcome {
    match check_code(code) {
        Some(outcome) => outcome,
        None => panic!("the program could not be checked: {code}"),
    }
}

/// The errors that checking `code` gives; it has to fail.
fn errors_of(code: &str) -> Vec<ErrType> {
    match run_code(code).0 {
        Ok(()) => panic!("Code should have failed, but it checked without errors: {code}"),
        Err(errs) => errs,
    }
}

fn expect_err(code: &str, pred: fn(&ErrType) -> bool, what: &str) {
    let errs = errors_of(code);
    assert!(errs.iter().any(pred), "Expected error matching {what} for {code:?}, instead found errors:\n{errs:?}");
}

#[test] fn lexer_errors() {
    expect_err("1 + ~", |e| matches!(e, ErrType::LexerUnexpectedCharacter { c: '~' }), "LexerUnexpectedCharacter");
    expect_err("unterminated \"string", |e| matches!(e, ErrType::LexerUnterminatedString), "LexerUnterminatedString");
    expect_err("'{'", |e| matches!(e, ErrType::LexerMissingClosingStringBrace), "LexerMissingClosingStringBrace");
}

#[test] fn parser_errors() {
    expect_err("{", |e| matches!(e, ErrType::ParserExpectToken { .. }), "ParserExpectToken");
    expect_err("fn 1", |e| matches!(e, ErrType::ParserExpectToken { .. }), "ParserExpectToken");
    expect_err("if", |e| matches!(e, ErrType::ParserExpectedAnExpression { found: TokenKind::EndOfFile }), "ParserExpectedAnExpression");
    expect_err("1 - / 1", |e| matches!(e, ErrType::ParserExpectedAnExpression { found: TokenKind::Op(AssignOp::Slash) }), "ParserExpectedAnExpression");
    expect_err("1 + 1  15", |e| matches!(e, ErrType::MultipleExprsWithoutSemicolon), "MultipleExprsWithoutSemicolon");
    expect_err("let = 5", |e| matches!(e, ErrType::ParserExpectedABindingPattern { .. }), "ParserExpectedABindingPattern");
    expect_err("{ \n #label }", |e| matches!(e, ErrType::ParserLabelsHaveToBeOnSameLine), "ParserLabelsHaveToBeOnSameLine");
    expect_err("if true => \n 5", |e| matches!(e, ErrType::ParserArrowExprsHaveToBeOnSameLine), "ParserArrowExprsHaveToBeOnSameLine");
}

#[test] fn parse_statement_position() {
    expect_err("2 + fn none() { }", |e| matches!(e, ErrType::ParserOnlyAllowedInStatementPosition), "ParserOnlyAllowedInStatementPosition");
    expect_err("2 + let x", |e| matches!(e, ErrType::ParserOnlyAllowedInStatementPosition), "ParserOnlyAllowedInStatementPosition");

    expect_err("fn fn none() { } + 2", |e| matches!(e, ErrType::ParserExpectedAnExpression { .. }), "ParserExpectedAnExpression");
    expect_err("let x + 2", |e| matches!(e, ErrType::ParserExpectedAnExpression { .. }), "ParserExpectedAnExpression");
    expect_err("fn fn none() { } 2", |e| matches!(e, ErrType::MultipleExprsWithoutSemicolon), "MultipleExprsWithoutSemicolon");

    expect_err("(let a)", |e| matches!(e, ErrType::ParserOnlyAllowedInStatementPosition), "ParserOnlyAllowedInStatementPosition");
    expect_err("(x = 2)", |e| matches!(e, ErrType::ParserOnlyAllowedInStatementPosition), "ParserOnlyAllowedInStatementPosition");
    expect_err("(let a, let b)", |e| matches!(e, ErrType::ParserOnlyAllowedInStatementPosition), "ParserOnlyAllowedInStatementPosition");
    expect_err("2 + (let a, let b)", |e| matches!(e, ErrType::ParserOnlyAllowedInStatementPosition), "ParserOnlyAllowedInStatementPosition");
}

#[test] fn typecheck_var_errors() {
    expect_err("x = 10", |e| matches!(e, ErrType::TyperUndefinedIdentifier { .. }), "TyperUndefinedIdentifier");
    expect_err("let x = 10; x = 20", |e| matches!(e, ErrType::TyperVarIsntDeclaredMut { .. }), "TyperVarIsntDeclaredMut");
    expect_err("let tup = (1, 2); tup[0] = 99", |e| matches!(e, ErrType::TyperVarIsntDeclaredMut { .. }), "TyperVarIsntDeclaredMut");

    expect_err("let x: int; x + 5", |e| matches!(e, ErrType::TyperCantUseUninitializedVar { .. }), "TyperCantUseUninitializedVar");
    expect_err("let x; if true { x = 2 }; x^", |e| matches!(e, ErrType::TyperCantUseMaybeInitializedVar { .. }), "TyperCantUseMaybeInitializedVar");

    expect_err("let s = \"hello\"; s^; s^", |e| matches!(e, ErrType::TyperCantUseMovedVar { .. }), "TyperCantUseMovedVar");
    expect_err("let s = \"blub\"; if true { s^ }; s^", |e| matches!(e, ErrType::TyperCantUseMaybeMovedVar { .. }), "TyperCantUseMaybeMovedVar");

    expect_err("if 42 is let x => 0 else x^", |e| matches!(e, ErrType::TyperUndefinedIdentifier { .. }), "TyperUndefinedIdentifier");
    expect_err("ensure 42 is let x else panic(\"{x^}\")", |e| matches!(e, ErrType::TyperUndefinedIdentifier { .. }), "TyperUndefinedIdentifier");
}

#[test] fn type_mismatch_simple() {
    expect_err("if true { 1 } else { (1,) }", |e| matches!(e, ErrType::TyperMismatch { .. }), "TyperMismatch");
    expect_err("let x: int = true", |e| matches!(e, ErrType::TyperMismatch { .. }), "TyperMismatch");
    expect_err("let x: int = 2.0", |e| matches!(e, ErrType::TyperMismatch { .. }), "TyperMismatch");
    expect_err("let x: float = 2", |e| matches!(e, ErrType::TyperMismatch { .. }), "TyperMismatch");
    expect_err("(1, 2) is (1, 2, 3)", |e| matches!(e, ErrType::TyperMismatch { .. }), "TyperMismatch");
}

#[test] fn type_mismatch_operators() {
    expect_err("1 + true", |e| matches!(e, ErrType::TyperMismatch { .. }), "TyperMismatch");
    expect_err("1 % true", |e| matches!(e, ErrType::TyperMismatch { .. }), "TyperMismatch");
    expect_err("1 + 1.0", |e| matches!(e, ErrType::TyperMismatch { .. }), "TyperMismatch");
    expect_err("1.0 + 1", |e| matches!(e, ErrType::TyperMismatch { .. }), "TyperMismatch");
    expect_err("!5", |e| matches!(e, ErrType::TyperMismatch { .. }), "TyperMismatch");
    expect_err("-true", |e| matches!(e, ErrType::TyperMismatch { .. }), "TyperMismatch");
}

#[test] fn type_mismatch_patterns() {
    expect_err("1 is \"hello\"", |e| matches!(e, ErrType::TyperMismatch { .. }), "TyperMismatch");
    expect_err("(1, 2) is (1, \"two\")", |e| matches!(e, ErrType::TyperMismatch { .. }), "TyperMismatch");
    expect_err("(1, 2) is 1 | 2", |e| matches!(e, ErrType::TyperMismatch { .. }), "TyperMismatch");

    expect_err("let mut x = 5; x += true", |e| matches!(e, ErrType::TyperMismatch { .. }), "TyperMismatch");
}

#[test] fn typecheck_misc_errors() {
    expect_err("loop { break #outer }", |e| matches!(e, ErrType::TyperUndefinedLoopLabel { .. }), "TyperUndefinedLoopLabel");
    expect_err("break", |e| matches!(e, ErrType::TyperBreakOutsideLoop), "TyperBreakOutsideLoop");
    expect_err("loop { fn sneaky() => break }", |e| matches!(e, ErrType::TyperBreakOutsideLoop), "TyperBreakOutsideLoop");
    expect_err("return", |e| matches!(e, ErrType::TyperReturnOutsideFunction), "TyperReturnOutsideFunction");
    expect_err("Self", |e| matches!(e, ErrType::TyperSelfOutsideImplBlock), "TyperSelfOutsideImplBlock");

    expect_err("let x", |e| matches!(e, ErrType::TyperCantInferType { .. }), "TyperCantInferType");
}

#[test] fn invalid_op_types() {
    expect_err("let x = 5; x()", |e| matches!(e, ErrType::TyperCantCallNonFnType { .. }), "TyperCantCallNonFnType");
    expect_err("let x = true; x[0]", |e| matches!(e, ErrType::TyperCantIndexNonArrType { .. }), "TyperCantIndexNonArrType");

    expect_err("let x = 5; x^^", |e| matches!(e, ErrType::TyperCantDerefNonPointerType { .. }), "TyperCantDerefNonPointerType");
    expect_err("5^", |e| matches!(e, ErrType::TyperCantDerefNonPointerType { .. }), "TyperCantDerefNonPointerType");

    expect_err("let x = 5; x.hello", |e| matches!(e, ErrType::TyperTypeDoesntHaveMember { .. }), "TyperTypeDoesntHaveMember");
    expect_err("true.hello", |e| matches!(e, ErrType::TyperTypeDoesntHaveMember { .. }), "TyperTypeDoesntHaveMember");
}

#[test] fn exhaustive_pattern_matching() {
    expect_err("match 5 is 1 => 2", |e| matches!(e, ErrType::TyperPatternDoesntCoverAllCases { .. }), "TyperPatternDoesntCoverAllCases");
    expect_err("
        match (true, false)
        is (true, true) => 0
        is (false, _) => 1
    ", |e| matches!(e, ErrType::TyperPatternDoesntCoverAllCases { .. }), "TyperPatternDoesntCoverAllCases");
    expect_err("
        const Opt = enum { None, Some{ bool } }
        let val: Opt = :Some{ true }
        match val^ is :None | :Some{ true } => 0
    ", |e| matches!(e, ErrType::TyperPatternDoesntCoverAllCases { .. }), "TyperPatternDoesntCoverAllCases");
    expect_err("
        const Opt = enum { None, Some{ bool } }
        let val: Opt.Some = :Some{ true }
        match val^ is :Some{ true } => 0
    ", |e| matches!(e, ErrType::TyperPatternDoesntCoverAllCases { .. }), "TyperPatternDoesntCoverAllCases");
}

#[test] fn pattern_binding() {
    expect_err("let a = (5 is let x)", |e| matches!(e, ErrType::TyperInvalidBindingIsExpr), "TyperInvalidBindingIsExpr");
    expect_err("if (5 is let x) is true {}", |e| matches!(e, ErrType::TyperInvalidBindingIsExpr), "TyperInvalidBindingIsExpr");

    expect_err("5 is !(let x)", |e| matches!(e, ErrType::TyperNotPatternCantBindVars), "TyperNotPatternCantBindVars");

    expect_err("if (1, 2) is let (x, y) | (x, _) {}", |e| matches!(e, ErrType::TyperOrPatternDoesntBindVars { .. }), "TyperOrPatternDoesntBindVars");
    expect_err("if (1, 2) is let (x, _) | (x, y) {}", |e| matches!(e, ErrType::TyperOrPatternBindsVarsTooMuch { .. }), "TyperOrPatternBindsVarsTooMuch");

    expect_err("if (1, 2) is let (x, 0) | (0, y) { }", |e| matches!(e, ErrType::TyperOrPatternDoesntBindVars { .. }), "TyperOrPatternDoesntBindVars");
    expect_err("let (x, 0) = (1, 2)", |e| matches!(e, ErrType::TyperFailableAssignPattern { .. }), "TyperFailableAssignPattern");
}

#[test] fn string_pattern_errors() {
    expect_err(r#" "abc" is "a{_}{_}c" "#, |e| matches!(e, ErrType::TyperPatternStringHolesInARow), "TyperPatternStringHolesInARow");
    expect_err(r#" "abc" is "{}" "#, |e| matches!(e, ErrType::ParserExpectedAPattern { .. }), "ParserExpectedAPattern");
}

#[test] fn custom_type() {
    expect_err("int{ 5 }", |e| matches!(e, ErrType::TyperMustBeCustomtypeType { .. }), "TyperMustBeCustomtypeType");
    expect_err("type X = int; X{ 1, 2 }", |e| matches!(e, ErrType::TyperNewTypesExpectOneUnlabeledExpr), "TyperNewTypesExpectOneUnlabeledExpr");
    expect_err("type X = int; X{ 1; 1 }", |e| matches!(e, ErrType::TyperNewTypesExpectOneUnlabeledExpr), "TyperNewTypesExpectOneUnlabeledExpr");
    expect_err("type X = int; X{}", |e| matches!(e, ErrType::TyperNewTypesExpectOneUnlabeledExpr), "TyperNewTypesExpectOneUnlabeledExpr");
    expect_err("type X = 5", |e| matches!(e, ErrType::TyperMismatch { .. }), "TyperMismatch");

    expect_err("let x: int = :Foo", |e| matches!(e, ErrType::TyperExpectedTypeIsntAnEnum { .. }), "TyperExpectedTypeIsntAnEnum");
    expect_err("const E = enum { A }; let x: E = :B", |e| matches!(e, ErrType::TyperEnumDoesntHaveVariant { .. }), "TyperEnumDoesntHaveVariant");
}

#[test] fn const_errs() {
    expect_err("const X = 2 * Y; const Y = 2 * X", |e| matches!(e, ErrType::TyperConstResolvingCycle), "TyperConstResolvingCycle");
    expect_err("const (X, X) = (1, 2)", |e| matches!(e, ErrType::TyperConstNameAlreadyExists { .. }), "TyperConstNameAlreadyExists");

    expect_err("const mut X = 5", |e| matches!(e, ErrType::TyperConstCantBeMutable), "TyperConstCantBeMutable");
    expect_err("type N = int; impl N { let x = 5 }", |e| matches!(e, ErrType::TyperRuntimeValuesArentAllowedInImplBlocks), "TyperRuntimeValuesArentAllowedInImplBlocks");

    expect_err("let x = 10; const Y = x^", |e| matches!(e, ErrType::TyperUndefinedIdentifier { .. }), "TyperUndefinedIdentifier");
    expect_err("let x = 10; (0; x)", |e| matches!(e, ErrType::TyperExpectedConstFoundRuntimeValue { .. }), "TyperExpectedConstFoundRuntimeValue");
    expect_err("let x = 10; let y: x = 5", |e| matches!(e, ErrType::TyperExpectedConstFoundRuntimeValue { .. }), "TyperExpectedConstFoundRuntimeValue");
}

#[test] fn array_bounds() {
    expect_err("let x = (1, 2, 3); x[1.0]^", |e| matches!(e, ErrType::TyperMismatch { .. }), "TyperMismatch");
    expect_err("let x = (); x[0]^", |e| matches!(e, ErrType::TyperCantIndexEmptyTuple { .. }), "TyperCantIndexEmptyTuple");
    expect_err("let x = (1, true); x[0]^", |e| matches!(e, ErrType::TyperCantIndexHeterogenousTuple { .. }), "TyperCantIndexHeterogenousTuple");
}

#[test] fn new_types() {
    expect_err("type Number = int; Number{ 320 } is 320", |e| matches!(e, ErrType::TyperMismatch { .. }), "TyperMismatch");
    expect_err("type Number = int; let x: Number = 5", |e| matches!(e, ErrType::TyperMismatch { .. }), "TyperMismatch");
    expect_err("type N1 = int;  type N2 = int;  N1{ 6 } + N2{ 9 }", |e| matches!(e, ErrType::TyperMismatch { .. }), "TyperMismatch");
}

#[test] fn typecheck_functions() {
    expect_err("fn square(x: int) {}; square(2, 3)", |e| matches!(e, ErrType::TyperWrongNumberOfArguments { .. }), "TyperWrongNumberOfArguments");
    expect_err("fn square(x: int) {}; square()", |e| matches!(e, ErrType::TyperWrongNumberOfArguments { .. }), "TyperWrongNumberOfArguments");
    expect_err("fn square(x) {}", |e| matches!(e, ErrType::TyperRequiresTypeAnnotation), "TyperRequiresTypeAnnotation");

    expect_err("fn foo() -> int { return \"string\" }", |e| matches!(e, ErrType::TyperMismatch { .. }), "TyperMismatch");
    expect_err("fn foo() -> int { }", |e| matches!(e, ErrType::TyperMismatch { .. }), "TyperMismatch");
}

#[test] fn deref_non_local_pointer() {
    expect_err("type T = (str); impl T { fn f(self: &Self) { self^^; } }", |e| matches!(e, ErrType::TyperCantDerefUnknownPointerType), "TyperCantDerefUnknownPointerType");
}

#[test] fn decay_soft_info_on_variable_bind() {
    expect_err("
        type Option = enum { None, Some{ int } };

        let x = Option.Some{ 15 }
        let :Some{ inner } = x^
        inner^
    ", |e| matches!(e, ErrType::TyperFailableAssignPattern { .. }), "TyperFailableAssignPattern");
}
