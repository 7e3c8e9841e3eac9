use vstd::prelude::*;
use vstd::string::StringSliceAdditionalSpecFns;
use crate::lexing::tokens::{Span, TokenKind, TokenSpan};
use crate::typing::type_vars::TypeVar;

pub mod lexing;
pub mod parsing;
pub mod typing;
pub mod vm_compiling;
pub mod nativelib;
pub mod text;
pub mod pretty_printing;
pub mod error_location;

verus! {

/// An error or warning together with where in the source it is.
#[derive(Debug)]
pub struct ProgramError<T> {
    pub span: Span,
    pub err_type: T,
}

/// All errors and warnings collected while compiling a program.
#[derive(Debug)]
pub struct ProgramErrorData {
    pub errors: Vec<ProgramError<ErrType>>,
    pub warnings: Vec<ProgramError<WarnType>>,
}

impl ProgramErrorData {
    /// No errors and no warnings.
    pub fn new() -> (r: Self)
        ensures
            r.errors@.len() == 0,
            r.warnings@.len() == 0,
    {
        ProgramErrorData { errors: Vec::new(), warnings: Vec::new() }
    }

    /// Records a warning.
    pub fn warn(&mut self, warn_type: WarnType, span: Span)
        ensures
            final(self).errors@ == old(self).errors@,
            final(self).warnings@ == old(self).warnings@.push(ProgramError { span, err_type: warn_type }),
    {
        self.warnings.push(ProgramError { span, err_type: warn_type });
    }
}

/// The source code and where each of its lines starts.
pub struct ProgramSourceData<'a> {
    pub source_code: &'a str,
    pub line_lookup: &'a [usize],
}

#[allow(inconsistent_fields)]
#[derive(Debug)]
pub enum ErrType {
    LexerUnexpectedCharacter { c: char },
    LexerUnterminatedString,
    LexerMissingClosingStringBrace,

    ParserExpectToken { expected: Vec<TokenKind>, err_msg: String, found: TokenKind },
    MultipleExprsWithoutSemicolon,
    ParserExpectedAnExpression { found: TokenKind },
    ParserExpectedAPattern { found: TokenKind },
    ParserExpectedABindingPattern { found: TokenKind },
    ParserLabelsHaveToBeOnSameLine,
    ParserArrowExprsHaveToBeOnSameLine,
    ParserOnlyAllowedInStatementPosition,
    ParserNumberParseError,

    TyperMismatch { expected: String, found: String },
    TyperUndefinedIdentifier { name: String },
    TyperCantInferType { typ: String },
    TyperTypeMustBeKnownHere { typ: String },
    TyperPatternDoesntCoverAllCases { remaining: String },
    TyperPatternCantBeReached,
    TyperFailableAssignPattern { remaining: String },
    TyperRequiresTypeAnnotation,
    TyperInvalidBindingIsExpr,
    TyperBreakOutsideLoop,
    TyperUndefinedLoopLabel { label: String, available: Vec<String> },
    TyperWrongNumberOfArguments { expected: usize, found: usize },
    TyperCantCallNonFnType { typ: String },
    TyperTypeDoesntHaveMember { typ: String, member: String },
    TyperPatternNeverType,
    TyperOrPatternBindsVarsTooMuch { vars: Vec<String> },
    TyperOrPatternDoesntBindVars { vars: Vec<String> },
    TyperNotPatternCantBindVars,
    TyperPatternStringHolesInARow,
    TyperVarIsntDeclaredMut { var: TypeVar },
    TyperCantUseUninitializedVar { var: TypeVar },
    TyperCantUseMaybeInitializedVar { var: TypeVar },
    TyperCantUseMaybeMovedVar { var: TypeVar },
    TyperCantUseMovedVar { var: TypeVar },
    TyperCantDerefNonPointerType { typ: String },
    TyperCantDerefUnknownPointerType,
    TyperCantIndexNonArrType { typ: String },
    TyperReturnOutsideFunction,
    TyperSelfOutsideImplBlock,
    TyperCantIndexHeterogenousTuple { typ: String },
    TyperCantIndexEmptyTuple { typ: String },
    TyperMustBeCustomtypeType { typ: String },
    TyperNewTypesExpectOneUnlabeledExpr,

    TyperConstResolvingCycle,
    TyperConstCantBeMutable,
    TyperConstNameAlreadyExists { name: String },

    TyperExpectedTypeIsntAnEnum { typ: String },
    TyperEnumDoesntHaveVariant { enum_: String, variant: String },
    TyperVariantRequiresData { variant: String },
    TyperEnumExpectedExactVariant { variant: String, found: String },

    TyperRuntimeValuesArentAllowedInImplBlocks,
    TyperExpectedConstFoundRuntimeValue { name: String },
    TyperCantImplNonCustomType { typ: String },

    RuntimeError { msg: String },

    DefaultString(String),
}

/// An error that the lexer reports.
pub open spec fn is_lexer_error(e: ErrType) -> bool {
    e is LexerUnexpectedCharacter || e is LexerUnterminatedString || e is LexerMissingClosingStringBrace
}

/// An error that the parser reports.
pub open spec fn is_parser_error(e: ErrType) -> bool {
    e is ParserExpectToken || e is MultipleExprsWithoutSemicolon || e is ParserExpectedAnExpression
        || e is ParserExpectedAPattern || e is ParserExpectedABindingPattern || e is ParserLabelsHaveToBeOnSameLine
        || e is ParserArrowExprsHaveToBeOnSameLine || e is ParserOnlyAllowedInStatementPosition || e is ParserNumberParseError
}

/// An error that the type checker reports: any that neither the lexer nor the parser does.
pub open spec fn is_checker_error(e: ErrType) -> bool {
    !is_lexer_error(e) && !is_parser_error(e)
}

/// What checking a program gives: `Ok` where no stage found an error, else the errors of the first
/// stage that found some; and the warnings found until then.
pub type CheckOutcome = (Result<(), Vec<ErrType>>, Vec<WarnType>);

/// The kinds of the errors, in order.
pub fn error_kinds(errors: Vec<ProgramError<ErrType>>) -> (r: Vec<ErrType>)
    ensures
        r@.len() == errors@.len(),
        forall|i: int| 0 <= i < errors@.len() ==> #[trigger] r@[i] == errors@[i].err_type,
{
    let mut rest = errors;
    let ghost orig = rest@;
    let mut kinds: Vec<ErrType> = Vec::new();
    while rest.len() > 0
        invariant
            kinds@.len() + rest@.len() == orig.len(),
            rest@ == orig.subrange(kinds@.len() as int, orig.len() as int),
            forall|i: int| 0 <= i < kinds@.len() ==> #[trigger] kinds@[i] == orig[i].err_type,
        decreases rest@.len(),
    {
        let e = rest.remove(0);
        kinds.push(e.err_type);
    }
    kinds
}

/// The kinds of the warnings, in order.
pub fn warning_kinds(warnings: Vec<ProgramError<WarnType>>) -> (r: Vec<WarnType>)
    ensures
        r@.len() == warnings@.len(),
        forall|i: int| 0 <= i < warnings@.len() ==> #[trigger] r@[i] == warnings@[i].err_type,
{
    let mut rest = warnings;
    let ghost orig = rest@;
    let mut kinds: Vec<WarnType> = Vec::new();
    while rest.len() > 0
        invariant
            kinds@.len() + rest@.len() == orig.len(),
            rest@ == orig.subrange(kinds@.len() as int, orig.len() as int),
            forall|i: int| 0 <= i < kinds@.len() ==> #[trigger] kinds@[i] == orig[i].err_type,
        decreases rest@.len(),
    {
        let w = rest.remove(0);
        kinds.push(w.err_type);
    }
    kinds
}

/// The end of a stage: the errors found so far, if there are any.
fn stage_complete(err_data: &mut ProgramErrorData) -> (r: Option<CheckOutcome>)
    ensures
        old(err_data).errors@.len() == 0 ==> r is None && *final(err_data) == *old(err_data),
        old(err_data).errors@.len() > 0 ==> (r matches Some((Err(errs), warns))
            && errs@.len() == old(err_data).errors@.len()
            && (forall|i: int| 0 <= i < errs@.len() ==> #[trigger] errs@[i] == old(err_data).errors@[i].err_type)
            && warns@.len() == old(err_data).warnings@.len()
            && (forall|i: int| 0 <= i < warns@.len() ==> #[trigger] warns@[i] == old(err_data).warnings@[i].err_type)),
{
    if err_data.errors.len() == 0 {
        return None;
    }
    let mut data = ProgramErrorData::new();
    std::mem::swap(&mut data, err_data);
    let errors = error_kinds(data.errors);
    let warnings = warning_kinds(data.warnings);
    Some((Err(errors), warnings))
}

/// Checks a program: lexes it, parses it, desugars it and checks its types, stopping after the
/// first stage that finds errors. None where the program has more tokens than a `usize` counts.
pub fn check_code(source_code: &str) -> (r: Option<CheckOutcome>)
    requires
        source_code.spec_bytes().len() < usize::MAX,
    ensures
        r matches Some((Err(errs), _)) ==> errs@.len() > 0,
        // the errors are those of the first stage that found any
        r matches Some((Err(errs), _)) ==>
            (forall|k: int| 0 <= k < errs@.len() ==> is_lexer_error(#[trigger] errs@[k]))
            || (forall|k: int| 0 <= k < errs@.len() ==> is_parser_error(#[trigger] errs@[k]))
            || (forall|k: int| 0 <= k < errs@.len() ==> is_checker_error(#[trigger] errs@[k])),
        // a program that fails gets no unused-variable warnings: only those about spacing
        r matches Some((Err(_), warns)) ==> forall|k: int| 0 <= k < warns@.len() ==>
            crate::parsing::is_parser_warning(#[trigger] warns@[k]),
        r matches Some((Ok(()), warns)) ==> forall|k: int| 0 <= k < warns@.len() ==>
            crate::parsing::is_parser_warning(#[trigger] warns@[k]) || warns@[k] is UnusedVar || warns@[k] is UnusedMutVar,
{
    let mut err_data = ProgramErrorData::new();

    let (lexer_tokens, _line_lookup) = crate::lexing::lexer::Lexer::start(&mut err_data, source_code);
    match stage_complete(&mut err_data) {
        Some(outcome) => { return Some(outcome); },
        None => {},
    }
    if lexer_tokens.len() == usize::MAX {
        return None;
    }

    let mut ast = crate::parsing::Parser::start(&mut err_data, source_code, lexer_tokens.as_slice());
    match stage_complete(&mut err_data) {
        Some(outcome) => { return Some(outcome); },
        None => {},
    }

    crate::parsing::desugar::desugar_after_parsing(&mut ast);

    crate::typing::TypeChecker::start(&mut err_data, &ast);
    match stage_complete(&mut err_data) {
        Some(outcome) => { return Some(outcome); },
        None => {},
    }
    let warnings = warning_kinds(err_data.warnings);
    Some((Ok(()), warnings))
}

#[derive(Debug)]
pub enum WarnType {
    ParserInconsistentSpacingAroundInfixOp { op: TokenKind },
    ParserUnnecessarySpacingAfterPrefixOp { op: TokenKind },
    UnusedVar { var: TypeVar },
    UnusedMutVar { var: TypeVar },
}

} // verus!
