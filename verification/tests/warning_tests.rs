use thrum_engine::{check_code, CheckOutcome, WarnType};

fn run_code(code: &str) -> CheckOutcome {
    match check_code(code) {
        Some(outcome) => outcome,
        None => panic!("the program could not be checked: {code}"),
    }
}

fn expect_warn(code: &str, pred: fn(&WarnType) -> bool, what: &str) {
    let (result, warns) = run_code(code);
    assert!(warns.iter().any(pred), "Expected warning matching {what}, instead found warnings:\n{warns:?}\nResult was: {result:?}");
}

fn expect_no_warn(code: &str) {
    let (result, warns) = run_code(code);
    assert!(warns.is_empty(), "Expected no warnings, instead found:\n{warns:?}\nResult was: {result:?}");
}

#[test] fn normally_no_warn() {
    expect_no_warn("1 + 1");
}

#[test] fn unused_var_warn() {
    expect_warn("let x = 5", |w| matches!(w, WarnType::UnusedVar { .. }), "UnusedVar");
    expect_no_warn("let _x = 5");
    expect_no_warn("let x = 5; x^");
}

#[test] fn unused_mut_var_warn() {
    expect_warn("let mut x = 5; x^", |w| matches!(w, WarnType::UnusedMutVar { .. }), "UnusedMutVar");
    expect_warn("let mut _x = 5; _x^", |w| matches!(w, WarnType::UnusedMutVar { .. }), "UnusedMutVar");
    expect_no_warn("let mut x = 5; x = 10; x^");
}

#[test] fn inconsistent_spacing_warn() {
    expect_warn("1+ 2", |w| matches!(w, WarnType::ParserInconsistentSpacingAroundInfixOp { .. }), "ParserInconsistentSpacingAroundInfixOp");
    expect_warn("1 +2", |w| matches!(w, WarnType::ParserInconsistentSpacingAroundInfixOp { .. }), "ParserInconsistentSpacingAroundInfixOp");
    expect_warn("1  + 2", |w| matches!(w, WarnType::ParserInconsistentSpacingAroundInfixOp { .. }), "ParserInconsistentSpacingAroundInfixOp");

    expect_no_warn("1  +  2");
    expect_no_warn("1 + 2");
    expect_no_warn("1+2");
}
