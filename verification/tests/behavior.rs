use nino::ast::Expression;
use nino::ast::Type;
use nino::builtins::format_value;
use nino::diagnostics::generate_error_location_display;
use nino::lexer::tokenize;
use nino::parser::parse;
use nino::scoped_symbols::ScopedSymbols;
use nino::token::Token;
use nino::token::TokenKind;
use nino::virtual_machine::evaluate;
use nino::virtual_machine::RuntimeError;
use nino::virtual_machine::VirtualMachine;

fn run_program(code: &str) -> (Result<(), RuntimeError>, VirtualMachine) {
    let tokens = tokenize(code).unwrap();
    let program = parse(&tokens).unwrap();
    let mut vm = VirtualMachine::new();
    let r = vm.run(program);
    (r, vm)
}

/// An array literal is already a value: evaluating it returns it unchanged.
#[test]
fn array_literal_round_trip() {
    let (r, vm) = run_program("let xs:[num] = [1, 2, 3];");
    r.unwrap();
    assert_eq!(
        *vm.symbols.get("xs").unwrap().expression,
        Expression::Array(
            Type::Number,
            vec![
                Expression::Number(1.0f64.to_bits()),
                Expression::Number(2.0f64.to_bits()),
                Expression::Number(3.0f64.to_bits()),
            ]
        )
    );
}

/// Tail recursion runs at constant native depth: the same tiny depth
/// budget carries twenty thousand and two hundred thousand tail steps.
#[test]
fn tail_recursion_depth_independence() {
    let code = "let increment:fn = (x:num, i:num):num => i ? {
    0 => x,
    increment(x + 1, i - 1)
};";
    let tokens = tokenize(code).unwrap();
    let program = parse(&tokens).unwrap();
    let mut vm = VirtualMachine::new();
    vm.run(program).unwrap();

    let call_small = tokenize("increment(0, 20000)").unwrap();
    let call_small = nino::parser::parse_expression(&call_small, 0).0.unwrap();
    let r = evaluate(call_small, &mut vm.symbols, 16, u64::MAX);
    assert_eq!(r, Ok(Expression::Number(20000.0f64.to_bits())));

    let call_large = tokenize("increment(0, 200000)").unwrap();
    let call_large = nino::parser::parse_expression(&call_large, 0).0.unwrap();
    let r = evaluate(call_large, &mut vm.symbols, 16, u64::MAX);
    assert_eq!(r, Ok(Expression::Number(200000.0f64.to_bits())));
}

/// Non-tail recursion spends one depth unit per level: a depth budget too
/// small for the recursion is reported, a large enough one succeeds.
#[test]
fn non_tail_recursion_spends_depth() {
    let code = "let factorial:fn = (n:num):num => n ? {
    0 => 1,
    n * factorial(n - 1)
};";
    let tokens = tokenize(code).unwrap();
    let program = parse(&tokens).unwrap();
    let mut vm = VirtualMachine::new();
    vm.run(program).unwrap();

    let call = tokenize("factorial(100)").unwrap();
    let call = nino::parser::parse_expression(&call, 0).0.unwrap();
    let r = evaluate(call, &mut vm.symbols, 8, u64::MAX);
    assert_eq!(r, Err(RuntimeError::DepthExceeded));

    let call = tokenize("factorial(100)").unwrap();
    let call = nino::parser::parse_expression(&call, 0).0.unwrap();
    let r = evaluate(call, &mut vm.symbols, 500, u64::MAX);
    assert!(r.is_ok());
}

/// A starved step budget is reported rather than looped on.
#[test]
fn step_budget_exhaustion() {
    let call = tokenize("1 + 2").unwrap();
    let call = nino::parser::parse_expression(&call, 0).0.unwrap();
    let mut symbols = ScopedSymbols::new();
    let r = evaluate(call, &mut symbols, 64, 1);
    assert_eq!(r, Err(RuntimeError::StepsExceeded));
}

/// A match whose scrutinee is a number fails on a boolean first arm, even
/// though the later arm would have matched by value.
#[test]
fn match_variant_mismatch_fails() {
    let (r, _) = run_program("1 ? { true => 2, 1 => 3, 4 };");
    assert_eq!(r, Err(RuntimeError::TypeMismatch));
}

/// A match with no matching arm and no default fails.
#[test]
fn match_missing_default() {
    let (r, _) = run_program("5 ? { 1 => 2 };");
    assert_eq!(r, Err(RuntimeError::MissingDefault));
}

/// An unbound name is reported with the name.
#[test]
fn unbound_identifier() {
    let (r, _) = run_program("y;");
    assert_eq!(r, Err(RuntimeError::UnboundIdentifier("y".to_string())));
}

/// Calling a name bound to a plain value is not a call of a function.
#[test]
fn calling_a_non_function() {
    let (r, _) = run_program("let x:num = 1;\nx(1);");
    assert_eq!(r, Err(RuntimeError::NotAFunction("x".to_string())));
}

/// A call with fewer arguments than parameters is an arity mismatch.
#[test]
fn arity_mismatch() {
    let (r, _) = run_program("let f:fn = (x:num, y:num):num => x + y;\nf(1);");
    assert_eq!(r, Err(RuntimeError::ArityMismatch("f".to_string())));
}

/// Adding a number to a boolean has no evaluation rule.
#[test]
fn binary_type_mismatch() {
    let (r, _) = run_program("1 + true;");
    assert_eq!(r, Err(RuntimeError::TypeMismatch));
}

/// Multiplying arrays has no evaluation rule.
#[test]
fn array_invalid_operation() {
    let (r, _) = run_program("[1] * [2];");
    assert_eq!(r, Err(RuntimeError::InvalidOperation));
}

/// Concatenating arrays of different declared element types is refused.
#[test]
fn array_concat_tag_mismatch() {
    let (r, _) = run_program("\"ab\" + [1];");
    assert_eq!(r, Err(RuntimeError::TypeMismatch));
}

/// Arithmetic follows IEEE 754 binary64: division, remainder, subtraction.
#[test]
fn number_arithmetic() {
    let (r, vm) = run_program(
        "let q:num = 7 / 2;\nlet m:num = 7 % 2;\nlet d:num = 5 - 3;\nlet h:num = 0.1 + 0.2;",
    );
    r.unwrap();
    assert_eq!(
        *vm.symbols.get("q").unwrap().expression,
        Expression::Number(3.5f64.to_bits())
    );
    assert_eq!(
        *vm.symbols.get("m").unwrap().expression,
        Expression::Number(1.0f64.to_bits())
    );
    assert_eq!(
        *vm.symbols.get("d").unwrap().expression,
        Expression::Number(2.0f64.to_bits())
    );
    assert_eq!(
        *vm.symbols.get("h").unwrap().expression,
        Expression::Number((0.1f64 + 0.2f64).to_bits())
    );
}

/// Comparisons follow IEEE 754: all six comparison operators.
#[test]
fn number_comparisons() {
    let (r, vm) = run_program(
        "let a:bool = 1 < 2;\nlet b:bool = 2 <= 2;\nlet c:bool = 3 > 2;\nlet d:bool = 2 >= 3;\nlet e:bool = 1 == 1;\nlet f:bool = 1 != 1;",
    );
    r.unwrap();
    assert_eq!(*vm.symbols.get("a").unwrap().expression, Expression::Bool(true));
    assert_eq!(*vm.symbols.get("b").unwrap().expression, Expression::Bool(true));
    assert_eq!(*vm.symbols.get("c").unwrap().expression, Expression::Bool(true));
    assert_eq!(*vm.symbols.get("d").unwrap().expression, Expression::Bool(false));
    assert_eq!(*vm.symbols.get("e").unwrap().expression, Expression::Bool(true));
    assert_eq!(*vm.symbols.get("f").unwrap().expression, Expression::Bool(false));
}

/// Division by zero follows IEEE 754: one over zero is infinite.
#[test]
fn division_by_zero() {
    let (r, vm) = run_program("let x:num = 1 / 0;");
    r.unwrap();
    assert_eq!(
        *vm.symbols.get("x").unwrap().expression,
        Expression::Number(f64::INFINITY.to_bits())
    );
}

/// The square root builtin is the correctly rounded binary64 square root.
#[test]
fn sqrt_builtin() {
    let (r, vm) = run_program("let a:num = sqrt(9);\nlet b:num = sqrt(2);");
    r.unwrap();
    assert_eq!(
        *vm.symbols.get("a").unwrap().expression,
        Expression::Number(3.0f64.to_bits())
    );
    assert_eq!(
        *vm.symbols.get("b").unwrap().expression,
        Expression::Number(2.0f64.sqrt().to_bits())
    );
}

/// The square root of anything but a number is a type mismatch.
#[test]
fn sqrt_type_mismatch() {
    let (r, _) = run_program("sqrt(true);");
    assert_eq!(r, Err(RuntimeError::TypeMismatch));
}

/// The array builtins: head, tail, last and len.
#[test]
fn array_builtins() {
    let (r, vm) = run_program(
        "let xs:[num] = [4, 5, 6];\nlet h:num = head(xs);\nlet t:[num] = tail(xs);\nlet l:num = last(xs);\nlet n:num = len(xs);\nlet eh:bool = head([]);\nlet el:bool = last([]);\nlet et:[num] = tail([]);",
    );
    r.unwrap();
    assert_eq!(
        *vm.symbols.get("h").unwrap().expression,
        Expression::Number(4.0f64.to_bits())
    );
    assert_eq!(
        *vm.symbols.get("t").unwrap().expression,
        Expression::Array(
            Type::Number,
            vec![
                Expression::Number(5.0f64.to_bits()),
                Expression::Number(6.0f64.to_bits()),
            ]
        )
    );
    assert_eq!(
        *vm.symbols.get("l").unwrap().expression,
        Expression::Number(6.0f64.to_bits())
    );
    assert_eq!(
        *vm.symbols.get("n").unwrap().expression,
        Expression::Number(3.0f64.to_bits())
    );
    assert_eq!(*vm.symbols.get("eh").unwrap().expression, Expression::Bool(false));
    assert_eq!(*vm.symbols.get("el").unwrap().expression, Expression::Bool(false));
    assert_eq!(
        *vm.symbols.get("et").unwrap().expression,
        Expression::Array(Type::Number, vec![])
    );
}

/// The print builtin hands its evaluated argument back.
#[test]
fn print_returns_its_argument() {
    let (r, vm) = run_program("let x:num = print(5);");
    r.unwrap();
    assert_eq!(
        *vm.symbols.get("x").unwrap().expression,
        Expression::Number(5.0f64.to_bits())
    );
}

/// Printing a function value is a formatting error.
#[test]
fn print_function_is_format_error() {
    let (r, _) = run_program("let f:fn = (x:num):num => x;\nprint(f);");
    assert_eq!(r, Err(RuntimeError::FormatError));
}

/// The time builtin yields a number.
#[test]
fn time_yields_a_number() {
    let (r, vm) = run_program("let t:num = time();");
    r.unwrap();
    match *vm.symbols.get("t").unwrap().expression {
        Expression::Number(_) => {}
        ref other => panic!("expected a number, got {:?}", other),
    }
}

/// Value rendering: numbers decimally, booleans as words, chars as
/// themselves, char arrays as strings, other arrays bracketed.
#[test]
fn value_rendering() {
    assert_eq!(format_value(&Expression::Bool(true)).unwrap(), "true");
    assert_eq!(format_value(&Expression::Char(b'a')).unwrap(), "a");
    assert_eq!(
        format_value(&Expression::Array(
            Type::Char,
            vec![Expression::Char(b'h'), Expression::Char(b'i')]
        ))
        .unwrap(),
        "hi"
    );
    assert_eq!(
        format_value(&Expression::Array(
            Type::Number,
            vec![
                Expression::Number(1.0f64.to_bits()),
                Expression::Number(2.0f64.to_bits()),
            ]
        ))
        .unwrap(),
        "[1, 2]"
    );
    assert_eq!(
        format_value(&Expression::Number(20000.0f64.to_bits())).unwrap(),
        "20000"
    );
    assert_eq!(format_value(&Expression::Number(1.5f64.to_bits())).unwrap(), "1.5");
}

/// Shadowing in a scope chain: the newest binding of a name wins, and the
/// outer binding stays untouched underneath.
#[test]
fn scope_chain_shadowing() {
    let mut outer = ScopedSymbols::new();
    outer.insert(
        "x".to_string(),
        nino::ast::Declaration {
            name: "x".to_string(),
            type_: Type::Number,
            expression: Box::new(Expression::Number(1.0f64.to_bits())),
        },
    );
    let mut inner = ScopedSymbols::with_parent(&outer);
    inner.insert(
        "x".to_string(),
        nino::ast::Declaration {
            name: "x".to_string(),
            type_: Type::Number,
            expression: Box::new(Expression::Number(2.0f64.to_bits())),
        },
    );
    assert_eq!(
        *inner.get("x").unwrap().expression,
        Expression::Number(2.0f64.to_bits())
    );
    assert_eq!(
        *outer.get("x").unwrap().expression,
        Expression::Number(1.0f64.to_bits())
    );
    assert!(outer.get("missing").is_none());
}

/// A function literal followed by a match suffix parses as a match over
/// the literal, as a group followed by one does.
#[test]
fn function_literal_parses_in_larger_expression() {
    let tokens = tokenize("let f:fn = (x:num):num => x + 1;").unwrap();
    let items = parse(&tokens).unwrap();
    match &items[0] {
        nino::parser::Item::Declaration(d) => match &*d.expression {
            Expression::FunctionDeclaration(f) => {
                assert_eq!(f.parameters.len(), 1);
                assert_eq!(f.parameters[0].name, "x");
            }
            other => panic!("expected a function literal, got {:?}", other),
        },
        other => panic!("expected a declaration, got {:?}", other),
    }
}

/// A parse error points at the offending token.
#[test]
fn parse_error_carries_token() {
    let tokens = tokenize("let x num = 3;").unwrap();
    let err = parse(&tokens).unwrap_err();
    assert_eq!(err.message, "Expected colon");
    let token = err.token.unwrap();
    assert_eq!(token.kind, TokenKind::Identifier("num".to_string()));
}

/// The caret display renders the offending line with a pointer under the
/// token's span.
#[test]
fn caret_display() {
    let input = "let x:num = 3;";
    let token = Token::new(TokenKind::Identifier("x".to_string()), 4, 4);
    let display = generate_error_location_display(input, &token);
    assert_eq!(display, "let x:num = 3;\n  ^");
}
