use nino::ast::Declaration;
use nino::ast::Expression;
use nino::ast::Type;
use nino::lexer::tokenize;
use nino::parser::parse;
use nino::parser::BinaryOperation;
use nino::parser::BinaryOperator;
use nino::scoped_symbols::ScopedSymbols;
use nino::virtual_machine::VirtualMachine;

#[test]
fn test_scoped_symbols() {
    let mut symbols = ScopedSymbols::new();
    symbols.insert(
        "a".to_string(),
        Declaration {
            name: "a".to_string(),
            type_: Type::Number,
            expression: Box::new(Expression::Number(1.0f64.to_bits())),
        },
    );

    let mut symbols2 = ScopedSymbols::with_parent(&symbols);
    symbols2.insert(
        "b".to_string(),
        Declaration {
            name: "b".to_string(),
            type_: Type::Number,
            expression: Box::new(Expression::Number(2.0f64.to_bits())),
        },
    );

    let a = symbols2.get("a").unwrap();
    assert_eq!(a.name, "a");
    assert_eq!(a.type_, Type::Number);
    assert_eq!(*a.expression, Expression::Number(1.0f64.to_bits()));

    let b = symbols2.get("b").unwrap();
    assert_eq!(b.name, "b");
    assert_eq!(b.type_, Type::Number);
    assert_eq!(*b.expression, Expression::Number(2.0f64.to_bits()));
}

/// Testing a evalutation of a simple expression (1 + 2)
#[test]
fn virtual_machine_test_expression() {
    let expression = Expression::BinaryOperation(BinaryOperation {
        operator: BinaryOperator::Add,
        left: Box::new(Expression::Number(1.0f64.to_bits())),
        right: Box::new(Expression::Number(2.0f64.to_bits())),
    });

    let mut vm = VirtualMachine::new();
    let result = vm.evaluate(expression);

    assert_eq!(result, Ok(Expression::Number(3.0f64.to_bits())));
}

/// Testing a evalutation of a simple expression (1 + 2)
#[test]
fn mod_test_expression() {
    let expression = Expression::BinaryOperation(BinaryOperation {
        operator: BinaryOperator::Add,
        left: Box::new(Expression::Number(1.0f64.to_bits())),
        right: Box::new(Expression::Number(2.0f64.to_bits())),
    });

    let mut vm = VirtualMachine::new();
    let result = vm.evaluate(expression);

    assert_eq!(result, Ok(Expression::Number(3.0f64.to_bits())));
}

/// Testing a declaration of factorial function and calling it
#[test]
fn virtual_machine_test_recursion() {
    let declare = "let factorial:fn = (n:num):num => n ? {
    0 => 1,
    n * factorial(n - 1)
};
        ";
    let tokens = tokenize(declare).unwrap();
    let declaration_ast = parse(&tokens).unwrap();

    let input = "let result:num = factorial(5);";
    let tokens = tokenize(input).unwrap();
    let expression = parse(&tokens).unwrap();

    let mut vm = VirtualMachine::new();

    vm.run(declaration_ast).unwrap();
    vm.run(expression).unwrap();
    let result = *vm.symbols.get("result").unwrap().expression;
    assert_eq!(result, Expression::Number(120.0f64.to_bits()));

    let function = vm.symbols.get("factorial").unwrap();
    assert_eq!(function.name, "factorial");
    assert_eq!(function.type_, Type::Function);
}

/// Testing decalration of arrays and concatenation
#[test]
fn virtual_machine_test_array_operations() {
    let declare = "let array:[num] = [1, 2, 3, 4, 5];
        let array2:[num] = [6, 7, 8, 9, 10];
        let array3:[num] = array + array2;";

    let tokens = tokenize(declare).unwrap();
    let program = parse(&tokens).unwrap();

    let mut vm = VirtualMachine::new();

    vm.run(program).unwrap();

    let result = *vm.symbols.get("array3").unwrap().expression;
    assert_eq!(
        result,
        Expression::Array(
            Type::Number,
            vec![
                Expression::Number(1.0f64.to_bits()),
                Expression::Number(2.0f64.to_bits()),
                Expression::Number(3.0f64.to_bits()),
                Expression::Number(4.0f64.to_bits()),
                Expression::Number(5.0f64.to_bits()),
                Expression::Number(6.0f64.to_bits()),
                Expression::Number(7.0f64.to_bits()),
                Expression::Number(8.0f64.to_bits()),
                Expression::Number(9.0f64.to_bits()),
                Expression::Number(10.0f64.to_bits()),
            ]
        )
    );
}

/// Testing declaration of a string and concatenation
#[test]
fn virtual_machine_test_string() {
    let declare = "let string:[char] = \"Hello\" + \", World!\";";

    let tokens = tokenize(declare).unwrap();
    let program = parse(&tokens).unwrap();

    let mut vm = VirtualMachine::new();
    vm.run(program).unwrap();

    let result = *vm.symbols.get("string").unwrap().expression;
    assert_eq!(
        result,
        Expression::Array(
            Type::Char,
            vec![
                Expression::Char(b'H'),
                Expression::Char(b'e'),
                Expression::Char(b'l'),
                Expression::Char(b'l'),
                Expression::Char(b'o'),
                Expression::Char(b','),
                Expression::Char(b' '),
                Expression::Char(b'W'),
                Expression::Char(b'o'),
                Expression::Char(b'r'),
                Expression::Char(b'l'),
                Expression::Char(b'd'),
                Expression::Char(b'!'),
            ]
        )
    );
}

/// Testing tail call optimization
#[test]
fn virtual_machine_tail_optimization() {
    let declare = "let increment:fn = (x:num, i:num):num => i ? {
    0 => x,
    increment(x + 1, i - 1)
};
let incremented:num = increment(0, 20000);";
    let tokens = tokenize(declare).unwrap();
    let program = parse(&tokens).unwrap();

    let mut vm = VirtualMachine::new();

    vm.run(program).unwrap();

    let result = *vm.symbols.get("incremented").unwrap().expression;
    assert_eq!(result, Expression::Number(20000.0f64.to_bits()));
}

/// Testing scope
#[test]
fn virtual_machine_test_scope() {
    let declare = "let x:num = 0;
let func:fn = (x:num):num=>x+1;
func(1);
";

    let tokens = tokenize(declare).unwrap();
    let program = parse(&tokens).unwrap();

    let mut vm = VirtualMachine::new();

    vm.run(program).unwrap();

    let result = *vm.symbols.get("x").unwrap().expression;
    assert_eq!(result, Expression::Number(0.0f64.to_bits()));
}
