use cacau::{
    check_and_return_arguments_quantity, interpret_ast, parse_input, CacauError, Expression,
    Function, Interpret, Statement, Value, Vm, DEFAULT_CALL_DEPTH,
};

/// Runs a program in `vm` and gives the value of its last statement, where
/// that is an expression.
fn run_in(vm: &mut Vm, source: &str) -> Result<Value, CacauError> {
    let program = parse_input(source).expect("the source is a program");
    let mut last = Value::Unit;
    for statement in &program {
        last = match statement {
            Statement::Expression(expression) => expression.evaluate(vm)?,
            other => {
                other.evaluate(vm)?;
                Value::Unit
            }
        };
    }
    Ok(last)
}

fn run(source: &str) -> Result<Value, CacauError> {
    run_in(&mut Vm::new(), source)
}

fn output_of(source: &str) -> String {
    let mut vm = Vm::new();
    run_in(&mut vm, source).expect("the program runs");
    vm.output().to_string()
}

#[test]
fn arithmetic_evaluates() {
    assert_eq!(run("1 + 2;"), Ok(Value::Number(3)));
    assert_eq!(run("5 / 2;"), Ok(Value::Number(2)));
    assert_eq!(run("2 * (3 + 4);"), Ok(Value::Number(14)));
    assert_eq!(run("1 + 2 * 3;"), Ok(Value::Number(7)));
    assert_eq!(run("1 - 2 - 3;"), Ok(Value::Number(-4)));
    assert_eq!(run("-2 * 3;"), Ok(Value::Number(-6)));
    assert_eq!(run("-7 / 2;"), Ok(Value::Number(-3)));
    assert_eq!(run("2147483647 + 1;"), Ok(Value::Number(i32::MIN)));
    assert_eq!(run("-(-2147483647 - 1);"), Ok(Value::Number(i32::MIN)));
}

#[test]
fn comparisons_evaluate() {
    assert_eq!(run("3 < 5;"), Ok(Value::Bool(true)));
    assert_eq!(run("5 < 3;"), Ok(Value::Bool(false)));
    assert_eq!(run("1 + 1 == 2;"), Ok(Value::Bool(true)));
    assert_eq!(run("1 == true;"), Ok(Value::Bool(false)));
    assert_eq!(run("1 != true;"), Ok(Value::Bool(true)));
    assert_eq!(run("print(1) == print(2);"), Ok(Value::Bool(true)));
    assert_eq!(run("not true == false;"), Ok(Value::Bool(true)));
    assert_eq!(
        run("3 < true;"),
        Err(CacauError::InvalidBinaryOperation("number", "compare", "bool"))
    );
}

#[test]
fn both_operands_are_evaluated() {
    assert_eq!(run("1 == missing;"), Err(CacauError::UndefinedVariable("missing".to_string())));
    assert_eq!(output_of("print(1) != print(2);"), "12");
    assert_eq!(
        run("(1 + true) + missing;"),
        Err(CacauError::InvalidBinaryOperation("number", "add", "bool"))
    );
    assert_eq!(run("missing + (1 + true);"), Err(CacauError::UndefinedVariable(
        "missing".to_string()
    )));
}

#[test]
fn variables_hold_what_was_assigned() {
    assert_eq!(run("let x = 10; x;"), Ok(Value::Number(10)));
    assert_eq!(run("let x = 10; let y = x + 1; y * 2;"), Ok(Value::Number(22)));
    assert_eq!(run("y;"), Err(CacauError::UndefinedVariable("y".to_string())));
    assert_eq!(run("let x = x;"), Err(CacauError::UndefinedVariable("x".to_string())));
}

#[test]
fn functions_are_called() {
    assert_eq!(run("fn double(x) { return x * 2; } double(21);"), Ok(Value::Number(42)));
    assert_eq!(run("fn next(n) { return n + 1; } next(next(1));"), Ok(Value::Number(3)));
    assert_eq!(run("nothing(1);"), Err(CacauError::UndefinedFunction("nothing".to_string())));
    assert_eq!(
        run("fn double(x) { return x * 2; } double();"),
        Err(CacauError::WrongAmountOfArguments("double".to_string(), 1, 0))
    );
    assert_eq!(
        run("fn double(x) { return x * 2; } double(1, 2);"),
        Err(CacauError::WrongAmountOfArguments("double".to_string(), 1, 2))
    );
    assert_eq!(
        run("nothing(1, 2, 3);"),
        Err(CacauError::WrongAmountOfArguments("nothing".to_string(), 1, 3))
    );
    assert_eq!(run("print();"), Err(CacauError::WrongAmountOfArguments("print".to_string(), 1, 0)));
}

#[test]
fn the_number_of_arguments_is_checked_before_they_are_evaluated() {
    assert_eq!(
        run("f(missing, 1);"),
        Err(CacauError::WrongAmountOfArguments("f".to_string(), 1, 2))
    );
    assert_eq!(run("f(missing);"), Err(CacauError::UndefinedVariable("missing".to_string())));
}

#[test]
fn a_body_runs_to_its_first_return() {
    assert_eq!(run("fn f(x) { } f(1);"), Ok(Value::Unit));
    assert_eq!(run("fn f(x) { x + 1; } f(1);"), Ok(Value::Unit));
    assert_eq!(run("fn f(x) { return 1; assert(false); } f(0);"), Ok(Value::Number(1)));
    assert_eq!(run("fn f(x) { return 1; return 2; } f(0);"), Ok(Value::Number(1)));
    assert_eq!(
        run("fn f(x) { let y = x + 1; ; return y * 2; } f(4);"),
        Ok(Value::Number(10))
    );
    assert_eq!(run("fn f(x) { assert(x); return 1; } f(false);"), Err(CacauError::AssertionError));
    assert_eq!(
        run("fn f(x) { return missing; } f(0);"),
        Err(CacauError::UndefinedVariable("missing".to_string()))
    );
}

#[test]
fn a_call_binds_its_parameter_in_the_shared_environment() {
    assert_eq!(run("let x = 1; fn f(x) { return x; } f(5); x;"), Ok(Value::Number(5)));
    assert_eq!(run("fn f(n) { let seen = n; } f(7); seen;"), Ok(Value::Number(7)));
    assert_eq!(run("let base = 10; fn f(n) { return base + n; } f(1);"), Ok(Value::Number(11)));
    assert_eq!(run("fn f(n) { return n; } f(3); n;"), Ok(Value::Number(3)));
}

#[test]
fn a_body_may_declare_functions() {
    assert_eq!(
        run("fn outer(x) { fn inner(y) { return y + 1; } return inner(x) * 2; } outer(1);"),
        Ok(Value::Number(4))
    );
    assert_eq!(
        run("fn outer(x) { fn inner(y) { return y; } } inner(1);"),
        Err(CacauError::UndefinedFunction("inner".to_string()))
    );
    assert_eq!(
        run("fn f(x) { fn f(x) { return 1; } return f(x); } f(0);"),
        Ok(Value::Number(1))
    );
}

#[test]
fn the_built_in_assert_checks_a_boolean() {
    assert_eq!(run("assert(true);"), Ok(Value::Unit));
    assert_eq!(run("assert(false);"), Err(CacauError::AssertionError));
    assert_eq!(
        run("assert(5);"),
        Err(CacauError::FunctionWrongArgumentType("assert", "bool", "number"))
    );
    assert_eq!(
        run("assert(print(1));"),
        Err(CacauError::FunctionWrongArgumentType("assert", "bool", "()"))
    );
    assert_eq!(run("assert(1 < 2);"), Ok(Value::Unit));
}

#[test]
fn the_built_in_functions_write_to_the_console() {
    assert_eq!(run("println(42);"), Ok(Value::Unit));
    assert_eq!(run("print(42);"), Ok(Value::Unit));
    assert_eq!(run("dbg(42);"), Ok(Value::Number(42)));
    assert_eq!(run("dbg(true);"), Ok(Value::Bool(true)));
    assert_eq!(run("dbg(print(0));"), Ok(Value::Unit));
    assert_eq!(output_of("println(42);"), "42\n");
    assert_eq!(output_of("print(42);"), "42");
    assert_eq!(output_of("dbg(-7);"), "-7\n");
    assert_eq!(output_of("print(true); print(false);"), "truefalse");
    assert_eq!(output_of("print(print(1));"), "1()");
    assert_eq!(output_of("println(1_000 * 2); println(1 == 2); print(3);"), "2000\nfalse\n3");
    assert_eq!(output_of("assert(true);"), "");
    assert_eq!(output_of("let x = dbg(2) + dbg(3); println(x);"), "2\n3\n5\n");
}

#[test]
fn the_built_in_functions_are_not_shadowed() {
    assert_eq!(run("fn print(x) { return 99; } print(1);"), Ok(Value::Unit));
    assert_eq!(output_of("fn print(x) { return 99; } print(1);"), "1");
    assert_eq!(run("fn dbg(x) { return 99; } dbg(1);"), Ok(Value::Number(1)));
    assert_eq!(run("fn println(x) { return 99; } println(1);"), Ok(Value::Unit));
    assert_eq!(run("fn assert(x) { return 99; } assert(false);"), Err(CacauError::AssertionError));
}

#[test]
fn the_last_write_wins() {
    assert_eq!(run("let x = 1; let x = 2; x;"), Ok(Value::Number(2)));
    assert_eq!(run("let x = 1; let x = true; x;"), Ok(Value::Bool(true)));
    assert_eq!(
        run("fn f(x) { return 1; } fn f(y) { return 2; } f(0);"),
        Ok(Value::Number(2))
    );
    assert_eq!(run("fn f(a) { return 1; } fn f(b) { return b; } f(0); b;"), Ok(Value::Number(0)));
    assert_eq!(
        run("fn f(a) { return 1; } fn f(b) { return b; } f(0); a;"),
        Err(CacauError::UndefinedVariable("a".to_string()))
    );

    let mut vm = Vm::new();
    vm.assign_variable("x".to_string(), Value::Number(1));
    vm.assign_variable("x".to_string(), Value::Number(2));
    assert_eq!(vm.get_variable(&"x".to_string()), Ok(Value::Number(2)));
    vm.declare_function("f".to_string(), Function::new("a".to_string(), vec![]));
    vm.declare_function("f".to_string(), Function::new("b".to_string(), vec![Statement::Empty]));
    let function = vm.get_function(&"f".to_string()).expect("the function is declared");
    assert_eq!(function.arguments, "b");
    assert_eq!(function.body.len(), 1);
}

#[test]
fn variables_and_functions_have_names_of_their_own() {
    assert_eq!(run("let f = 1; fn f(x) { return x + 1; } f(f);"), Ok(Value::Number(2)));
    let mut vm = Vm::new();
    vm.assign_variable("name".to_string(), Value::Unit);
    assert_eq!(
        vm.get_function(&"name".to_string()).map(|function| function.arguments),
        Err(CacauError::UndefinedFunction("name".to_string()))
    );
    vm.declare_function("other".to_string(), Function::new("x".to_string(), vec![]));
    assert_eq!(
        vm.get_variable(&"other".to_string()),
        Err(CacauError::UndefinedVariable("other".to_string()))
    );
}

#[test]
fn division_by_zero_fails() {
    assert_eq!(run("1 / 0;"), Err(CacauError::DivisionByZero));
    assert_eq!(run("let zero = 1 - 1; 10 / zero;"), Err(CacauError::DivisionByZero));
}

#[test]
fn a_return_out_of_place_fails() {
    assert_eq!(run("return 1;"), Err(CacauError::UnsupportedReturn));
    assert_eq!(run("return;"), Err(CacauError::UnsupportedReturn));
    assert_eq!(run("fn f(x) { return; } f(1);"), Err(CacauError::UnsupportedReturn));
    assert_eq!(run("fn f(x) { return; } 1;"), Ok(Value::Number(1)));
}

#[test]
fn calls_nest_to_a_limit() {
    assert_eq!(run("fn f(x) { return f(x); } f(1);"), Err(CacauError::CallDepthExceeded));
    assert_eq!(
        run("fn f(x) { assert(x < 5); f(x + 1); } f(0);"),
        Err(CacauError::AssertionError)
    );

    let mut source = String::new();
    source.push_str("fn f0(x) { return x; }\n");
    for level in 1..DEFAULT_CALL_DEPTH {
        source.push_str(&format!("fn f{}(x) {{ return f{}(x) + 1; }}\n", level, level - 1));
    }
    let deepest = format!("{}f{}(0);", source, DEFAULT_CALL_DEPTH - 1);
    assert_eq!(run(&deepest), Ok(Value::Number(DEFAULT_CALL_DEPTH as i32 - 1)));

    source.push_str(&format!(
        "fn f{}(x) {{ return f{}(x) + 1; }}\n",
        DEFAULT_CALL_DEPTH,
        DEFAULT_CALL_DEPTH - 1
    ));
    let too_deep = format!("{}f{}(0);", source, DEFAULT_CALL_DEPTH);
    assert_eq!(run(&too_deep), Err(CacauError::CallDepthExceeded));
}

#[test]
fn an_environment_can_be_used_after_a_failure() {
    let mut vm = Vm::new();
    assert_eq!(run_in(&mut vm, "fn f(x) { return f(x); } f(1);"), Err(
        CacauError::CallDepthExceeded
    ));
    assert_eq!(run_in(&mut vm, "fn g(x) { return x; } g(2);"), Ok(Value::Number(2)));
    assert_eq!(run_in(&mut vm, "x;"), Ok(Value::Number(2)));
}

#[test]
fn a_program_stops_at_its_first_failure() {
    let program = parse_input("print(1); assert(false); print(2);").expect("a program");
    let mut vm = Vm::new();
    assert_eq!(vm.interpret(&program), Err(CacauError::AssertionError));
    assert_eq!(vm.output(), "1");

    assert_eq!(interpret_ast(&program), (Err(CacauError::AssertionError), "1".to_string()));
    let program = parse_input("let x = 1; print(x);").expect("a program");
    assert_eq!(interpret_ast(&program), (Ok(()), "1".to_string()));
    assert_eq!(interpret_ast(&[]), (Ok(()), String::new()));
}

#[test]
fn a_run_hands_back_what_it_wrote() {
    let statements = [Statement::Expression(Expression::FunctionCall(
        "println".to_string(),
        vec![Expression::Literal(Value::Number(-5))],
    ))];
    assert_eq!(interpret_ast(&statements), (Ok(()), "-5\n".to_string()));

    let program = parse_input("print(1); dbg(true); println(2 * 3); 1 / 0; print(4);")
        .expect("a program");
    assert_eq!(
        interpret_ast(&program),
        (Err(CacauError::DivisionByZero), "1true\n6\n".to_string())
    );
}

#[test]
fn the_limit_of_nesting_can_be_chosen() {
    let source = "fn a(x) { return x + 1; } fn b(x) { return a(x) + 1; } fn c(x) { return b(x) + 1; }";
    let program = parse_input(source).expect("a program");

    let mut vm = Vm::with_call_depth(3);
    assert_eq!(vm.interpret(&program), Ok(()));
    assert_eq!(run_in(&mut vm, "c(0);"), Ok(Value::Number(3)));

    let mut vm = Vm::with_call_depth(2);
    assert_eq!(vm.interpret(&program), Ok(()));
    assert_eq!(run_in(&mut vm, "c(0);"), Err(CacauError::CallDepthExceeded));
    assert_eq!(run_in(&mut vm, "b(0);"), Ok(Value::Number(2)));

    let mut vm = Vm::with_call_depth(0);
    assert_eq!(vm.interpret(&program), Ok(()));
    assert_eq!(run_in(&mut vm, "a(0);"), Err(CacauError::CallDepthExceeded));
    assert_eq!(run_in(&mut vm, "print(1);"), Ok(Value::Unit));
    assert_eq!(run_in(&mut vm, "1 + 2;"), Ok(Value::Number(3)));
}

#[test]
fn the_console_can_be_emptied() {
    let mut vm = Vm::new();
    assert_eq!(vm.output(), "");
    run_in(&mut vm, "println(1);").expect("the program runs");
    assert_eq!(vm.take_output(), "1\n");
    assert_eq!(vm.output(), "");
    run_in(&mut vm, "print(2);").expect("the program runs");
    assert_eq!(vm.take_output(), "2");
}

#[test]
fn a_call_takes_one_argument() {
    let name = "f".to_string();
    let one = vec![7];
    assert_eq!(check_and_return_arguments_quantity(&one, &name), Ok(&7));
    let none: Vec<i32> = vec![];
    assert_eq!(
        check_and_return_arguments_quantity(&none, &name),
        Err(CacauError::WrongAmountOfArguments("f".to_string(), 1, 0))
    );
    let two = vec![1, 2];
    assert_eq!(
        check_and_return_arguments_quantity(&two, &name),
        Err(CacauError::WrongAmountOfArguments("f".to_string(), 1, 2))
    );
}

#[test]
fn trees_are_copied_whole() {
    let program = parse_input("fn f(x) { return g(x, 1) + -x; } let y = f(2);").expect("a program");
    let copies: Vec<Statement> = program.iter().map(|statement| statement.clone()).collect();
    assert_eq!(format!("{:?}", copies), format!("{:?}", program));
    let function = Function::new("x".to_string(), program);
    let copy = function.clone();
    assert_eq!(format!("{:?}", copy), format!("{:?}", function));
    let expression = Expression::Variable("x".to_string());
    assert_eq!(format!("{:?}", expression.clone()), "Variable(\"x\")");
}

#[test]
fn odd_programs_end_without_aborting() {
    for source in [
        "",
        ";",
        "1 / 0;",
        "return;",
        "fn f(x) { return f(x); } f(1);",
        "((((((((((1))))))))));",
        "- - - - 1;",
        "f(",
        "@",
        "let let = 1;",
        "2147483648;",
        "(-2147483647 - 1) / -1;",
        "not 1;",
        "\u{e9}",
        "//",
        "!",
    ] {
        if let Ok(program) = parse_input(source) {
            let _ = interpret_ast(&program);
        }
    }
}
