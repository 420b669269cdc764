use cacau::{interpret_ast, parse_input};

const PASSING: [&str; 9] = [
    "",
    ";;;",
    "let x = 10;\nlet y = x * 2 + 1;\nassert(y == 21);\n",
    "fn double(x) { return x * 2; }\nassert(double(21) == 42);\n",
    "// a comment on a line of its own\nlet total = 1 + 2; // and one after a statement\nassert(total == 3);\n",
    "fn square(n) { return n * n; }\nfn twice(n) { return square(n) + square(n); }\nassert(twice(3) == 18);\n",
    "assert(not (1 > 2));\nassert(1 <= 1);\nassert(2 >= 1);\nassert(1 != 2);\nassert(-3 < 3);\n",
    "println(1_000);\nprint(true);\ndbg(2 - 5);\n",
    "let last = 1; // a comment that the end of the text closes",
];

const FAILING: [&str; 10] = [
    "assert(false);",
    "assert(1);",
    "missing;",
    "missing(1);",
    "1 + true;",
    "not 1;",
    "-true;",
    "1 / 0;",
    "fn f(x) { return x; }\nf();",
    "fn f(x) { return f(x); }\nf(1);",
];

#[test]
fn test_cacau_passes() {
    for input in PASSING {
        let ast = parse_input(input).unwrap_or_else(|err| {
            panic!(
                "expected the program '{input}' to parse succcessfully\n\
                 parsing failed: {error:#?}",
                error = Err::<(), _>(err)
            )
        });

        interpret_ast(&ast).0.unwrap_or_else(|err| {
            panic!(
                "expected the program '{input}' to be interpreted successfully\n\
                 it failed: {error:#?}",
                error = Err::<(), _>(err)
            )
        });
    }
}

#[test]
fn test_cacau_fail_to_interpret() {
    for input in FAILING {
        let ast = parse_input(input).unwrap_or_else(|err| {
            panic!(
                "expected the program '{input}' to parse succcessfully\n\
                 parsing failed: {error:#?}",
                error = Err::<(), _>(err)
            )
        });

        if interpret_ast(&ast).0.is_ok() {
            panic!(
                "expected the program '{input}' to fail to be interpreted\n\
                 it succeeded: {ast:#?}",
                ast = Ok::<_, ()>(ast)
            );
        }
    }
}
