use dslc::frontend::{parse, parse_expr, tokenize, Expr, Stmt, Typ};

const ITERATIVE_FIB: &str = "
    fn iterative_fib(n: i64) -> (r: i64) {
        if n == 0 {
            r = 0;
        } else {
            n = n - 1;
            let a: i64 = 0;
            r = 1;
            while n != 0 {
                let t: i64 = r;
                r = r + a;
                a = t;
                n = n - 1;
            }
        }
    }
";

#[test]
fn parses_a_minimal_function() {
    let prog = parse("fn foo(a: i64, b: i64) -> (c: i64){\n    c = 0;\n    c = c + 2;\n}\n")
        .unwrap();
    assert_eq!(prog.name, "foo");
    assert_eq!(prog.params.len(), 2);
    assert_eq!(prog.params[0].name, "a");
    assert_eq!(prog.params[0].typ, Typ::I64);
    assert_eq!(prog.params[1].name, "b");
    let ret = prog.returns.expect("return slot");
    assert_eq!(ret.name, "c");
    assert_eq!(ret.typ, Typ::I64);
    assert_eq!(prog.body.len(), 2);
    match &prog.body[1] {
        Stmt::Assign(name, e) => {
            assert_eq!(name, "c");
            match &**e {
                Expr::Add(l, r) => {
                    assert!(matches!(&**l, Expr::Identifier(n) if n == "c"));
                    assert!(matches!(&**r, Expr::Literal(t) if t == "2"));
                }
                _ => panic!("expected an addition"),
            }
        }
        _ => panic!("expected an assignment"),
    }
}

#[test]
fn parses_iterative_fibonacci() {
    let prog = parse(ITERATIVE_FIB).unwrap();
    assert_eq!(prog.name, "iterative_fib");
    assert_eq!(prog.params.len(), 1);
    assert_eq!(prog.params[0].name, "n");
    assert_eq!(prog.body.len(), 1);
    match &prog.body[0] {
        Stmt::IfElse(cond, then_body, else_body) => {
            assert!(matches!(&**cond, Expr::CmpEq(_, _)));
            assert_eq!(then_body.len(), 1);
            assert_eq!(else_body.len(), 4);
            assert!(matches!(&else_body[3], Stmt::WhileLoop(_, body) if body.len() == 4));
        }
        _ => panic!("expected a conditional"),
    }
}

#[test]
fn iterative_fibonacci_builds_in_a_session() {
    let prog = parse(ITERATIVE_FIB).unwrap();
    let mut builder = dslc::assembler::Assembler::new();
    let tf = builder.build_program(&prog).unwrap();
    assert_eq!(tf.name, "iterative_fib");
    assert_eq!(tf.body.len(), 1);
}

#[test]
fn multiplication_binds_tighter_than_addition() {
    let ts = tokenize("1 + 2 * 3").unwrap();
    let (e, used) = parse_expr(&ts, 0).unwrap();
    assert_eq!(used, 5);
    match e {
        Expr::Add(l, r) => {
            assert!(matches!(*l, Expr::Literal(t) if t == "1"));
            assert!(matches!(*r, Expr::Mul(_, _)));
        }
        _ => panic!("expected addition at the top"),
    }
}

#[test]
fn subtraction_is_left_associative() {
    let ts = tokenize("9 - 2 - 3").unwrap();
    let (e, _) = parse_expr(&ts, 0).unwrap();
    match e {
        Expr::Sub(l, r) => {
            assert!(matches!(*l, Expr::Sub(_, _)));
            assert!(matches!(*r, Expr::Literal(t) if t == "3"));
        }
        _ => panic!("expected subtraction at the top"),
    }
}

#[test]
fn comparisons_bind_loosest() {
    let ts = tokenize("a + 1 < b * 2").unwrap();
    let (e, _) = parse_expr(&ts, 0).unwrap();
    match e {
        Expr::CmpLt(l, r) => {
            assert!(matches!(*l, Expr::Add(_, _)));
            assert!(matches!(*r, Expr::Mul(_, _)));
        }
        _ => panic!("expected a comparison at the top"),
    }
}

#[test]
fn division_parses() {
    let ts = tokenize("8 / 2").unwrap();
    let (e, _) = parse_expr(&ts, 0).unwrap();
    assert!(matches!(e, Expr::Div(_, _)));
}

#[test]
fn address_of_parses_as_global_data() {
    let ts = tokenize("&hello_string").unwrap();
    let (e, used) = parse_expr(&ts, 0).unwrap();
    assert_eq!(used, 2);
    assert!(matches!(e, Expr::GlobalDataAddr(n) if n == "hello_string"));
}

#[test]
fn calls_parse_with_arguments() {
    let prog = parse("fn x(a: ptr) { read_b(get_array(a, 0), 1 + 2); }").unwrap();
    match &prog.body[0] {
        Stmt::SideEffect(e) => match &**e {
            Expr::Call(name, args) => {
                assert_eq!(name, "read_b");
                assert_eq!(args.len(), 2);
                assert!(matches!(&args[0], Expr::Call(inner, inner_args)
                    if inner == "get_array" && inner_args.len() == 2));
            }
            _ => panic!("expected a call"),
        },
        _ => panic!("expected an expression statement"),
    }
}

#[test]
fn an_if_requires_both_branches() {
    let r = parse("fn f(a: i64) { if a == 0 { a = 1; } }");
    assert!(r.is_err());
    let e = r.unwrap_err();
    assert_eq!(e.expected, "'else'");
}

#[test]
fn an_unknown_type_annotation_is_a_parse_error() {
    let r = parse("fn f(a: i65) { }");
    let e = r.unwrap_err();
    assert_eq!(e.expected, "type");
    assert_eq!(e.pos, 8);
}

#[test]
fn a_stray_character_is_a_parse_error_at_its_position() {
    let r = parse("fn f() { #a; }");
    let e = r.unwrap_err();
    assert_eq!(e.pos, 9);
}

#[test]
fn trailing_input_is_rejected() {
    let r = parse("fn f() { } extra");
    let e = r.unwrap_err();
    assert_eq!(e.expected, "end of input");
}

#[test]
fn no_partial_tree_on_failure() {
    assert!(parse("fn f(").is_err());
    assert!(parse("").is_err());
    assert!(parse("fn f() {").is_err());
    assert!(parse("fn f() { let x i64; }").is_err());
}

#[test]
fn whitespace_is_insignificant() {
    let compact = parse("fn f(a:i64)->(c:i64){c=a;}").unwrap();
    let spaced = parse("fn f ( a : i64 ) -> ( c : i64 ) {\n\tc = a ;\n}").unwrap();
    assert_eq!(compact.name, spaced.name);
    assert_eq!(compact.params.len(), spaced.params.len());
    assert_eq!(compact.body.len(), spaced.body.len());
}

#[test]
fn declarations_and_initializations_parse() {
    let prog = parse("fn f() { let x: i64; let y: ptr = x; x = 3; }").unwrap();
    assert_eq!(prog.body.len(), 3);
    assert!(matches!(&prog.body[0], Stmt::Declare(nt) if nt.name == "x" && nt.typ == Typ::I64));
    assert!(matches!(&prog.body[1], Stmt::Initialization(nt, _) if nt.typ == Typ::Ptr));
    assert!(matches!(&prog.body[2], Stmt::Assign(n, _) if n == "x"));
}

#[test]
fn a_bang_without_equals_is_an_error() {
    let e = parse("fn f() { a ! b; }").unwrap_err();
    assert_eq!(e.pos, 11);
    assert_eq!(e.expected, "'='");
}

#[test]
fn identifiers_take_the_longest_run() {
    // "fnord" is one identifier, not the keyword "fn" followed by "ord"
    let prog = parse("fn fnord() { }").unwrap();
    assert_eq!(prog.name, "fnord");
    assert!(prog.body.is_empty());
    assert!(prog.returns.is_none());
}

#[test]
fn multi_digit_literals_keep_their_text() {
    let ts = tokenize("1234 + 5").unwrap();
    let (e, _) = parse_expr(&ts, 0).unwrap();
    match e {
        Expr::Add(l, _) => assert!(matches!(*l, Expr::Literal(t) if t == "1234")),
        _ => panic!("expected addition"),
    }
}

#[test]
fn a() {
    // An end-to-end front-end exercise: register the native helpers, then
    // parse and type-check the column-walking source against them. Emission
    // and execution belong to the backend collaborator.
    let mut builder = dslc::assembler::Assembler::new();
    let symbols: Vec<(&str, usize, Vec<dslc::assembler::Type>, Option<dslc::assembler::Type>)> = vec![
        ("get_array", 0x1000, vec![dslc::assembler::Type::Ptr64, dslc::assembler::Type::I64],
            Some(dslc::assembler::Type::Ptr64)),
        ("read_b", 0x2000, vec![dslc::assembler::Type::Ptr64, dslc::assembler::Type::I64], None),
        ("print", 0x3000, vec![dslc::assembler::Type::I64], None),
    ];
    for (name, addr, params, ret) in symbols {
        builder.register_extern_fn(name, addr, params, ret).unwrap();
    }
    let ccc = "
        fn x(a: ptr) {
            let v0: ptr = get_array(a, 0);
            read_b(v0, 0);
            let v1: ptr = get_array(a, 1);
            read_b(v1, 1);
            let v2: ptr = get_array(a, 2);
            read_b(v2, 2);
        }
    ";
    let prog = parse(ccc).unwrap();
    let tf = builder.build_program(&prog).unwrap();
    assert_eq!(tf.name, "x");
    assert_eq!(tf.body.len(), 6);
    let foo = parse("fn foo(a: i64, b: i64) -> (c: i64){\n    c = 0;\n    c = c + 2;\n}\n")
        .unwrap();
    assert!(builder.build_program(&foo).is_ok());
    let fib = parse(ITERATIVE_FIB).unwrap();
    assert!(builder.build_program(&fib).is_ok());
}
