use dslc::assembler::{Assembler, BuildError, Type};
use dslc::frontend::{parse, Typ};

#[test]
fn type_from_recognizes_every_backend_spelling() {
    assert_eq!(Type::from("bool"), Some(Type::Bool));
    assert_eq!(Type::from("i8"), Some(Type::I8));
    assert_eq!(Type::from("i16"), Some(Type::I16));
    assert_eq!(Type::from("i32"), Some(Type::I32));
    assert_eq!(Type::from("i64"), Some(Type::I64));
    assert_eq!(Type::from("f32"), Some(Type::F32));
    assert_eq!(Type::from("f64"), Some(Type::F64));
    assert_eq!(Type::from("ptr32"), Some(Type::Ptr32));
    assert_eq!(Type::from("ptr64"), Some(Type::Ptr64));
}

#[test]
fn type_from_rejects_unknown_tokens() {
    assert_eq!(Type::from(""), None);
    assert_eq!(Type::from("i65"), None);
    assert_eq!(Type::from("Bool"), None);
    assert_eq!(Type::from("ptr"), None);
}

#[test]
fn surface_lowering_is_fixed() {
    assert_eq!(dslc::assembler::lower(Typ::Ptr), Type::Ptr64);
    assert_eq!(dslc::assembler::lower(Typ::I64), Type::I64);
}

#[test]
fn fresh_names_count_up_per_base() {
    let mut builder = Assembler::new();
    assert_eq!(builder.state.fresh_name("v"), "v_0");
    assert_eq!(builder.state.fresh_name("v"), "v_1");
    assert_eq!(builder.state.fresh_name("w"), "w_0");
    assert_eq!(builder.state.fresh_name("v"), "v_2");
    assert_eq!(builder.state.fresh_name("w"), "w_1");
    assert_eq!(builder.state.fresh_name("v"), "v_3");
}

#[test]
fn fresh_names_render_multi_digit_counters() {
    let mut builder = Assembler::new();
    for i in 0..12 {
        let name = builder.state.fresh_name("blk");
        assert_eq!(name, format!("blk_{}", i));
    }
}

#[test]
fn decimal_rendering_is_plain() {
    assert_eq!(dslc::assembler::u64_to_string(0), "0");
    assert_eq!(dslc::assembler::u64_to_string(7), "7");
    assert_eq!(dslc::assembler::u64_to_string(10), "10");
    assert_eq!(dslc::assembler::u64_to_string(90210), "90210");
}

#[test]
fn unknown_identifier_is_reported_by_name() {
    let builder = Assembler::new();
    match builder.id("b") {
        Err(BuildError::UnknownIdentifier(n)) => assert_eq!(n, "b"),
        _ => panic!("expected an unknown-identifier error"),
    }
}

#[test]
fn duplicate_extern_keeps_the_first_registration() {
    let mut builder = Assembler::new();
    assert!(builder.register_extern_fn("g", 0x1000, vec![Type::I64], None).is_ok());
    match builder.register_extern_fn("g", 0x2000, vec![Type::Ptr64], Some(Type::I64)) {
        Err(BuildError::DuplicateFunction(n)) => assert_eq!(n, "g"),
        _ => panic!("expected a duplicate-function error"),
    }
    let sig = builder.get_extern("g").expect("g must still resolve");
    assert_eq!(sig.code, 0x1000);
    assert_eq!(sig.params, vec![Type::I64]);
    assert!(sig.returns.is_none());
}

#[test]
fn call_arity_mismatch_is_reported() {
    let mut builder = Assembler::new();
    builder.register_extern_fn("g", 0x1000, vec![Type::I64], None).unwrap();
    let a = builder.lit("1".to_owned(), Type::I64);
    let b = builder.lit("2".to_owned(), Type::I64);
    match builder.call("g", vec![a, b]) {
        Err(BuildError::ArityMismatch { func, expected, actual }) => {
            assert_eq!(func, "g");
            assert_eq!(expected, 1);
            assert_eq!(actual, 2);
        }
        _ => panic!("expected an arity error"),
    }
}

#[test]
fn call_argument_type_mismatch_names_the_index() {
    let mut builder = Assembler::new();
    builder.register_extern_fn("g", 0x1000, vec![Type::I64], None).unwrap();
    let ptr_value = builder.lit("0".to_owned(), Type::Ptr64);
    match builder.call("g", vec![ptr_value]) {
        Err(BuildError::ArgTypeMismatch { func, index, expected, actual }) => {
            assert_eq!(func, "g");
            assert_eq!(index, 0);
            assert_eq!(expected, Type::I64);
            assert_eq!(actual, Type::Ptr64);
        }
        _ => panic!("expected an argument-type error"),
    }
}

#[test]
fn call_to_unregistered_name_fails() {
    let builder = Assembler::new();
    match builder.call("nope", vec![]) {
        Err(BuildError::UnknownFunction(n)) => assert_eq!(n, "nope"),
        _ => panic!("expected an unknown-function error"),
    }
}

#[test]
fn call_without_return_type_is_nil() {
    let mut builder = Assembler::new();
    builder.register_extern_fn("p", 0x1000, vec![Type::I64], None).unwrap();
    let a = builder.lit("3".to_owned(), Type::I64);
    let e = builder.call("p", vec![a]).unwrap();
    assert_eq!(e.get_type(), Type::Nil);
}

#[test]
fn call_takes_its_declared_return_type() {
    let mut builder = Assembler::new();
    builder.register_extern_fn("h", 0x1000, vec![], Some(Type::Ptr64)).unwrap();
    let e = builder.call("h", vec![]).unwrap();
    assert_eq!(e.get_type(), Type::Ptr64);
}

#[test]
fn undeclared_assignment_target_fails_compilation() {
    let prog = parse("fn f(a: i64) { b = a; }").unwrap();
    let mut builder = Assembler::new();
    match builder.build_program(&prog) {
        Err(BuildError::UnknownIdentifier(n)) => assert_eq!(n, "b"),
        _ => panic!("expected an unknown-identifier error naming b"),
    }
}

#[test]
fn extern_call_type_checking_from_source() {
    let mut builder = Assembler::new();
    builder.register_extern_fn("g", 0x1000, vec![Type::I64], None).unwrap();
    // too many arguments
    let prog = parse("fn f(x: i64) { g(x, x); }").unwrap();
    match builder.build_program(&prog) {
        Err(BuildError::ArityMismatch { func, expected, actual }) => {
            assert_eq!(func, "g");
            assert_eq!(expected, 1);
            assert_eq!(actual, 2);
        }
        _ => panic!("expected an arity error"),
    }
    // a pointer where an integer is declared
    let prog2 = parse("fn f2(p: ptr) { g(p); }").unwrap();
    match builder.build_program(&prog2) {
        Err(BuildError::ArgTypeMismatch { func, index, expected, actual }) => {
            assert_eq!(func, "g");
            assert_eq!(index, 0);
            assert_eq!(expected, Type::I64);
            assert_eq!(actual, Type::Ptr64);
        }
        _ => panic!("expected an argument-type error at index 0"),
    }
}

#[test]
fn same_source_compiles_twice_in_one_session() {
    let src = "fn foo(a: i64, b: i64) -> (c: i64) { c = 0; c = c + 2; }";
    let mut builder = Assembler::new();
    let first = builder.build_program(&parse(src).unwrap());
    assert!(first.is_ok());
    let second = builder.build_program(&parse(src).unwrap());
    assert!(second.is_ok());
    // fresh internal names drawn during the two compilations never collide
    let n1 = builder.state.fresh_name("header_block");
    let n2 = builder.state.fresh_name("header_block");
    assert_ne!(n1, n2);
}

#[test]
fn typed_function_carries_lowered_declarations() {
    let src = "fn foo(a: i64, p: ptr) -> (c: i64) { c = a; }";
    let mut builder = Assembler::new();
    let tf = builder.build_program(&parse(src).unwrap()).unwrap();
    assert_eq!(tf.name, "foo");
    assert_eq!(tf.params.len(), 2);
    assert_eq!(tf.params[0].name, "a");
    assert_eq!(tf.params[0].typ, Type::I64);
    assert_eq!(tf.params[1].name, "p");
    assert_eq!(tf.params[1].typ, Type::Ptr64);
    let ret = tf.returns.expect("a return slot was declared");
    assert_eq!(ret.name, "c");
    assert_eq!(ret.typ, Type::I64);
    assert_eq!(tf.body.len(), 1);
}

#[test]
fn global_data_address_is_pointer_typed() {
    let prog = parse("fn hello() -> (r: i64) { r = 0; puts(&hello_string); }").unwrap();
    let mut builder = Assembler::new();
    builder.register_extern_fn("puts", 0x4000, vec![Type::Ptr64], Some(Type::I64)).unwrap();
    assert!(builder.build_program(&prog).is_ok());
}
