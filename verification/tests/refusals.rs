//! What is told of texts that get no bindings.
use vision_bindings::bindings::with_bindings;
use vision_bindings::error::{BindingsError, HandlerError};

fn refusal(input: &str) -> HandlerError {
    match with_bindings("", input) {
        Err(BindingsError::Handler(e)) => e,
        other => panic!("{:?}", other),
    }
}

#[test]
fn unreadable_arguments_give_tokens_that_do_not_compile() {
    let code = with_bindings("=", "pub fn handle_ping() {}").unwrap();
    assert_eq!(code, "compile_error ! { \"expected identifier or literal\" }");
}

#[test]
fn arguments_are_read_up_to_the_first_that_cannot_be() {
    for args in ["x c\"s\"", "-c\"s\"", "a = b, c\"s\"", "a: : b = c\"s\"", "true(c\"s\")"] {
        let code = with_bindings(args, "pub fn handle_ping() {}").unwrap();
        assert!(code.starts_with("compile_error ! {"), "{}", args);
    }
    for args in ["x, c\"s\"", "a::b = c\"s\" !", "a(b, c\"s\")"] {
        assert!(matches!(with_bindings(args, ""), Err(BindingsError::Literal(_))), "{}", args);
    }
}

#[test]
fn several_arguments_are_read() {
    let input = "pub fn handle_poll(from: Address, cb: Callback<u64>) {}";
    let one = with_bindings("self", input).unwrap();
    assert_eq!(with_bindings("self, other = 3,", input).unwrap(), one);
    assert_ne!(with_bindings("", input).unwrap(), one);
}

#[test]
fn other_items_are_refused() {
    match with_bindings("", "struct Handler;") {
        Err(BindingsError::Syntax(message)) => assert_eq!(message, "expected `fn`"),
        other => panic!("{:?}", other),
    }
}

#[test]
fn names_without_prefix_are_refused() {
    let e = refusal("pub fn ping(from: Address, cb: Callback<u32>) {}");
    assert_eq!(e, HandlerError::NotAHandler);
    assert_eq!(
        e.message(),
        "Must be a message handler starting with handle_, followed by the name of the message being handled."
    );
}

#[test]
fn texts_of_any_length_are_told_apart() {
    assert_eq!(refusal("fn handle_x() {}"), HandlerError::MissingCallback);
    let code = with_bindings("", "fn handle_日本日本日本(from: Address, cb: Callback<u32>) {}").unwrap();
    assert!(code.contains("pub fn 日本日本日本("));
    assert!(code.contains("PIPELINE_日本日本日本:"));
}

fn return_message(input: &str) -> String {
    let code = with_bindings("", input).unwrap();
    let start = code.find("handler_name = std::ffi::CString::new(\"").unwrap() + 39;
    let end = start + code[start..].find('"').unwrap();
    let name = code[start..end].to_string();
    assert!(code.contains(&format!("pub extern \"C\" fn handle_{}(from:", name)));
    name
}

#[test]
fn versions_have_names_of_their_own() {
    let a = return_message("fn handle_set(from: Address, k: u32, cb: Callback<u32>) {}");
    let b = return_message("fn handle_set(from: Address, k: u64, cb: Callback<u32>) {}");
    assert!(a.starts_with("set_") && b.starts_with("set_"));
    assert_ne!(a, b);
    assert_eq!(a, return_message("fn handle_set(from:Address,k:u32,cb:Callback<u32>){}"));
}

#[test]
fn literals_of_c_strings_are_refused() {
    for body in [
        "f(c\"x\")",
        "f(!(cr#\"x\"#))",
        "return !(c\"x\")",
        "'a: loop { break 'a !(c\"x\") }",
        "[a!(), c\"x\"]",
        "macro m {} { c\"x\" }",
        "macro m(c\"x\") { c\"x\" } { c\"x\" }",
        "for mut macro in (c\"x\") {}",
        "loop { break 'macro m { c\"x\" } }",
        "async { c\"x\" }",
        "try { c\"x\" }",
    ] {
        let input = format!("fn handle_x(from: Address, cb: Callback<u8>) {{ {} }}", body);
        match with_bindings("", &input) {
            Err(BindingsError::Literal(literal)) => assert!(literal.starts_with('c'), "{}", body),
            other => panic!("{}: {:?}", body, other),
        }
    }
    match with_bindings("c\"x\"", "fn handle_x() {}") {
        Err(e) => assert_eq!(e.message(), "Unrecognized literal: `c\"x\"`"),
        other => panic!("{:?}", other),
    }
    match with_bindings("", "fn handle_x(from: Address, cb: Callback<u8>) { (/*ERROR*/) }") {
        Err(BindingsError::Literal(literal)) => assert_eq!(literal, "(/*ERROR*/)"),
        other => panic!("{:?}", other),
    }
    assert!(matches!(
        with_bindings("", "fn handle_x(cb: Callback<c\"x\">) {}"),
        Err(BindingsError::Literal(_))
    ));
}

#[test]
fn macros_and_attributes_hold_any_literal() {
    for body in [
        "f!(c\"x\")",
        "a::f! { (c\"x\") }",
        "self::r#try![c\"x\"]",
        "#[a(c\"x\")] f()",
        "#![a = c\"x\"] f(\"c\", b\"c\", 'c', 1.5e3)",
        "macro_rules! f { () => { c\"x\" } }",
        "f!((/*ERROR*/))",
        "macro m() { c\"x\" }",
        "macro m { c\"x\" }",
        "pub macro m(c\"x\") { (c\"x\") } f()",
        "#[a] macro m { () => { c\"x\" } } macro n(c\"x\") {}",
        "await!(c\"x\")",
        "try!(c\"x\")",
        "async!(c\"x\")",
        "dyn!(c\"x\")",
        "let a: t!(c\"x\") = 1;",
        "match a { p!(c\"x\") => 1 }",
    ] {
        let input = format!("fn handle_x(from: Address, cb: Callback<u8>) {{ {} }}", body);
        assert!(with_bindings("", &input).is_ok(), "{}", body);
    }
}

#[test]
fn self_is_refused() {
    let e = refusal("pub fn handle_x(&self, (a, b): (u8, u8), cb: Callback<u32>) {}");
    assert_eq!(e, HandlerError::SelfArgument);
    assert_eq!(e.message(), "Cannot use self in handler.");
}

#[test]
fn patterns_are_refused() {
    let e = refusal("pub fn handle_x((a, b): (u8, u8), c: u8) {}");
    assert_eq!(e, HandlerError::UnreadableArgument);
    assert_eq!(e.message(), "Could not parse arguments.");
}

#[test]
fn handlers_that_return_are_refused() {
    let e = refusal(
        "pub fn handle_ping(from: Address, ball: Ball) -> Ball {
            Ball { ping: ball.ping, pong: ball.pong + 1 }
        }",
    );
    assert_eq!(e, HandlerError::NotACallback);
    assert_eq!(e.message(), "callback must be a Callback<T>");
}

#[test]
fn handlers_without_a_callback_are_refused() {
    for last in [
        "",
        "cb: &Callback<u32>",
        "cb: Callback",
        "cb: Callback<>",
        "cb: Callback(u32)",
        "cb: Callback<'static>",
        "cb: Callback<u32, 'static>",
        "cb: Callback<3>",
        "cb: Callback<T = u32>",
        "self",
    ] {
        let e = refusal(&format!("pub fn handle_something({}) {{}}", last));
        assert_eq!(e, HandlerError::MissingCallback, "{}", last);
        assert_eq!(e.message(), "callback must be handled via a final `cb` argument");
    }
}

#[test]
fn the_last_type_of_a_callback_counts() {
    let code = with_bindings(
        "self",
        "pub fn handle_poll(from: Address, cb: types::Callback<'static, String, a::b::u16>) {}",
    )
    .unwrap();
    assert!(code.contains("callback: Callback<a :: b :: u16>)"));
    assert!(code.contains("(from: ::vision_utils::types::Address, arg: a :: b :: u16, msg_id: u32)"));
}

#[test]
fn types_without_a_path_are_refused() {
    for input in [
        "pub fn handle_x(from: &Address, a: &str, cb: Callback<(u8, u8)>) {}",
        "pub fn handle_x(from: &Address, a: &str, cb: Callback<u8>) {}",
    ] {
        let e = refusal(input);
        assert_eq!(e, HandlerError::UntypedArgument);
        assert_eq!(e.message(), "Arguments must be typed");
    }
    let e = refusal("pub fn handle_x(from: &Address, a: u8, cb: Callback<u8>) {}");
    assert_eq!(e, HandlerError::NonIdentifierType);
    assert_eq!(e.message(), "Handlers may not have non-identifier argument types");
}

#[test]
fn messages_must_be_identifiers() {
    for (handler, message) in [("handle_1st", "1st"), ("handle_", "")] {
        let input = format!("pub fn {}(from: Address, cb: Callback<u8>) {{}}", handler);
        match with_bindings("", &input) {
            Err(e) => {
                assert_eq!(e.message(), format!("\"{}\" is not a valid identifier", message));
                assert!(matches!(e, BindingsError::Name(name) if name == message));
            }
            Ok(_) => panic!("{}", input),
        }
    }
    assert!(with_bindings("", "pub fn handle__(from: Address, cb: Callback<u8>) {}").is_ok());
    assert!(with_bindings("", "pub fn handle_move(from: Address, cb: Callback<u8>) {}").is_ok());
}
