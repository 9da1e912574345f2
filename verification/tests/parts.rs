//! The parts that bindings are put together from.
use std::sync::Mutex;
use vision_bindings::arguments::{arguments_of, callback_type_of};
use vision_bindings::attribute::{unread_argument_of, unread_in_arguments_of};
use vision_bindings::bindings::{handler_bindings_of, roots};
use vision_bindings::der::gen_der;
use vision_bindings::error::{BindingsError, HandlerError};
use vision_bindings::expand::expand;
use vision_bindings::handlers::{handle_ping, handle_test, Ball};
use vision_bindings::names::{fingerprint_of, message_of, pipeline_of, Names};
use vision_bindings::ser::{gen_ser, message_size_of};
use vision_bindings::literals::{is_reserved, unread_in_of, unread_literal_of, Token};
use vision_bindings::syntax::{renamed_of, Definition, FnArg, ItemFn, Pat, PatType, Type};
use vision_bindings::text::{clone_lines_of, decimal_of, hex_of, lines_of, listed_of, upper_of};
use vision_bindings::types::{Callback, ALLOCATOR_ADDR, LOGGER_ADDR, PERM_ADDR};
use vision_bindings::wire::{is_copied, min_equivalent_of, width_of};

fn ty(name: &str) -> Type {
    Type {
        text: name.to_string(),
        path: Some(vec![name.to_string()]),
    }
}

fn arg(name: &str, ty: Type) -> PatType {
    PatType {
        attrs: vec![],
        pat: Pat { text: name.to_string(), ident: Some(name.to_string()) },
        ty,
        arguments: vec![],
    }
}

fn unnamed(mut arg: PatType) -> PatType {
    arg.pat.ident = None;
    arg
}

#[test]
fn root_services_have_their_addresses() {
    assert_eq!((PERM_ADDR, ALLOCATOR_ADDR, LOGGER_ADDR), (1, 2, 3));
}

#[test]
fn callbacks_hand_values_on() {
    let got = Mutex::new(Vec::new());
    let push = |v: u32| got.lock().unwrap().push(v);
    let callback = Callback::from(push);
    callback.call(1);
    (*callback)(2);
    callback.as_ref()(3);
    Callback::new(push).call(4);
    assert_eq!(*got.lock().unwrap(), vec![1, 2, 3, 4]);
}

#[test]
fn ping_is_answered() {
    assert_eq!(handle_ping(7, Ball { ping: 4, pong: 8 }), Ball { ping: 4, pong: 9 });
}

#[test]
fn any_text_is_answered_with_a_greeting() {
    let got = Mutex::new(Vec::new());
    handle_test(7, "hi".to_string(), Callback::new(|s: String| got.lock().unwrap().push(s)));
    assert_eq!(*got.lock().unwrap(), vec!["hello there"]);
    handle_test(0, String::new(), Callback::new(|s: String| got.lock().unwrap().push(s)));
    assert_eq!(*got.lock().unwrap(), vec!["hello there", "hello there"]);
}

#[test]
fn numbers_are_written() {
    assert_eq!(decimal_of(0), "0");
    assert_eq!(decimal_of(10), "10");
    assert_eq!(decimal_of(u32::MAX), "4294967295");
    assert_eq!(hex_of(&[0x00, 0x9a, 0xff]), "009aff");
    assert_eq!(upper_of("a_Zzé9"), "A_ZZé9");
}

#[test]
fn lists_are_written() {
    let two = vec!["a".to_string(), "b".to_string()];
    assert_eq!(lines_of(&vec![]), "");
    assert_eq!(lines_of(&two), "a\nb\n");
    assert_eq!(listed_of(&vec![]), "");
    assert_eq!(listed_of(&two), "a, b");
    assert_eq!(clone_lines_of(&vec!["a", "b", "c"], 1), "let b = b.clone();\nlet c = c.clone();\n");
}

#[test]
fn types_travel_as_integers() {
    for (name, int, width) in [
        ("Address", "u32", 4),
        ("u8", "u32", 4),
        ("u16", "u32", 4),
        ("u32", "u32", 4),
        ("i8", "i32", 4),
        ("i16", "i32", 4),
        ("i32", "i32", 4),
        ("i64", "i64", 8),
        ("u64", "u64", 8),
    ] {
        assert!(is_copied(name));
        assert_eq!(min_equivalent_of(name), int);
        assert_eq!(width_of(name), width);
    }
    for name in ["String", "u128", "usize", "bool", "address", ""] {
        assert!(!is_copied(name));
        assert_eq!(min_equivalent_of(name), "u32");
        assert_eq!(width_of(name), 4);
    }
}

#[test]
fn messages_have_a_size() {
    assert_eq!(message_size_of(&[]), Ok(0));
    assert_eq!(
        message_size_of(&[arg("a", ty("u64")), arg("b", ty("Ball")), arg("c", ty("i8"))]),
        Ok(16)
    );
    assert_eq!(
        message_size_of(&[arg("a", ty("u64")), unnamed(arg("b", ty("u8"))), arg("c", Type { text: "()".to_string(), path: None })]),
        Err(HandlerError::UnnamedArgument)
    );
    assert_eq!(HandlerError::UnnamedArgument.message(), "Arguments must be named");
    assert_eq!(
        message_size_of(&[arg("c", Type { text: "".to_string(), path: Some(vec![]) })]),
        Err(HandlerError::InvalidType)
    );
    assert_eq!(HandlerError::InvalidType.message(), "Invalid Type");
    assert_eq!(HandlerError::TooManyArguments.message(), "attempt to add with overflow");
}

#[test]
fn packing_nothing_drops_the_callback() {
    let (code, types) = gen_ser(&[], "self", "", "done();\n").unwrap();
    assert_eq!(
        code,
        "use ::serde::Serialize;\nlet mut v: Vec<u8> = Vec::with_capacity(0i32 as usize);\nlet v_ptr = v.as_ptr() as i32;\ndrop(&v_ptr);\n"
    );
    assert!(types.is_empty());
    assert_eq!(gen_der(&[], "self", "", "done();\n"), Ok(String::new()));
}

#[test]
fn copies_are_packed_from_last_to_first() {
    let (code, types) =
        gen_ser(&[arg("a", ty("i8")), arg("b", ty("u64"))], "self", "", "done();\n").unwrap();
    assert_eq!(
        code,
        "use ::serde::Serialize;
let mut v: Vec<u8> = Vec::with_capacity(12i32 as usize);
let v_ptr = v.as_ptr() as i32;
drop(&v_ptr);
let mut bytes = Vec::from((b as u64).to_le_bytes());
let b = v.as_ptr() as i32 + v.len() as i32;
drop(&b);
bytes.append(&mut v);
let mut v = bytes;
let mut bytes = Vec::from((a as i32).to_le_bytes());
let a = v.as_ptr() as i32 + v.len() as i32;
drop(&a);
bytes.append(&mut v);
let mut v = bytes;
let a = a.clone();
let a = a.clone();
let b = b.clone();
done();
"
    );
    assert_eq!(types, vec!["i8".to_string(), "u64".to_string()]);
}

#[test]
fn cells_arrive_as_addresses() {
    let (_, types) = gen_ser(&[arg("a", ty("Ball"))], "self", "::root", "").unwrap();
    assert_eq!(types, vec!["::root::vision_utils::types::Address".to_string()]);
}

#[test]
fn copies_are_taken_out_from_last_to_first() {
    assert_eq!(
        gen_der(&[arg("a", ty("i8")), arg("b", ty("u64"))], "self", "", "done();\n").unwrap(),
        "let b = b as u64;
let b = std::sync::Arc::new(std::sync::Mutex::new(Some(b)));
{
let a = a as i8;
let a = std::sync::Arc::new(std::sync::Mutex::new(Some(a)));
{
let a = a.clone();
let a = a.clone();
let b = b.clone();
done();
};
};
"
    );
}

#[test]
fn arguments_to_take_out_need_names_and_types() {
    assert_eq!(
        gen_der(&[arg("a", ty("i8")), unnamed(arg("b", ty("i8")))], "self", "", ""),
        Err(HandlerError::NonIdentifierArgument)
    );
    assert_eq!(
        HandlerError::NonIdentifierArgument.message(),
        "Handlers may not have non-identifier arguments"
    );
    assert_eq!(
        gen_der(&[arg("a", Type { text: "()".to_string(), path: None }), unnamed(arg("b", ty("i8")))], "self", "", ""),
        Err(HandlerError::NonIdentifierType)
    );
}

#[test]
fn handlers_are_named_for_messages() {
    assert_eq!(message_of("handle_ping"), Ok("ping"));
    assert_eq!(message_of("handle_"), Ok(""));
    assert_eq!(message_of("handle"), Err(HandlerError::NotAHandler));
    assert_eq!(message_of("Handle_ping"), Err(HandlerError::NotAHandler));
    assert_eq!(pipeline_of("ping_Pong"), "PIPELINE_PING_PONG");
}

#[test]
fn fingerprints_are_whole_texts() {
    assert_eq!(fingerprint_of(""), b"");
    assert_eq!(fingerprint_of("01234567890123456789x"), b"01234567890123456789x");
    assert_eq!(fingerprint_of("é"), [0xc3, 0xa9]);
}

#[test]
fn names_are_made_up_from_the_digest() {
    let names = Names::new("handle_ping", "ping", &[0xab, 0x01]);
    assert_eq!(names.handler, "handle_ping");
    assert_eq!(names.message, "ping");
    assert_eq!(names.pipeline, "PIPELINE_PING");
    assert_eq!(names.return_handler, "handle_ping_ab01_ret");
    assert_eq!(names.return_message, "ping_ab01_ret");
    assert_eq!(message_of(&names.return_handler), Ok("ping_ab01_ret"));
    assert_eq!(names.inner, "inner_handle_ping");
}

#[test]
fn names_tell_messages_and_versions_apart() {
    let a = Names::new("handle_a", "a", &[0; 32]);
    let b = Names::new("handle_b", "b", &[0; 32]);
    let c = Names::new("handle_a", "a", &[1; 32]);
    assert_ne!(a.return_message, b.return_message);
    assert_ne!(a.return_message, c.return_message);
    assert_ne!(a.return_handler, b.return_handler);
    assert_ne!(a.return_handler, c.return_handler);
}

#[test]
fn attributes_with_arguments_mean_this_module() {
    assert_eq!(roots(0), ("::vision_derive::beacon_dao_allocator", "::vision_derive"));
    assert_eq!(roots(1), ("self", ""));
}

#[test]
fn handlers_are_read() {
    let item = ItemFn::parse("#[a] #[b(c)] fn handle_x(#[d] mut e: f::G<H>, self: I) { #![j] }").unwrap();
    assert_eq!(item.ident, "handle_x");
    assert_eq!(item.text, "# [a] # [b (c)] fn handle_x (# [d] mut e : f :: G < H > , self : I) { # ! [j] }");
    assert_eq!(item.attrs, vec!["# [a]", "# [b (c)]", "# ! [j]"]);
    assert_eq!(item.inputs.len(), 2);
    let mut inputs = item.inputs;
    assert!(matches!(callback_type_of(inputs.pop()), Err(HandlerError::NotACallback)));
    let args = arguments_of(inputs).ok().unwrap();
    assert_eq!(args.len(), 1);
    assert_eq!(args[0].attrs, vec!["# [d]"]);
    assert_eq!(args[0].pat.text, "mut e");
    assert_eq!(args[0].pat.ident.as_deref(), Some("e"));
    assert_eq!(args[0].ty.text, "f :: G < H >");
    assert_eq!(args[0].ty.path, Some(vec!["f".to_string(), "G".to_string()]));
    assert_eq!(args[0].arguments.len(), 2);
    assert!(args[0].arguments[0].is_none());
    let list = args[0].arguments[1].as_ref().unwrap();
    assert_eq!(list.len(), 1);
    assert_eq!(list[0].as_ref().unwrap().text, "H");
    assert_eq!(list[0].as_ref().unwrap().path, Some(vec!["H".to_string()]));
}

#[test]
fn callbacks_are_read() {
    let mut item = ItemFn::parse("fn f(cb: a<'b, c::d>::Callback<'e, 3, F = G, (), h::I<J>>) {}").unwrap();
    let cb = match item.inputs.pop() {
        Some(FnArg::Typed(cb)) => cb,
        _ => panic!(),
    };
    assert_eq!(cb.arguments.len(), 2);
    let texts: Vec<Option<&str>> = cb.arguments[1]
        .as_ref()
        .unwrap()
        .iter()
        .map(|ty| ty.as_ref().map(|ty| ty.text.as_str()))
        .collect();
    assert_eq!(texts, vec![None, None, None, Some("()"), Some("h :: I < J >")]);
    let ty = callback_type_of(Some(FnArg::Typed(cb))).ok().unwrap();
    assert_eq!(ty.text, "h :: I < J >");
    assert_eq!(ty.path, Some(vec!["h".to_string(), "I".to_string()]));
}

fn tight(text: &str) -> String {
    text.split_whitespace().collect()
}

#[test]
fn handlers_keep_their_parts_under_another_name() {
    let text = "pub(crate) const async unsafe extern \"C\" fn g<'a, T: U>(mut a: T, b: &'a u8, ...) -> V<T> where T: W { a + 1; b }";
    let item = ItemFn::parse(&format!("#[x] {}", text)).unwrap();
    assert_eq!(item.definition.vis, "pub (crate)");
    assert_eq!(item.definition.output, "-> V < T >");
    assert_eq!(item.definition.block, "{ a + 1 ; b }");
    assert_eq!(tight(&renamed_of(&item.definition, "g")), tight(text));
    let plain = ItemFn::parse("fn g() { #![x] h!(1) }").unwrap();
    assert_eq!(renamed_of(&plain.definition, "k"), "     fn k ( )   { h ! (1) }");
}

#[test]
fn literals_that_are_parsed_are_found() {
    assert_eq!(unread_in_of("a c\"b\" (c\"d\")"), Some("c\"b\"".to_string()));
    assert_eq!(unread_in_of("a![c\"b\"] (cr\"d\")"), Some("cr\"d\"".to_string()));
    assert_eq!(unread_in_of("a![(c\"b\")] #[c\"d\"] c"), None);
    assert_eq!(unread_in_of("( c\"b\""), None);
    assert_eq!(unread_in_of("macro a(c\"b\") {c\"d\"} {c\"e\"}"), Some("c\"e\"".to_string()));
    assert_eq!(unread_in_of("macro a {c\"b\"} {c\"d\"}"), Some("c\"d\"".to_string()));
    assert_eq!(
        unread_literal_of(&vec![
            Token::Ident("a".to_string()),
            Token::Punct('!', false),
            Token::Open('['),
            Token::Literal("c\"b\"".to_string()),
            Token::Close,
            Token::Literal("c\"d\"".to_string()),
            Token::Close,
        ]),
        Some("c\"d\"".to_string())
    );
    assert!(is_reserved("return") && is_reserved("yield"));
    assert!(!is_reserved("self") && !is_reserved("println") && !is_reserved("await"));
}

#[test]
fn literals_are_found_where_arguments_are_read() {
    let found = Some("c\"x\"".to_string());
    for args in [
        "c\"x\"",
        "1, c\"x\"",
        "-1, c\"x\"",
        "a, c\"x\"",
        "a(c\"x\")",
        "a(b(), c = \"d\", c\"x\") !",
        "::a::move = c\"x\" +",
        "true = c\"x\"",
        "true, c\"x\"",
        "a = -1.5, b = false, c\"x\"",
    ] {
        assert_eq!(unread_in_arguments_of(args), found, "{}", args);
    }
    for args in [
        "",
        "x c\"x\"",
        "-c\"x\"",
        "-\"s\", c\"x\"",
        "a = -c\"x\"",
        "a = b, c\"x\"",
        "a[c\"x\"]",
        "a: : b = c\"x\"",
        "a:: = c\"x\"",
        "true(c\"x\")",
        "true::a = c\"x\"",
        "a, , c\"x\"",
        "(c\"x\")",
        "a!(c\"x\")",
        "a == c\"x\"",
        "'a, c\"x\"",
        "( c\"x\"",
    ] {
        assert_eq!(unread_in_arguments_of(args), None, "{}", args);
    }
    assert_eq!(
        unread_argument_of(&vec![
            Token::Ident("a".to_string()),
            Token::Punct('=', false),
            Token::Literal("c\"x\"".to_string()),
        ]),
        found
    );
}

#[test]
fn handlers_of_plain_variables_expand() {
    let names = Names::new("handle_a", "a", &[0; 32]);
    let code = expand(&names, &vec![], vec![arg("from", ty("Address"))], ty("u8"), "fn inner() {}", "self", "").unwrap();
    for piece in [
        "pub extern \"C\" fn handle_a(from: Address, msg_id: u32) {",
        "inner_handle_a(from.lock().unwrap().take().unwrap(), ::vision_utils::types::Callback::new(cb));",
        "fn inner() {}",
        "pub static PIPELINE_A: RwLock<Vec<Option<Callback<u8>>>> = RwLock::new(Vec::new());",
        "callback.call(arg.lock().unwrap().take().unwrap());",
        "pub fn a(to: ::vision_utils::types::Address, callback: Callback<u8>) {",
        "send_message(to, msg_kind.as_ptr() as i32, v_ptr);",
    ] {
        assert!(code.contains(piece), "{}", piece);
    }
}

fn callback(ty: Option<Type>) -> FnArg {
    let mut cb = arg("cb", self::ty("Callback"));
    cb.arguments = vec![Some(vec![ty])];
    FnArg::Typed(cb)
}

fn handler(inputs: Vec<FnArg>) -> ItemFn {
    let empty = String::new;
    ItemFn {
        ident: "handle_a".to_string(),
        text: empty(),
        attrs: vec!["#[x]".to_string()],
        inputs,
        definition: Definition {
            vis: "pub".to_string(),
            constness: empty(),
            asyncness: empty(),
            unsafety: empty(),
            abi: empty(),
            generics: empty(),
            inputs: "cb: Callback<u8>".to_string(),
            variadic: empty(),
            output: empty(),
            where_clause: empty(),
            block: "{ body }".to_string(),
        },
    }
}

#[test]
fn handlers_of_nothing_are_never_called() {
    let names = Names::new("handle_a", "a", &[0; 32]);
    let code = handler_bindings_of(1, &names, handler(vec![callback(Some(ty("u8")))])).unwrap();
    assert!(code.contains("#[x]\npub extern \"C\" fn handle_a(, msg_id: u32) {"));
    assert!(code.contains("#[cfg(feature = \"module\")]\npub     fn inner_handle_a (cb: Callback<u8> )   { body }"));
    assert!(!code.contains("inner_handle_a(from"));
}

#[test]
fn callbacks_without_a_type_are_refused() {
    let names = Names::new("handle_a", "a", &[0; 32]);
    let item = handler(vec![FnArg::Receiver, callback(None)]);
    assert_eq!(handler_bindings_of(1, &names, item), Err(HandlerError::SelfArgument));
    let item = handler(vec![FnArg::Typed(arg("from", ty("Address"))), callback(None)]);
    assert_eq!(handler_bindings_of(1, &names, item), Err(HandlerError::MissingCallback));
}

#[test]
fn cells_are_sent_once() {
    let (code, _) = gen_ser(&[arg("a", ty("Ball"))], "self", "", "done();\n").unwrap();
    assert!(code.ends_with(
        "for (i, b) in v_bytes.iter().enumerate() {
self::write(res_buf, i as u32, *b, ::vision_utils::types::Callback::new(|_| {}));
}
let a = a.clone();
let a = a.clone();
done();
}));
"
    ));
}

#[test]
fn answers_can_be_taken_by_macro() {
    let names = Names::new("handle_a", "a", &[0xab]);
    let code = expand(&names, &vec![], vec![], ty("u8"), "", "self", "").unwrap();
    let handler = "#[no_mangle]\npub extern \"C\" fn handle_a_ab_ret(from: ::vision_utils::types::Address, arg: u8, msg_id: u32) {\n";
    assert!(code.contains(&format!("#[cfg(not(feature = \"module\"))]\n{}", handler)));
    assert!(code.contains(&format!("#[macro_export]\nmacro_rules! include_a_ret {{\n() => {{\n{}", handler)));
}

#[test]
fn errors_have_messages() {
    assert_eq!(BindingsError::Syntax("m".to_string()).message(), "m");
    assert_eq!(BindingsError::Literal("l".to_string()).message(), "Unrecognized literal: `l`");
    assert_eq!(
        BindingsError::Handler(HandlerError::SelfArgument).message(),
        "Cannot use self in handler."
    );
}
