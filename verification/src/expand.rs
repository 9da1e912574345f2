//! The items that are generated for a message handler.
use vstd::prelude::*;
use vstd::slice::slice_subrange;

use crate::der::{
    arguments_are_taken_out, gen_der, received, received_by_name_and_last_segment, received_of, unpack, unpack_holds_callback, unpack_step, unreceived,
    unreceived_means_received,
};
use crate::error::HandlerError;
use crate::names::{Names, NamesView};
use crate::ser::{
    gen_ser, integers_are_packed_whole, message_size, other_values_are_packed_in_cells, pack_step, plain_arguments_have_size, sent_as, serializer,
    serializer_holds_callback,
};
use crate::syntax::{Pat, PatType, PatTypeView, PatView, Type, TypeView};
use crate::text::{
    around, held_is_within, holds, holds_once, holds_once_within, lines, lines_of, listed,
    listed_of, within, within_within,
};
use crate::wire::{
    cast, copied, copied_values_travel_whole, fits, integer, integers_are_copied, is_copied,
    sent_type, sent_types_are_last_segments, width,
};

verus! {

/// A variable of this name and type.
pub open spec fn variable(name: Seq<char>, ty: TypeView) -> PatTypeView {
    PatTypeView {
        attrs: Seq::empty(),
        pat: PatView { text: name, ident: Some(name) },
        ty,
        arguments: Seq::empty(),
    }
}

/// The variable that says which of the messages sent is meant.
pub open spec fn msg_id() -> PatTypeView {
    variable("msg_id"@, TypeView { text: "u32"@, path: Some(seq!["u32"@]) })
}

/// What an answer holds.
pub open spec fn reply(result: TypeView) -> Seq<PatTypeView> {
    seq![variable("arg"@, result), msg_id()]
}

/// The arguments of a handler that its callers give: all but the first, which
/// says who the caller is.
pub open spec fn caller_args(args: Seq<PatTypeView>) -> Seq<PatTypeView> {
    if args.len() == 0 {
        args
    } else {
        args.skip(1)
    }
}

/// The type with which an argument arrives at the handler: its own if its value
/// is copied, or the address of a cell.
pub open spec fn received_as(arg: PatTypeView, extern_crate_pre: Seq<char>) -> Seq<char> {
    if copied(received(arg)->Ok_0.1) {
        arg.ty.text
    } else {
        extern_crate_pre + "::vision_utils::types::Address"@
    }
}

/// An argument with the type `ty`, as it stands in a list of arguments.
pub open spec fn printed(arg: PatTypeView, ty: Seq<char>) -> Seq<char> {
    lines(arg.attrs) + arg.pat.text + ": "@ + ty
}

/// The name of the identifier pattern of an argument, or its whole pattern if it is
/// another one.
pub open spec fn binding(arg: PatTypeView) -> Seq<char> {
    match arg.pat.ident {
        Some(name) => name,
        None => arg.pat.text,
    }
}

/// Takes the callback that waits for an answer and hands it the answer.
pub open spec fn resume(names: NamesView) -> Seq<char> {
    "let mut lock = "@ + names.pipeline
        + ".write().unwrap();\nlet maybe_cb = lock.get_mut(msg_id.lock().unwrap().take().unwrap() as usize).unwrap().take();\nif let Some(callback) = maybe_cb {\ncallback.call(arg.lock().unwrap().take().unwrap());\n}\n"@
}

/// Sends the answer to the caller.
pub open spec fn answer(names: NamesView) -> Seq<char> {
    "let handler_name = std::ffi::CString::new(\""@ + names.return_message
        + "\").expect(\"Invalid scheduler message kind encoding\");\nsend_message((*from.lock().unwrap()).unwrap(), handler_name.as_ptr() as i32, arg);\n"@
}

/// Sends the message, with a pointer to its arguments.
pub open spec fn send(names: NamesView, args: Seq<PatTypeView>) -> Seq<char> {
    "let msg_kind = std::ffi::CString::new(\""@ + names.message
        + "\").expect(\"Invalid scheduler message kind encoding\");\nsend_message(to, msg_kind.as_ptr() as i32, "@
        + first_given(args) + ");\n"@
}

/// The first argument that callers give, or the start of the message if there is
/// none.
pub open spec fn first_given(args: Seq<PatTypeView>) -> Seq<char> {
    if args.len() < 2 {
        "v_ptr"@
    } else {
        binding(args[1])
    }
}

/// The value of an argument, once it is taken out of a message.
pub open spec fn taken(arg: PatTypeView) -> Seq<char> {
    binding(arg) + ".lock().unwrap().take().unwrap()"@
}

/// Hands the arguments to the handler as it was written, with a callback that
/// does `ser`.
pub open spec fn handle(
    names: NamesView,
    args: Seq<PatTypeView>,
    result: Seq<char>,
    extern_crate_pre: Seq<char>,
    ser: Seq<char>,
) -> Seq<char> {
    "let cb = {\nlet from = from.clone();\nmove |arg: "@ + result + "| {\n"@ + ser + "}\n};\n"@
        + names.inner + "("@ + listed(args.map_values(|arg: PatTypeView| taken(arg))) + ", "@
        + extern_crate_pre + "::vision_utils::types::Callback::new(cb));\n"@
}

/// The handler that other actors reach, and behind it the handler as it was
/// written.
pub open spec fn handler_items(
    names: NamesView,
    attrs: Seq<Seq<char>>,
    args: Seq<PatTypeView>,
    inner_item: Seq<char>,
    extern_crate_pre: Seq<char>,
    der: Seq<char>,
) -> Seq<char> {
    "#[cfg(feature = \"module\")]\n"@ + lines(attrs) + "pub extern \"C\" fn "@ + names.handler + "("@
        + listed(
        args.map_values(|arg: PatTypeView| printed(arg, received_as(arg, extern_crate_pre))),
    ) + ", msg_id: u32) {\nuse "@ + extern_crate_pre + "::vision_utils::actor::send_message;\n"@
        + der + "}\n#[cfg(feature = \"module\")]\n"@ + inner_item + "\n"@
}

/// The callbacks that wait for an answer.
pub open spec fn pipeline_item(names: NamesView, result: Seq<char>) -> Seq<char> {
    "pub static "@ + names.pipeline + ": RwLock<Vec<Option<Callback<"@ + result
        + ">>>> = RwLock::new(Vec::new());\n"@
}

/// The handler for the answer.
pub open spec fn return_fn(
    names: NamesView,
    ret_type: Seq<char>,
    extern_crate_pre: Seq<char>,
    der: Seq<char>,
) -> Seq<char> {
    "#[no_mangle]\npub extern \"C\" fn "@ + names.return_handler + "(from: "@ + extern_crate_pre
        + "::vision_utils::types::Address, arg: "@ + ret_type + ", msg_id: u32) {\n"@ + der + "}\n"@
}

/// The handler for the answer, where the actor that answers is built elsewhere.
pub open spec fn return_item(handler: Seq<char>) -> Seq<char> {
    "#[cfg(not(feature = \"module\"))]\n"@ + handler
}

/// A macro that puts the handler for the answer wherever it is invoked.
pub open spec fn return_macro(names: NamesView, handler: Seq<char>) -> Seq<char> {
    "#[macro_export]\nmacro_rules! include_"@ + names.message + "_ret {\n() => {\n"@ + handler
        + "};\n}\n"@
}

/// The function that sends the message.
pub open spec fn client_item(
    names: NamesView,
    args: Seq<PatTypeView>,
    result: Seq<char>,
    extern_crate_pre: Seq<char>,
    ser: Seq<char>,
) -> Seq<char> {
    "pub fn "@ + names.message + "("@ + listed(
        seq!["to: "@ + extern_crate_pre + "::vision_utils::types::Address"@] + caller_args(
            args,
        ).map_values(|arg: PatTypeView| printed(arg, arg.ty.text)),
    ) + ", callback: Callback<"@ + result + ">) {\nuse "@ + extern_crate_pre
        + "::vision_utils::actor::send_message;\nlet msg_id: u32 = {\nlet mut lock = "@
        + names.pipeline
        + ".write().unwrap();\nlock.push(Some(callback));\nlet id = lock.len() as u32 - 1;\nid\n};\n"@
        + ser + "}\n"@
}

/// All that is generated for a handler, or what stands in the way.
///
/// The answer is looked at first, then what callers give, then the arguments of
/// the handler.
pub open spec fn expansion(
    names: NamesView,
    attrs: Seq<Seq<char>>,
    args: Seq<PatTypeView>,
    result: TypeView,
    inner_item: Seq<char>,
    alloc_module: Seq<char>,
    extern_crate_pre: Seq<char>,
) -> Result<Seq<char>, HandlerError> {
    let given = caller_args(args).push(msg_id());
    match (message_size(reply(result)), unreceived(reply(result)), message_size(given), unreceived(
        args,
    )) {
        (Err(e), _, _, _) => Err(e),
        (_, Some(e), _, _) => Err(e),
        (_, _, Err(e), _) => Err(e),
        (_, _, _, Some(e)) => Err(e),
        (Ok(reply_bytes), None, Ok(given_bytes), None) => {
            let ser = serializer(
                reply(result),
                alloc_module,
                extern_crate_pre,
                answer(names),
                reply_bytes as nat,
            );
            let der = unpack(
                args,
                alloc_module,
                extern_crate_pre,
                handle(names, args, result.text, extern_crate_pre, ser),
                args.len() as int,
            );
            let return_der = unpack(
                reply(result),
                alloc_module,
                extern_crate_pre,
                resume(names),
                2,
            );
            let return_handler = return_fn(
                names,
                sent_as(reply(result)[0], extern_crate_pre),
                extern_crate_pre,
                return_der,
            );
            let client_ser = serializer(
                given,
                alloc_module,
                extern_crate_pre,
                send(names, args),
                given_bytes as nat,
            );
            Ok(
                handler_items(names, attrs, args, inner_item, extern_crate_pre, der)
                    + pipeline_item(names, result.text) + return_item(return_handler)
                    + return_macro(names, return_handler) + client_item(names, args, result.text, extern_crate_pre, client_ser),
            )
        },
    }
}

fn variable_of(name: &str, ty: Type) -> (res: PatType)
    ensures
        res.deep_view() == variable(name@, ty.deep_view()),
{
    let attrs: Vec<String> = Vec::new();
    let arguments: Vec<Option<Vec<Option<Type>>>> = Vec::new();
    assert(attrs.deep_view() =~= Seq::empty());
    assert(arguments.deep_view() =~= Seq::empty());
    PatType {
        attrs,
        pat: Pat { text: name.to_owned(), ident: Some(name.to_owned()) },
        ty,
        arguments,
    }
}

fn msg_id_of() -> (res: PatType)
    ensures
        res.deep_view() == msg_id(),
{
    let mut path: Vec<String> = Vec::new();
    path.push("u32".to_owned());
    assert(path.deep_view() =~= seq!["u32"@]);
    variable_of("msg_id", Type { text: "u32".to_owned(), path: Some(path) })
}

fn binding_of(arg: &PatType) -> (res: &str)
    ensures
        res@ == binding(arg.deep_view()),
{
    match &arg.pat.ident {
        Some(name) => name.as_str(),
        None => arg.pat.text.as_str(),
    }
}

fn resume_of(names: &Names) -> (res: String)
    ensures
        res@ == resume(names@),
{
    "let mut lock = ".to_owned().concat(names.pipeline.as_str()).concat(
        ".write().unwrap();\nlet maybe_cb = lock.get_mut(msg_id.lock().unwrap().take().unwrap() as usize).unwrap().take();\nif let Some(callback) = maybe_cb {\ncallback.call(arg.lock().unwrap().take().unwrap());\n}\n",
    )
}

fn answer_of(names: &Names) -> (res: String)
    ensures
        res@ == answer(names@),
{
    "let handler_name = std::ffi::CString::new(\"".to_owned().concat(
        names.return_message.as_str(),
    ).concat(
        "\").expect(\"Invalid scheduler message kind encoding\");\nsend_message((*from.lock().unwrap()).unwrap(), handler_name.as_ptr() as i32, arg);\n",
    )
}

fn send_of(names: &Names, args: &[PatType]) -> (res: String)
    ensures
        res@ == send(names@, args.deep_view()),
{
    let first = if args.len() < 2 {
        "v_ptr"
    } else {
        binding_of(&args[1])
    };
    "let msg_kind = std::ffi::CString::new(\"".to_owned().concat(names.message.as_str()).concat(
        "\").expect(\"Invalid scheduler message kind encoding\");\nsend_message(to, msg_kind.as_ptr() as i32, ",
    ).concat(first).concat(");\n")
}

fn handle_of(
    names: &Names,
    args: &[PatType],
    result: &str,
    extern_crate_pre: &str,
    ser: &str,
) -> (res: String)
    ensures
        res@ == handle(names@, args.deep_view(), result@, extern_crate_pre@, ser@),
{
    let ghost all = args.deep_view();
    let mut pieces: Vec<String> = Vec::new();
    for i in 0..args.len()
        invariant
            all == args.deep_view(),
            pieces@.len() == i,
            forall|j: int| 0 <= j < i ==> (#[trigger] pieces@[j])@ == taken(all[j]),
    {
        assert(all[i as int] == args@[i as int].deep_view());
        pieces.push(binding_of(&args[i]).to_owned().concat(".lock().unwrap().take().unwrap()"));
    }
    assert(pieces.deep_view() =~= all.map_values(|arg: PatTypeView| taken(arg)));
    "let cb = {\nlet from = from.clone();\nmove |arg: ".to_owned().concat(result).concat(
        "| {\n",
    ).concat(ser).concat("}\n};\n").concat(names.inner.as_str()).concat("(").concat(
        listed_of(&pieces).as_str(),
    ).concat(", ").concat(extern_crate_pre).concat("::vision_utils::types::Callback::new(cb));\n")
}

fn received_as_of(arg: &PatType, extern_crate_pre: &str) -> (res: String)
    requires
        received(arg.deep_view()) is Ok,
    ensures
        res@ == received_as(arg.deep_view(), extern_crate_pre@),
{
    if let Ok((_, ty)) = received_of(arg) {
        if is_copied(ty) {
            return arg.ty.text.clone();
        }
    }
    extern_crate_pre.to_owned().concat("::vision_utils::types::Address")
}

fn handler_items_of(
    names: &Names,
    attrs: &Vec<String>,
    args: &[PatType],
    inner_item: &str,
    extern_crate_pre: &str,
    der: &str,
) -> (res: String)
    requires
        forall|i: int| 0 <= i < args@.len() ==> received(#[trigger] args.deep_view()[i]) is Ok,
    ensures
        res@ == handler_items(
            names@,
            attrs.deep_view(),
            args.deep_view(),
            inner_item@,
            extern_crate_pre@,
            der@,
        ),
{
    let ghost all = args.deep_view();
    let mut pieces: Vec<String> = Vec::new();
    for i in 0..args.len()
        invariant
            all == args.deep_view(),
            forall|j: int| 0 <= j < all.len() ==> received(#[trigger] all[j]) is Ok,
            pieces@.len() == i,
            forall|j: int|
                0 <= j < i ==> (#[trigger] pieces@[j])@ == printed(
                    all[j],
                    received_as(all[j], extern_crate_pre@),
                ),
    {
        assert(all[i as int] == args@[i as int].deep_view());
        let arg = &args[i];
        pieces.push(
            lines_of(&arg.attrs).concat(arg.pat.text.as_str()).concat(": ").concat(
                received_as_of(arg, extern_crate_pre).as_str(),
            ),
        );
    }
    assert(pieces.deep_view() =~= all.map_values(
        |arg: PatTypeView| printed(arg, received_as(arg, extern_crate_pre@)),
    ));
    "#[cfg(feature = \"module\")]\n".to_owned().concat(lines_of(attrs).as_str()).concat(
        "pub extern \"C\" fn ",
    ).concat(names.handler.as_str()).concat("(").concat(listed_of(&pieces).as_str()).concat(
        ", msg_id: u32) {\nuse ",
    ).concat(extern_crate_pre).concat("::vision_utils::actor::send_message;\n").concat(der).concat(
        "}\n#[cfg(feature = \"module\")]\n",
    ).concat(inner_item).concat("\n")
}

fn pipeline_item_of(names: &Names, result: &str) -> (res: String)
    ensures
        res@ == pipeline_item(names@, result@),
{
    "pub static ".to_owned().concat(names.pipeline.as_str()).concat(
        ": RwLock<Vec<Option<Callback<",
    ).concat(result).concat(">>>> = RwLock::new(Vec::new());\n")
}

fn return_fn_of(names: &Names, ret_type: &str, extern_crate_pre: &str, der: &str) -> (res: String)
    ensures
        res@ == return_fn(names@, ret_type@, extern_crate_pre@, der@),
{
    "#[no_mangle]\npub extern \"C\" fn ".to_owned().concat(names.return_handler.as_str()).concat(
        "(from: ",
    ).concat(extern_crate_pre).concat("::vision_utils::types::Address, arg: ").concat(
        ret_type,
    ).concat(", msg_id: u32) {\n").concat(der).concat("}\n")
}

fn return_item_of(handler: &str) -> (res: String)
    ensures
        res@ == return_item(handler@),
{
    "#[cfg(not(feature = \"module\"))]\n".to_owned().concat(handler)
}

fn return_macro_of(names: &Names, handler: &str) -> (res: String)
    ensures
        res@ == return_macro(names@, handler@),
{
    "#[macro_export]\nmacro_rules! include_".to_owned().concat(names.message.as_str()).concat(
        "_ret {\n() => {\n",
    ).concat(handler).concat("};\n}\n")
}

fn client_item_of(
    names: &Names,
    args: &[PatType],
    result: &str,
    extern_crate_pre: &str,
    ser: &str,
) -> (res: String)
    ensures
        res@ == client_item(names@, args.deep_view(), result@, extern_crate_pre@, ser@),
{
    let ghost all = args.deep_view();
    let ghost to = "to: "@ + extern_crate_pre@ + "::vision_utils::types::Address"@;
    let ghost given = caller_args(all).map_values(|arg: PatTypeView| printed(arg, arg.ty.text));
    let mut pieces: Vec<String> = Vec::new();
    pieces.push(
        "to: ".to_owned().concat(extern_crate_pre).concat("::vision_utils::types::Address"),
    );
    let mut i: usize = 1;
    while i < args.len()
        invariant
            1 <= i,
            i <= args@.len() || i == 1,
            all == args.deep_view(),
            to == "to: "@ + extern_crate_pre@ + "::vision_utils::types::Address"@,
            pieces@.len() == i,
            pieces@[0]@ == to,
            forall|j: int|
                1 <= j < i ==> (#[trigger] pieces@[j])@ == printed(all[j], all[j].ty.text),
        decreases args@.len() - i,
    {
        assert(all[i as int] == args@[i as int].deep_view());
        let arg = &args[i];
        pieces.push(
            lines_of(&arg.attrs).concat(arg.pat.text.as_str()).concat(": ").concat(
                arg.ty.text.as_str(),
            ),
        );
        i = i + 1;
    }
    assert(pieces.deep_view() =~= seq![to] + given);
    "pub fn ".to_owned().concat(names.message.as_str()).concat("(").concat(
        listed_of(&pieces).as_str(),
    ).concat(", callback: Callback<").concat(result).concat(">) {\nuse ").concat(
        extern_crate_pre,
    ).concat("::vision_utils::actor::send_message;\nlet msg_id: u32 = {\nlet mut lock = ").concat(
        names.pipeline.as_str(),
    ).concat(
        ".write().unwrap();\nlock.push(Some(callback));\nlet id = lock.len() as u32 - 1;\nid\n};\n",
    ).concat(ser).concat("}\n")
}

/// Generates the items for a handler.
pub fn expand(
    names: &Names,
    attrs: &Vec<String>,
    args: Vec<PatType>,
    result: Type,
    inner_item: &str,
    alloc_module: &str,
    extern_crate_pre: &str,
) -> (res: Result<String, HandlerError>)
    ensures
        ({
            let expected = expansion(
                names@,
                attrs.deep_view(),
                args.deep_view(),
                result.deep_view(),
                inner_item@,
                alloc_module@,
                extern_crate_pre@,
            );
            match res {
                Ok(code) => expected == Ok::<_, HandlerError>(code@),
                Err(e) => expected == Err::<Seq<char>, _>(e),
            }
        }),
{
    let ghost result_view = result.deep_view();
    let ghost args_view = args.deep_view();
    let result_text = result.text.clone();
    let mut reply_args: Vec<PatType> = Vec::new();
    reply_args.push(variable_of("arg", result));
    reply_args.push(msg_id_of());
    assert(reply_args.deep_view() =~= reply(result_view));
    let reply_slice = reply_args.as_slice();
    assert(reply_slice.deep_view() =~= reply(result_view));
    let (ser, reply_types) = match gen_ser(
        reply_slice,
        alloc_module,
        extern_crate_pre,
        answer_of(names).as_str(),
    ) {
        Ok(pair) => pair,
        Err(e) => return Err(e),
    };
    let return_der = match gen_der(
        reply_slice,
        alloc_module,
        extern_crate_pre,
        resume_of(names).as_str(),
    ) {
        Ok(code) => code,
        Err(e) => return Err(e),
    };
    assert(reply_types.deep_view().len() == 2);
    assert(reply_types@[0]@ == reply_types.deep_view()[0]);

    let n = args.len();
    let mut all = args;
    all.push(msg_id_of());
    let args = slice_subrange(all.as_slice(), 0, n);
    assert(args.deep_view() =~= args_view);
    let given = slice_subrange(
        all.as_slice(),
        if n == 0 {
            0
        } else {
            1
        },
        n + 1,
    );
    assert(given.deep_view() =~= caller_args(args_view).push(msg_id()));
    let client_ser = match gen_ser(
        given,
        alloc_module,
        extern_crate_pre,
        send_of(names, args).as_str(),
    ) {
        Ok((code, _)) => code,
        Err(e) => return Err(e),
    };
    let handle = handle_of(names, args, result_text.as_str(), extern_crate_pre, ser.as_str());
    let der = match gen_der(args, alloc_module, extern_crate_pre, handle.as_str()) {
        Ok(code) => code,
        Err(e) => return Err(e),
    };
    proof {
        unreceived_means_received(args_view);
    }
    let return_handler = return_fn_of(
        names,
        reply_types[0].as_str(),
        extern_crate_pre,
        return_der.as_str(),
    );
    Ok(
        handler_items_of(
            names,
            attrs,
            args,
            inner_item,
            extern_crate_pre,
            der.as_str(),
        ).concat(pipeline_item_of(names, result_text.as_str()).as_str()).concat(
            return_item_of(return_handler.as_str()).as_str(),
        ).concat(return_macro_of(names, return_handler.as_str()).as_str()).concat(
            client_item_of(
                names,
                args,
                result_text.as_str(),
                extern_crate_pre,
                client_ser.as_str(),
            ).as_str(),
        ),
    )
}

/// A plain variable whose type is a path.
pub open spec fn plain(arg: PatTypeView) -> bool {
    &&& arg.pat.ident is Some
    &&& arg.ty.path is Some
    &&& arg.ty.path->Some_0.len() > 0
}

/// A handler accepts each argument with the type with which its callers send it.
pub proof fn accepted_as_sent(arg: PatTypeView, extern_crate_pre: Seq<char>)
    requires
        sent_type(arg) is Ok,
    ensures
        received(arg) is Ok,
        received_as(arg, extern_crate_pre) == sent_as(arg, extern_crate_pre),
{
}

/// A handler takes only values that are copied: an argument of such a type as it is,
/// and for any other the address of a cell, which takes as many bytes of a message.
pub proof fn handler_takes_copies(arg: PatTypeView, extern_crate_pre: Seq<char>)
    requires
        received(arg) is Ok,
    ensures
        ({
            let ty = received(arg)->Ok_0.1;
            &&& copied(ty) ==> received_as(arg, extern_crate_pre) == arg.ty.text
            &&& !copied(ty) ==> {
                &&& received_as(arg, extern_crate_pre) == extern_crate_pre
                    + "::vision_utils::types::Address"@
                &&& copied("Address"@)
                &&& width("Address"@) == width(ty)
            }
        }),
{
    reveal_strlit("Address");
    reveal_strlit("i64");
    reveal_strlit("u64");
    assert("Address"@.len() == 7 && "i64"@.len() == 3 && "u64"@.len() == 3);
}

/// Every message takes four bytes more than its arguments: the number by which
/// its answer is told.
pub proof fn message_carries_id(args: Seq<PatTypeView>)
    requires
        message_size(args) is Ok,
        message_size(args)->Ok_0 + 4 <= i32::MAX,
    ensures
        message_size(args.push(msg_id())) == Ok::<int, HandlerError>(message_size(args)->Ok_0 + 4),
{
    reveal_strlit("u32");
    reveal_strlit("i64");
    reveal_strlit("u64");
    assert("u32"@[1] == '3' && "i64"@[1] == '6' && "u64"@[1] == '6');
    assert(args.push(msg_id()).drop_last() =~= args);
}

/// A handler of plain variables gets its bindings if the answer's type is a path,
/// with as many variables as an `i32` has room to count.
pub proof fn plain_handlers_expand(
    names: NamesView,
    attrs: Seq<Seq<char>>,
    args: Seq<PatTypeView>,
    result: TypeView,
    inner_item: Seq<char>,
    alloc_module: Seq<char>,
    extern_crate_pre: Seq<char>,
)
    requires
        forall|i: int| 0 <= i < args.len() ==> plain(#[trigger] args[i]),
        result.path is Some,
        result.path->Some_0.len() > 0,
        8 * (args.len() + 1) <= i32::MAX,
    ensures
        expansion(
            names,
            attrs,
            args,
            result,
            inner_item,
            alloc_module,
            extern_crate_pre,
        ) is Ok,
{
    let given = caller_args(args).push(msg_id());
    assert(plain(msg_id()));
    assert forall|i: int| 0 <= i < given.len() implies plain(#[trigger] given[i]) by {
        if i < given.len() - 1 {
            if args.len() > 0 {
                assert(given[i] == args[i + 1]);
            }
        }
    }
    assert(plain(reply(result)[0]) && plain(reply(result)[1]));
    plain_arguments_have_size(given);
    plain_arguments_have_size(reply(result));
    unreceived_means_received(reply(result));
    assert forall|i: int| 0 <= i < args.len() implies received(#[trigger] args[i]) is Ok by {
        assert(plain(args[i]));
    }
    unreceived_means_received(args);
}

proof fn items_within(h: Seq<char>, p: Seq<char>, r: Seq<char>, m: Seq<char>, c: Seq<char>)
    ensures
        within(h, h + p + r + m + c),
        within(p, h + p + r + m + c),
        within(r, h + p + r + m + c),
        within(m, h + p + r + m + c),
        within(c, h + p + r + m + c),
{
    assert(h + p + r + m + c =~= around(Seq::empty(), h, p + r + m + c));
    assert(h + p + r + m + c =~= around(h, p, r + m + c));
    assert(h + p + r + m + c =~= around(h + p, r, m + c));
    assert(h + p + r + m + c =~= around(h + p + r, m, c));
    assert(h + p + r + m + c =~= around(h + p + r + m, c, Seq::empty()));
}

proof fn client_item_holds_ser(
    names: NamesView,
    args: Seq<PatTypeView>,
    result: Seq<char>,
    extern_crate_pre: Seq<char>,
)
    ensures
        holds_once(|ser: Seq<char>| client_item(names, args, result, extern_crate_pre, ser)),
{
    let whole = |ser: Seq<char>| client_item(names, args, result, extern_crate_pre, ser);
    let after = "}\n"@;
    let bare = client_item(names, args, result, extern_crate_pre, Seq::empty());
    let before = bare.take(bare.len() - after.len());
    assert forall|ser: Seq<char>| #[trigger] whole(ser) == around(before, ser, after) by {
        assert(client_item(names, args, result, extern_crate_pre, ser) =~= around(
            before,
            ser,
            after,
        ));
    }
    assert(holds(whole, before, after));
}

proof fn return_fn_holds_der(names: NamesView, ret_type: Seq<char>, extern_crate_pre: Seq<char>)
    ensures
        holds_once(|der: Seq<char>| return_fn(names, ret_type, extern_crate_pre, der)),
{
    let whole = |der: Seq<char>| return_fn(names, ret_type, extern_crate_pre, der);
    let after = "}\n"@;
    let bare = return_fn(names, ret_type, extern_crate_pre, Seq::empty());
    let before = bare.take(bare.len() - after.len());
    assert forall|der: Seq<char>| #[trigger] whole(der) == around(before, der, after) by {
        assert(return_fn(names, ret_type, extern_crate_pre, der) =~= around(before, der, after));
    }
    assert(holds(whole, before, after));
}

proof fn handler_items_hold_der(
    names: NamesView,
    attrs: Seq<Seq<char>>,
    args: Seq<PatTypeView>,
    inner_item: Seq<char>,
    extern_crate_pre: Seq<char>,
)
    ensures
        holds_once(
            |der: Seq<char>|
                handler_items(names, attrs, args, inner_item, extern_crate_pre, der),
        ),
{
    let whole = |der: Seq<char>|
        handler_items(names, attrs, args, inner_item, extern_crate_pre, der);
    let after = "}\n#[cfg(feature = \"module\")]\n"@ + inner_item + "\n"@;
    let bare = handler_items(names, attrs, args, inner_item, extern_crate_pre, Seq::empty());
    let before = bare.take(bare.len() - after.len());
    assert forall|der: Seq<char>| #[trigger] whole(der) == around(before, der, after) by {
        assert(handler_items(names, attrs, args, inner_item, extern_crate_pre, der) =~= around(
            before,
            der,
            after,
        ));
    }
    assert(holds(whole, before, after));
}

proof fn handle_holds_ser(
    names: NamesView,
    args: Seq<PatTypeView>,
    result: Seq<char>,
    extern_crate_pre: Seq<char>,
)
    ensures
        holds_once(|ser: Seq<char>| handle(names, args, result, extern_crate_pre, ser)),
{
    let whole = |ser: Seq<char>| handle(names, args, result, extern_crate_pre, ser);
    let before = "let cb = {\nlet from = from.clone();\nmove |arg: "@ + result + "| {\n"@;
    let bare = handle(names, args, result, extern_crate_pre, Seq::empty());
    let after = bare.skip(before.len() as int);
    assert forall|ser: Seq<char>| #[trigger] whole(ser) == around(before, ser, after) by {
        assert(handle(names, args, result, extern_crate_pre, ser) =~= around(before, ser, after));
    }
    assert(holds(whole, before, after));
}

/// What a caller does to send its message has one place in the function that sends
/// it.
pub proof fn message_is_sent_once(
    names: NamesView,
    args: Seq<PatTypeView>,
    result: Seq<char>,
    alloc_module: Seq<char>,
    extern_crate_pre: Seq<char>,
    bytes: nat,
)
    ensures
        holds_once(
            |send: Seq<char>|
                client_item(
                    names,
                    args,
                    result,
                    extern_crate_pre,
                    serializer(
                        caller_args(args).push(msg_id()),
                        alloc_module,
                        extern_crate_pre,
                        send,
                        bytes,
                    ),
                ),
        ),
{
    let given = caller_args(args).push(msg_id());
    let inner = |send: Seq<char>| serializer(given, alloc_module, extern_crate_pre, send, bytes);
    let outer = |ser: Seq<char>| client_item(names, args, result, extern_crate_pre, ser);
    serializer_holds_callback(given, alloc_module, extern_crate_pre, bytes);
    client_item_holds_ser(names, args, result, extern_crate_pre);
    holds_once_within(
        inner,
        outer,
        |send: Seq<char>|
            client_item(
                names,
                args,
                result,
                extern_crate_pre,
                serializer(
                    caller_args(args).push(msg_id()),
                    alloc_module,
                    extern_crate_pre,
                    send,
                    bytes,
                ),
            ),
    );
}

/// The call of the handler as it was written has one place in the handler that other
/// actors reach, as long as there is an argument.
pub proof fn handler_is_called_once(
    names: NamesView,
    attrs: Seq<Seq<char>>,
    args: Seq<PatTypeView>,
    inner_item: Seq<char>,
    alloc_module: Seq<char>,
    extern_crate_pre: Seq<char>,
)
    requires
        args.len() > 0,
    ensures
        holds_once(
            |call: Seq<char>|
                handler_items(
                    names,
                    attrs,
                    args,
                    inner_item,
                    extern_crate_pre,
                    unpack(args, alloc_module, extern_crate_pre, call, args.len() as int),
                ),
        ),
{
    let n = args.len() as int;
    let inner = |call: Seq<char>| unpack(args, alloc_module, extern_crate_pre, call, n);
    let outer = |der: Seq<char>|
        handler_items(names, attrs, args, inner_item, extern_crate_pre, der);
    unpack_holds_callback(args, alloc_module, extern_crate_pre, n);
    handler_items_hold_der(names, attrs, args, inner_item, extern_crate_pre);
    holds_once_within(
        inner,
        outer,
        |call: Seq<char>|
            handler_items(
                names,
                attrs,
                args,
                inner_item,
                extern_crate_pre,
                unpack(args, alloc_module, extern_crate_pre, call, args.len() as int),
            ),
    );
}

/// What is done to send the answer has one place in the callback that the handler as
/// it was written gets.
pub proof fn answer_is_sent_once(
    names: NamesView,
    args: Seq<PatTypeView>,
    result: TypeView,
    alloc_module: Seq<char>,
    extern_crate_pre: Seq<char>,
    bytes: nat,
)
    ensures
        holds_once(
            |answer: Seq<char>|
                handle(
                    names,
                    args,
                    result.text,
                    extern_crate_pre,
                    serializer(reply(result), alloc_module, extern_crate_pre, answer, bytes),
                ),
        ),
{
    let inner = |answer: Seq<char>|
        serializer(reply(result), alloc_module, extern_crate_pre, answer, bytes);
    let outer = |ser: Seq<char>| handle(names, args, result.text, extern_crate_pre, ser);
    serializer_holds_callback(reply(result), alloc_module, extern_crate_pre, bytes);
    handle_holds_ser(names, args, result.text, extern_crate_pre);
    holds_once_within(
        inner,
        outer,
        |answer: Seq<char>|
            handle(
                names,
                args,
                result.text,
                extern_crate_pre,
                serializer(reply(result), alloc_module, extern_crate_pre, answer, bytes),
            ),
    );
}

/// What is done to take the answer to the callback that waits for it has one place
/// in the handler for the answer.
pub proof fn answer_is_taken_once(
    names: NamesView,
    result: TypeView,
    ret_type: Seq<char>,
    alloc_module: Seq<char>,
    extern_crate_pre: Seq<char>,
)
    ensures
        holds_once(
            |resume: Seq<char>|
                return_fn(
                    names,
                    ret_type,
                    extern_crate_pre,
                    unpack(reply(result), alloc_module, extern_crate_pre, resume, 2),
                ),
        ),
{
    let inner = |resume: Seq<char>|
        unpack(reply(result), alloc_module, extern_crate_pre, resume, 2);
    let outer = |der: Seq<char>| return_fn(names, ret_type, extern_crate_pre, der);
    unpack_holds_callback(reply(result), alloc_module, extern_crate_pre, 2);
    return_fn_holds_der(names, ret_type, extern_crate_pre);
    holds_once_within(
        inner,
        outer,
        |resume: Seq<char>|
            return_fn(
                names,
                ret_type,
                extern_crate_pre,
                unpack(reply(result), alloc_module, extern_crate_pre, resume, 2),
            ),
    );
}

/// The handler for the answer stands among the items, and a macro puts it wherever
/// it is invoked.
pub proof fn return_handler_is_held(names: NamesView, handler: Seq<char>)
    ensures
        within(handler, return_item(handler)),
        within(handler, return_macro(names, handler)),
{
    let gate = "#[cfg(not(feature = \"module\"))]\n"@;
    assert(return_item(handler) =~= around(gate, handler, Seq::empty()));
    let whole = return_macro(names, handler);
    let after = "};\n}\n"@;
    let before = whole.take(whole.len() - after.len() - handler.len());
    assert(whole =~= around(before, handler, after));
}

/// The head of the handler that other actors reach, up to its arguments: it has the
/// attributes of the handler as it was written.
pub open spec fn handler_head(names: NamesView, attrs: Seq<Seq<char>>) -> Seq<char> {
    "#[cfg(feature = \"module\")]\n"@ + lines(attrs) + "pub extern \"C\" fn "@ + names.handler + "("@
}

/// The handler as it was written, where it is built into a module.
pub open spec fn gated(inner_item: Seq<char>) -> Seq<char> {
    "#[cfg(feature = \"module\")]\n"@ + inner_item
}

proof fn parts_within_handler_items(
    names: NamesView,
    attrs: Seq<Seq<char>>,
    args: Seq<PatTypeView>,
    inner_item: Seq<char>,
    extern_crate_pre: Seq<char>,
    der: Seq<char>,
)
    ensures
        ({
            let whole = handler_items(names, attrs, args, inner_item, extern_crate_pre, der);
            &&& within(handler_head(names, attrs), whole)
            &&& within(gated(inner_item), whole)
        }),
{
    let whole = handler_items(names, attrs, args, inner_item, extern_crate_pre, der);
    let head = handler_head(names, attrs);
    assert(whole =~= around(Seq::empty(), head, whole.skip(head.len() as int)));
    let end = "\n"@;
    let gate = "}\n#[cfg(feature = \"module\")]\n"@;
    reveal_strlit("}\n#[cfg(feature = \"module\")]\n");
    reveal_strlit("#[cfg(feature = \"module\")]\n");
    let inner = gated(inner_item);
    assert(gate =~= gate.take(2) + "#[cfg(feature = \"module\")]\n"@);
    let until_inner = whole.take(whole.len() - end.len() - inner.len());
    assert(whole =~= around(until_inner, inner, end));
}

/// The bindings hold each step of the way of a message: it is sent, the handler
/// as it was written is called with it, the answer is sent, and is handed to the
/// callback that waits for it.
///
/// A handler with no argument but its callback is never called, so nor is an
/// answer sent.
pub proof fn bindings_connect(
    names: NamesView,
    attrs: Seq<Seq<char>>,
    args: Seq<PatTypeView>,
    result: TypeView,
    inner_item: Seq<char>,
    alloc_module: Seq<char>,
    extern_crate_pre: Seq<char>,
)
    requires
        expansion(
            names,
            attrs,
            args,
            result,
            inner_item,
            alloc_module,
            extern_crate_pre,
        ) is Ok,
    ensures
        ({
            let code = expansion(
                names,
                attrs,
                args,
                result,
                inner_item,
                alloc_module,
                extern_crate_pre,
            )->Ok_0;
            let ser = serializer(
                reply(result),
                alloc_module,
                extern_crate_pre,
                answer(names),
                message_size(reply(result))->Ok_0 as nat,
            );
            let return_handler = return_fn(
                names,
                sent_as(reply(result)[0], extern_crate_pre),
                extern_crate_pre,
                unpack(reply(result), alloc_module, extern_crate_pre, resume(names), 2),
            );
            &&& within(send(names, args), code)
            &&& within(resume(names), return_handler)
            &&& within(return_item(return_handler), code)
            &&& within(return_macro(names, return_handler), code)
            &&& within(handler_head(names, attrs), code)
            &&& within(gated(inner_item), code)
            &&& within(pipeline_item(names, result.text), code)
            &&& args.len() > 0 ==> within(
                handle(names, args, result.text, extern_crate_pre, ser),
                code,
            )
            &&& args.len() > 0 ==> within(answer(names), code)
        }),
{
    let code = expansion(
        names,
        attrs,
        args,
        result,
        inner_item,
        alloc_module,
        extern_crate_pre,
    )->Ok_0;
    let given = caller_args(args).push(msg_id());
    let ser = serializer(
        reply(result),
        alloc_module,
        extern_crate_pre,
        answer(names),
        message_size(reply(result))->Ok_0 as nat,
    );
    let call = handle(names, args, result.text, extern_crate_pre, ser);
    let der = unpack(args, alloc_module, extern_crate_pre, call, args.len() as int);
    let return_der = unpack(reply(result), alloc_module, extern_crate_pre, resume(names), 2);
    let client_ser = serializer(
        given,
        alloc_module,
        extern_crate_pre,
        send(names, args),
        message_size(given)->Ok_0 as nat,
    );
    let h = handler_items(names, attrs, args, inner_item, extern_crate_pre, der);
    let p = pipeline_item(names, result.text);
    let return_handler = return_fn(
        names,
        sent_as(reply(result)[0], extern_crate_pre),
        extern_crate_pre,
        return_der,
    );
    let r = return_item(return_handler);
    let m = return_macro(names, return_handler);
    let c = client_item(names, args, result.text, extern_crate_pre, client_ser);
    items_within(h, p, r, m, c);

    message_is_sent_once(
        names,
        args,
        result.text,
        alloc_module,
        extern_crate_pre,
        message_size(given)->Ok_0 as nat,
    );
    held_is_within(
        |send: Seq<char>|
            client_item(
                names,
                args,
                result.text,
                extern_crate_pre,
                serializer(
                    caller_args(args).push(msg_id()),
                    alloc_module,
                    extern_crate_pre,
                    send,
                    message_size(given)->Ok_0 as nat,
                ),
            ),
        send(names, args),
    );
    within_within(send(names, args), c, code);

    let ret_type = sent_as(reply(result)[0], extern_crate_pre);
    answer_is_taken_once(names, result, ret_type, alloc_module, extern_crate_pre);
    held_is_within(
        |resume: Seq<char>|
            return_fn(
                names,
                ret_type,
                extern_crate_pre,
                unpack(reply(result), alloc_module, extern_crate_pre, resume, 2),
            ),
        resume(names),
    );

    parts_within_handler_items(names, attrs, args, inner_item, extern_crate_pre, der);
    within_within(handler_head(names, attrs), h, code);
    within_within(gated(inner_item), h, code);
    if args.len() > 0 {
        handler_is_called_once(names, attrs, args, inner_item, alloc_module, extern_crate_pre);
        held_is_within(
            |call: Seq<char>|
                handler_items(
                    names,
                    attrs,
                    args,
                    inner_item,
                    extern_crate_pre,
                    unpack(args, alloc_module, extern_crate_pre, call, args.len() as int),
                ),
            call,
        );
        within_within(call, h, code);
        let bytes = message_size(reply(result))->Ok_0 as nat;
        answer_is_sent_once(names, args, result, alloc_module, extern_crate_pre, bytes);
        held_is_within(
            |answer: Seq<char>|
                handle(
                    names,
                    args,
                    result.text,
                    extern_crate_pre,
                    serializer(reply(result), alloc_module, extern_crate_pre, answer, bytes),
                ),
            answer(names),
        );
        within_within(answer(names), call, code);
    }
}

/// A copied integer that a caller gives is, bit for bit, the one that the handler gets:
/// it is packed as an integer type and taken out as its own, and no value of its type is
/// lost on the way.
pub proof fn copied_integers_arrive(
    arg: PatTypeView,
    front: Seq<Seq<char>>,
    signed: bool,
    bits: nat,
    value: int,
    clones: Seq<char>,
    alloc_module: Seq<char>,
    extern_crate_pre: Seq<char>,
    rest: Seq<char>,
)
    requires
        bits == 8 || bits == 16 || bits == 32 || bits == 64,
        arg.pat.ident is Some,
        arg.ty.path == Some(front.push(integer(signed, bits))),
        fits(value, signed, bits),
    ensures
        ({
            let name = arg.pat.ident->Some_0;
            let wide: nat = if bits < 32 {
                32
            } else {
                bits
            };
            &&& ("let mut bytes = Vec::from(("@ + arg.pat.text + " as "@ + integer(signed, wide)
                + ").to_le_bytes());\n"@).is_prefix_of(
                pack_step(arg, alloc_module, extern_crate_pre, rest),
            )
            &&& ("let "@ + name + " = "@ + name + " as "@ + integer(signed, bits)
                + ";\n"@).is_prefix_of(
                unpack_step(arg, clones, alloc_module, extern_crate_pre, rest),
            )
            &&& cast(cast(value, signed, wide), signed, bits) == value
            &&& received_as(arg, extern_crate_pre) == arg.ty.text
            &&& sent_as(arg, extern_crate_pre) == arg.ty.text
        }),
{
    let ty = integer(signed, bits);
    integers_are_packed_whole(
        arg,
        front,
        signed,
        bits,
        alloc_module,
        extern_crate_pre,
        rest,
    );
    arguments_are_taken_out(
        arg,
        front,
        ty,
        clones,
        alloc_module,
        extern_crate_pre,
        rest,
    );
    copied_values_travel_whole(signed, bits, value);
    received_by_name_and_last_segment(arg, front, ty);
}

/// A value of any type but an address or one of the copied integers arrives as the
/// address of a cell, is written to the cell as JSON, and is read out of it.
pub proof fn other_values_arrive_in_cells(
    arg: PatTypeView,
    front: Seq<Seq<char>>,
    ty: Seq<char>,
    clones: Seq<char>,
    alloc_module: Seq<char>,
    extern_crate_pre: Seq<char>,
    rest: Seq<char>,
)
    requires
        arg.pat.ident is Some,
        arg.ty.path == Some(front.push(ty)),
        ty != "Address"@,
        forall|signed: bool, bits: nat|
            (bits == 8 || bits == 16 || bits == 32 || bits == 64) ==> ty != #[trigger] integer(
                signed,
                bits,
            ),
    ensures
        ("let v_bytes = "@ + extern_crate_pre + "::serde_json::to_vec(&"@ + arg.pat.text
            + ").unwrap();\n"@).is_prefix_of(
            pack_step(arg, alloc_module, extern_crate_pre, rest),
        ),
        ("let cell = "@ + arg.pat.ident->Some_0 + ";\n"@).is_prefix_of(
            unpack_step(arg, clones, alloc_module, extern_crate_pre, rest),
        ),
        received_as(arg, extern_crate_pre) == extern_crate_pre + "::vision_utils::types::Address"@,
        sent_as(arg, extern_crate_pre) == extern_crate_pre + "::vision_utils::types::Address"@,
{
    other_values_are_packed_in_cells(
        arg,
        front,
        ty,
        alloc_module,
        extern_crate_pre,
        rest,
    );
    arguments_are_taken_out(
        arg,
        front,
        ty,
        clones,
        alloc_module,
        extern_crate_pre,
        rest,
    );
    integers_are_copied(ty);
    received_by_name_and_last_segment(arg, front, ty);
}

/// An address arrives as it is.
pub proof fn addresses_arrive(
    arg: PatTypeView,
    front: Seq<Seq<char>>,
    extern_crate_pre: Seq<char>,
)
    requires
        arg.pat.ident is Some,
        arg.ty.path == Some(front.push("Address"@)),
    ensures
        received_as(arg, extern_crate_pre) == arg.ty.text,
        sent_as(arg, extern_crate_pre) == arg.ty.text,
{
    integers_are_copied("Address"@);
    received_by_name_and_last_segment(arg, front, "Address"@);
    sent_types_are_last_segments(arg, front, "Address"@);
}

/// Callers give all of the arguments but the first.
pub proof fn callers_give_all_but_the_first(first: PatTypeView, given: Seq<PatTypeView>)
    ensures
        caller_args(seq![first] + given) == given,
        caller_args(Seq::empty()) == Seq::<PatTypeView>::empty(),
{
    assert((seq![first] + given).skip(1) =~= given);
}

/// An answer holds the value `arg` of the type of the answer, and then the number
/// `msg_id`, a `u32`, as plain variables.
pub proof fn answers_hold_value_and_number(result: TypeView)
    ensures
        reply(result).len() == 2,
        reply(result)[0].ty == result,
        reply(result)[0].pat.text == "arg"@,
        reply(result)[1] == msg_id(),
        msg_id().pat.text == "msg_id"@,
        msg_id().ty.text == "u32"@,
        msg_id().ty.path == Some(seq!["u32"@]),
        forall|i: int|
            0 <= i < 2 ==> {
                &&& (#[trigger] reply(result)[i]).attrs.len() == 0
                &&& reply(result)[i].arguments.len() == 0
                &&& reply(result)[i].pat.ident == Some(reply(result)[i].pat.text)
            },
{
}

/// The message is sent with the first variable that the caller gives, by its name, or
/// with the start of the message if the caller gives none.
pub proof fn messages_are_sent_from_the_first_variable(
    from: PatTypeView,
    first: PatTypeView,
    more: Seq<PatTypeView>,
)
    ensures
        first_given(Seq::empty()) == "v_ptr"@,
        first_given(seq![from]) == "v_ptr"@,
        first.pat.ident is Some ==> first_given(seq![from, first] + more)
            == first.pat.ident->Some_0,
        first.pat.ident is None ==> first_given(seq![from, first] + more) == first.pat.text,
        first_given(seq![from, first] + more) == binding(first),
{
    assert((seq![from, first] + more)[1] == first);
}

/// Whether the code around names and types is made of these pieces.
pub open spec fn item_pieces(p: Seq<Seq<char>>) -> bool {
    &&& forall|names: NamesView| #[trigger] resume(names) == p[0] + names.pipeline + p[1]
    &&& forall|names: NamesView| #[trigger] answer(names) == p[2] + names.return_message + p[3]
    &&& forall|names: NamesView, args: Seq<PatTypeView>| #[trigger]
        send(names, args) == p[4] + names.message + p[5] + first_given(args) + p[6]
    &&& forall|arg: PatTypeView| #[trigger] taken(arg) == binding(arg) + p[7]
    &&& forall|arg: PatTypeView, ty: Seq<char>| #[trigger]
        printed(arg, ty) == lines(arg.attrs) + arg.pat.text + p[8] + ty
    &&& forall|names: NamesView, result: Seq<char>| #[trigger]
        pipeline_item(names, result) == p[9] + names.pipeline + p[10] + result + p[11]
    &&& forall|names: NamesView, ty: Seq<char>, pre: Seq<char>, der: Seq<char>| #[trigger]
        return_fn(names, ty, pre, der) == p[12] + names.return_handler + p[13] + pre + p[14] + ty
            + p[15] + der + p[16]
    &&& forall|handler: Seq<char>| #[trigger] return_item(handler) == p[17] + handler
    &&& forall|names: NamesView, handler: Seq<char>| #[trigger]
        return_macro(names, handler) == p[18] + names.message + p[19] + handler + p[20]
}

/// The code around the names, types and parts of a handler is the same for all
/// handlers, but for the places where they stand.
pub proof fn items_are_uniform()
    ensures
        exists|p: Seq<Seq<char>>| item_pieces(p),
{
    let p = seq![
        "let mut lock = "@,
        ".write().unwrap();\nlet maybe_cb = lock.get_mut(msg_id.lock().unwrap().take().unwrap() as usize).unwrap().take();\nif let Some(callback) = maybe_cb {\ncallback.call(arg.lock().unwrap().take().unwrap());\n}\n"@,
        "let handler_name = std::ffi::CString::new(\""@,
        "\").expect(\"Invalid scheduler message kind encoding\");\nsend_message((*from.lock().unwrap()).unwrap(), handler_name.as_ptr() as i32, arg);\n"@,
        "let msg_kind = std::ffi::CString::new(\""@,
        "\").expect(\"Invalid scheduler message kind encoding\");\nsend_message(to, msg_kind.as_ptr() as i32, "@,
        ");\n"@,
        ".lock().unwrap().take().unwrap()"@,
        ": "@,
        "pub static "@,
        ": RwLock<Vec<Option<Callback<"@,
        ">>>> = RwLock::new(Vec::new());\n"@,
        "#[no_mangle]\npub extern \"C\" fn "@,
        "(from: "@,
        "::vision_utils::types::Address, arg: "@,
        ", msg_id: u32) {\n"@,
        "}\n"@,
        "#[cfg(not(feature = \"module\"))]\n"@,
        "#[macro_export]\nmacro_rules! include_"@,
        "_ret {\n() => {\n"@,
        "};\n}\n"@,
    ];
    assert(item_pieces(p));
}

/// Whether the code around lists of arguments is made of these pieces.
pub open spec fn list_pieces(p: Seq<Seq<char>>) -> bool {
    &&& forall|
        names: NamesView,
        args: Seq<PatTypeView>,
        result: Seq<char>,
        pre: Seq<char>,
        ser: Seq<char>,
    | #[trigger]
        handle(names, args, result, pre, ser) == p[0] + result + p[1] + ser + p[2] + names.inner
            + p[3] + listed(args.map_values(|arg: PatTypeView| taken(arg))) + p[4] + pre + p[5]
    &&& forall|
        names: NamesView,
        attrs: Seq<Seq<char>>,
        args: Seq<PatTypeView>,
        inner: Seq<char>,
        pre: Seq<char>,
        der: Seq<char>,
    | #[trigger]
        handler_items(names, attrs, args, inner, pre, der) == p[6] + lines(attrs) + p[7]
            + names.handler + p[8] + listed(
            args.map_values(|arg: PatTypeView| printed(arg, received_as(arg, pre))),
        ) + p[9] + pre + p[10] + der + p[11] + inner + p[12]
    &&& forall|
        names: NamesView,
        args: Seq<PatTypeView>,
        result: Seq<char>,
        pre: Seq<char>,
        ser: Seq<char>,
    | #[trigger]
        client_item(names, args, result, pre, ser) == p[13] + names.message + p[14] + listed(
            seq![p[15] + pre + p[16]] + caller_args(args).map_values(
                |arg: PatTypeView| printed(arg, arg.ty.text),
            ),
        ) + p[17] + result + p[18] + pre + p[19] + names.pipeline + p[20] + ser + p[21]
}

/// The functions that a handler gets are the same for all handlers, but for names, types
/// and code in their places. Each argument has its place in the lists, in order: the
/// inner handler gets every value that was taken out, the handler takes every argument
/// as it arrives, and callers give those that are theirs as they are written.
pub proof fn functions_are_uniform()
    ensures
        exists|p: Seq<Seq<char>>| list_pieces(p),
{
    let p = seq![
        "let cb = {\nlet from = from.clone();\nmove |arg: "@,
        "| {\n"@,
        "}\n};\n"@,
        "("@,
        ", "@,
        "::vision_utils::types::Callback::new(cb));\n"@,
        "#[cfg(feature = \"module\")]\n"@,
        "pub extern \"C\" fn "@,
        "("@,
        ", msg_id: u32) {\nuse "@,
        "::vision_utils::actor::send_message;\n"@,
        "}\n#[cfg(feature = \"module\")]\n"@,
        "\n"@,
        "pub fn "@,
        "("@,
        "to: "@,
        "::vision_utils::types::Address"@,
        ", callback: Callback<"@,
        ">) {\nuse "@,
        "::vision_utils::actor::send_message;\nlet msg_id: u32 = {\nlet mut lock = "@,
        ".write().unwrap();\nlock.push(Some(callback));\nlet id = lock.len() as u32 - 1;\nid\n};\n"@,
        "}\n"@,
    ];
    assert(list_pieces(p));
}

/// A variable is called by the name of its identifier pattern.
pub proof fn variables_are_called_by_name(arg: PatTypeView, name: Seq<char>)
    ensures
        arg.pat.ident == Some(name) ==> binding(arg) == name,
        arg.pat.ident is None ==> binding(arg) == arg.pat.text,
{
}

/// The bindings are five items, in this order and with nothing between them: the
/// handler with the handler as it was written, the callbacks that wait, the handler for
/// the answer, the macro that holds it, and the function that sends the message.
/// The answer's type, what callers give and the arguments of the handler are looked at
/// in this order, and the first of them that cannot be sent or taken out decides.
pub proof fn bindings_are_five_items(
    names: NamesView,
    attrs: Seq<Seq<char>>,
    args: Seq<PatTypeView>,
    result: TypeView,
    inner_item: Seq<char>,
    alloc_module: Seq<char>,
    extern_crate_pre: Seq<char>,
)
    ensures
        ({
            let code = expansion(
                names,
                attrs,
                args,
                result,
                inner_item,
                alloc_module,
                extern_crate_pre,
            );
            let given = (if args.len() > 0 {
                args.skip(1)
            } else {
                args
            }).push(msg_id());
            let sizes = (message_size(reply(result)), message_size(given));
            &&& sizes.0 is Err ==> code == Err::<Seq<char>, _>(sizes.0->Err_0)
            &&& sizes.0 is Ok && unreceived(reply(result)) is Some ==> code == Err::<Seq<char>, _>(
                unreceived(reply(result))->Some_0,
            )
            &&& sizes.0 is Ok && unreceived(reply(result)) is None && sizes.1 is Err ==> code
                == Err::<Seq<char>, _>(sizes.1->Err_0)
            &&& sizes.0 is Ok && unreceived(reply(result)) is None && sizes.1 is Ok && unreceived(
                args,
            ) is Some ==> code == Err::<Seq<char>, _>(unreceived(args)->Some_0)
            &&& code is Ok <==> sizes.0 is Ok && unreceived(reply(result)) is None && sizes.1 is Ok
                && unreceived(args) is None
            &&& code matches Ok(text) ==> {
                let return_handler = return_fn(
                    names,
                    sent_as(reply(result)[0], extern_crate_pre),
                    extern_crate_pre,
                    unpack(reply(result), alloc_module, extern_crate_pre, resume(names), 2),
                );
                let ser = serializer(
                    reply(result),
                    alloc_module,
                    extern_crate_pre,
                    answer(names),
                    sizes.0->Ok_0 as nat,
                );
                text == handler_items(
                    names,
                    attrs,
                    args,
                    inner_item,
                    extern_crate_pre,
                    unpack(
                        args,
                        alloc_module,
                        extern_crate_pre,
                        handle(names, args, result.text, extern_crate_pre, ser),
                        args.len() as int,
                    ),
                ) + pipeline_item(names, result.text) + return_item(return_handler) + return_macro(
                    names,
                    return_handler,
                ) + client_item(
                    names,
                    args,
                    result.text,
                    extern_crate_pre,
                    serializer(
                        given,
                        alloc_module,
                        extern_crate_pre,
                        send(names, args),
                        sizes.1->Ok_0 as nat,
                    ),
                )
            }
        }),
{
}

} // verus!
