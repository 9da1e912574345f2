//! Message bindings for a handler, from its source text.
use vstd::prelude::*;

use crate::arguments::{
    arguments, arguments_of, before_callback, callback_type, callback_type_of,
    inputs_end_in_the_callback, last_input,
};
use crate::attribute::{
    arguments_without_c_strings_are_readable, unread_in_arguments, unread_in_arguments_of,
};
use crate::der::{unpack, unreceived_means_received};
use crate::error::{BindingsError, BindingsErrorView, HandlerError};
use crate::expand::{
    answer, bindings_connect, expand, expansion, gated, handle, handler_head, pipeline_item, plain,
    plain_handlers_expand, reply, resume, return_fn, return_item, return_macro, send,
};
use crate::literals::{
    lexed, texts_without_c_strings_are_readable, unread_in, unread_in_of,
};
use crate::names::{
    answer_reaches_handler, fingerprint, fingerprint_of, message, message_of, names, sha256,
    sha256_of, Names, NamesView,
};
use crate::ser::{message_size, message_size_means_sent, sent_as, serializer};
use crate::syntax::{
    attribute_args, identifier, is_identifier, parse_attribute_args, parsed_item, renamed,
    renamed_of, FnArgView, ItemFn, ItemFnView, TypeView,
};
use crate::text::within;
use crate::wire::sent_type;

verus! {

/// The module of the allocator: the one that the bindings stand in if the
/// attribute has arguments.
pub open spec fn alloc_module(n_args: nat) -> Seq<char> {
    if n_args > 0 {
        "self"@
    } else {
        "::vision_derive::beacon_dao_allocator"@
    }
}

/// What stands before the paths of the crates that the bindings need.
pub open spec fn extern_crate_pre(n_args: nat) -> Seq<char> {
    if n_args > 0 {
        Seq::empty()
    } else {
        "::vision_derive"@
    }
}

/// The module of the allocator and what stands before the paths of crates, for an
/// attribute with this many arguments.
pub fn roots(n_args: usize) -> (res: (&'static str, &'static str))
    ensures
        res.0@ == alloc_module(n_args as nat),
        res.1@ == extern_crate_pre(n_args as nat),
{
    if n_args > 0 {
        proof {
            reveal_strlit("");
            assert(""@ =~= Seq::empty());
        }
        ("self", "")
    } else {
        ("::vision_derive::beacon_dao_allocator", "::vision_derive")
    }
}

/// The bindings for a handler with these names, where the attribute has `n_args`
/// arguments.
///
/// The arguments are looked at first, then the callback, then the types.
pub open spec fn handler_bindings(n_args: nat, names: NamesView, item: ItemFnView) -> Result<
    Seq<char>,
    HandlerError,
> {
    match (arguments(before_callback(item.inputs)), callback_type(last_input(item.inputs))) {
        (Err(e), _) => Err(e),
        (_, Err(e)) => Err(e),
        (Ok(handler_args), Ok(result)) => expansion(
            names,
            item.attrs,
            handler_args,
            result,
            renamed(item.definition, names.inner),
            alloc_module(n_args),
            extern_crate_pre(n_args),
        ),
    }
}

/// Generates the bindings for a handler.
pub fn handler_bindings_of(n_args: usize, names: &Names, item: ItemFn) -> (res: Result<
    String,
    HandlerError,
>)
    ensures
        ({
            let expected = handler_bindings(n_args as nat, names@, item.deep_view());
            match res {
                Ok(code) => expected == Ok::<_, HandlerError>(code@),
                Err(e) => expected == Err::<Seq<char>, _>(e),
            }
        }),
{
    let ghost all = item.inputs.deep_view();
    let inner_item = renamed_of(&item.definition, names.inner.as_str());
    let mut inputs = item.inputs;
    let last = inputs.pop();
    assert(inputs.deep_view() =~= before_callback(all));
    assert(last.deep_view() == last_input(all));
    let handler_args = match arguments_of(inputs) {
        Ok(handler_args) => handler_args,
        Err(e) => return Err(e),
    };
    let result = match callback_type_of(last) {
        Ok(result) => result,
        Err(e) => return Err(e),
    };
    let (alloc_module, extern_crate_pre) = roots(n_args);
    expand(
        names,
        &item.attrs,
        handler_args,
        result,
        inner_item.as_str(),
        alloc_module,
        extern_crate_pre,
    )
}

/// The bindings for the handler in the text `input`, whose attribute has the
/// arguments in the text `args`.
///
/// Arguments that cannot be read give code that does not compile, and says so.
pub open spec fn bindings(args: Seq<char>, input: Seq<char>) -> Result<
    Seq<char>,
    BindingsErrorView,
> {
    match (unread_in_arguments(args), attribute_args(args), unread_in(input), parsed_item(input)) {
        (Some(literal), _, _, _) => Err(BindingsErrorView::Literal(literal)),
        (None, Err(tokens), _, _) => Ok(tokens),
        (None, Ok(_), Some(literal), _) => Err(BindingsErrorView::Literal(literal)),
        (None, Ok(_), None, Err(message)) => Err(BindingsErrorView::Syntax(message)),
        (None, Ok(n), None, Ok(item)) => item_bindings(n, item),
    }
}

/// The names that are made up for the handler `item`, which is for the message `msg`.
pub open spec fn item_names(item: ItemFnView, msg: Seq<char>) -> NamesView {
    names(item.ident, msg, sha256(fingerprint(item.text)))
}

/// The bindings for the handler `item`, where the attribute has `n_args` arguments.
///
/// The handler must be named for a message, and every name that is made up for it
/// must be an identifier.
pub open spec fn item_bindings(n_args: nat, item: ItemFnView) -> Result<
    Seq<char>,
    BindingsErrorView,
> {
    match message(item.ident) {
        Err(e) => Err(BindingsErrorView::Handler(e)),
        Ok(msg) => {
            let names = item_names(item, msg);
            if !identifier(names.pipeline) {
                Err(BindingsErrorView::Name(names.pipeline))
            } else if !identifier(names.return_handler) {
                Err(BindingsErrorView::Name(names.return_handler))
            } else if !identifier(names.inner) {
                Err(BindingsErrorView::Name(names.inner))
            } else {
                match handler_bindings(n_args, names, item) {
                    Err(e) => Err(BindingsErrorView::Handler(e)),
                    Ok(code) => if !identifier(msg) {
                        Err(BindingsErrorView::Name(msg))
                    } else {
                        Ok(code)
                    },
                }
            }
        },
    }
}

/// The type that the callback of a handler takes.
pub open spec fn result_type(item: ItemFnView) -> Result<TypeView, HandlerError> {
    callback_type(last_input(item.inputs))
}

/// Whether an input is a callback for a named type: it is typed by a path whose last
/// segment is `Callback`, and the last generic argument of that segment is a type with a
/// name.
pub open spec fn is_callback(input: FnArgView) -> bool {
    &&& input is Typed
    &&& input->Typed_0.ty.path is Some
    &&& input->Typed_0.ty.path->Some_0.len() > 0
    &&& input->Typed_0.ty.path->Some_0.last() == "Callback"@
    &&& input->Typed_0.arguments.len() > 0
    &&& input->Typed_0.arguments.last() is Some
    &&& input->Typed_0.arguments.last()->Some_0.len() > 0
    &&& input->Typed_0.arguments.last()->Some_0.last() is Some
    &&& input->Typed_0.arguments.last()->Some_0.last()->Some_0.path is Some
    &&& input->Typed_0.arguments.last()->Some_0.last()->Some_0.path->Some_0.len() > 0
}

/// Whether a function can be a message handler: it is named for a message, its
/// arguments are plain variables of named types, and the last of them is a
/// callback for a named type.
pub open spec fn is_handler(item: ItemFnView) -> bool {
    &&& "handle_"@.is_prefix_of(item.ident)
    &&& forall|i: int|
        0 <= i < item.inputs.len() - 1 ==> {
            &&& #[trigger] item.inputs[i] is Typed
            &&& plain(item.inputs[i]->Typed_0)
        }
    &&& item.inputs.len() > 0
    &&& is_callback(item.inputs.last())
}

/// Whether the names that are made up for a handler are identifiers.
pub open spec fn names_are_identifiers(item: ItemFnView) -> bool {
    let names = item_names(item, message(item.ident)->Ok_0);
    &&& identifier(names.message)
    &&& identifier(names.pipeline)
    &&& identifier(names.return_handler)
    &&& identifier(names.inner)
}

/// Only a message handler for which all names are identifiers gets bindings, and
/// every such handler does, with as many arguments as an `i32` has room to count.
pub proof fn only_handlers_get_bindings(args: Seq<char>, input: Seq<char>, item: ItemFnView)
    requires
        unread_in_arguments(args) is None,
        attribute_args(args) is Ok,
        unread_in(input) is None,
        parsed_item(input) == Ok::<_, Seq<char>>(item),
    ensures
        bindings(args, input) is Ok ==> is_handler(item) && names_are_identifiers(item),
        is_handler(item) && names_are_identifiers(item) && 8 * item.inputs.len() <= i32::MAX
            ==> bindings(args, input) is Ok,
{
    let n_args = attribute_args(args)->Ok_0;
    let before = before_callback(item.inputs);
    if bindings(args, input) is Ok {
        let handler_args = arguments(before)->Ok_0;
        let result = result_type(item)->Ok_0;
        unreceived_means_received(handler_args);
        message_size_means_sent(reply(result));
        assert(sent_type(reply(result)[0]) is Ok);
        assert forall|i: int| 0 <= i < item.inputs.len() - 1 implies {
            &&& #[trigger] item.inputs[i] is Typed
            &&& plain(item.inputs[i]->Typed_0)
        } by {
            assert(before[i] == item.inputs[i]);
            assert(handler_args[i] == before[i]->Typed_0);
        }
    }
    if is_handler(item) && names_are_identifiers(item) && 8 * item.inputs.len() <= i32::MAX {
        arguments_of_handler(item);
        let names = item_names(item, message(item.ident)->Ok_0);
        plain_handlers_expand(
            names,
            item.attrs,
            arguments(before)->Ok_0,
            result_type(item)->Ok_0,
            renamed(item.definition, names.inner),
            alloc_module(n_args),
            extern_crate_pre(n_args),
        );
    }
}

proof fn arguments_of_handler(item: ItemFnView)
    requires
        is_handler(item),
    ensures
        arguments(before_callback(item.inputs)) is Ok,
        arguments(before_callback(item.inputs))->Ok_0.len() + 1 == item.inputs.len(),
        forall|i: int|
            0 <= i < arguments(before_callback(item.inputs))->Ok_0.len() ==> plain(
                #[trigger] arguments(before_callback(item.inputs))->Ok_0[i],
            ),
{
    let before = before_callback(item.inputs);
    assert forall|i: int| 0 <= i < before.len() implies {
        &&& #[trigger] before[i] is Typed
        &&& plain(before[i]->Typed_0)
    } by {
        assert(before[i] == item.inputs[i]);
    }
    let handler_args = arguments(before)->Ok_0;
    assert forall|i: int| 0 <= i < handler_args.len() implies plain(#[trigger] handler_args[i]) by {
        assert(before[i] is Typed);
    }
}

/// The bindings hold each step of the way of a message: it is sent, the handler as
/// it was written is called with it, the answer is sent to the handler that is named
/// for it, and is handed to the callback that waits for it. The handler as it was
/// written keeps all of its parts but its name and its attributes, which go to the
/// handler that other actors reach.
///
/// A handler with no argument but its callback is never called, so nor is an
/// answer sent.
pub proof fn bindings_hold_each_step(args: Seq<char>, input: Seq<char>, item: ItemFnView)
    requires
        unread_in_arguments(args) is None,
        attribute_args(args) is Ok,
        unread_in(input) is None,
        parsed_item(input) == Ok::<_, Seq<char>>(item),
        bindings(args, input) is Ok,
    ensures
        ({
            let code = bindings(args, input)->Ok_0;
            let names = item_names(item, message(item.ident)->Ok_0);
            let handler_args = arguments(before_callback(item.inputs))->Ok_0;
            let result = result_type(item)->Ok_0;
            let alloc = alloc_module(attribute_args(args)->Ok_0);
            let pre = extern_crate_pre(attribute_args(args)->Ok_0);
            let ser = serializer(
                reply(result),
                alloc,
                pre,
                answer(names),
                message_size(reply(result))->Ok_0 as nat,
            );
            let return_handler = return_fn(
                names,
                sent_as(reply(result)[0], pre),
                pre,
                unpack(reply(result), alloc, pre, resume(names), 2),
            );
            &&& within(send(names, handler_args), code)
            &&& within(handler_head(names, item.attrs), code)
            &&& within(gated(renamed(item.definition, names.inner)), code)
            &&& within(pipeline_item(names, result.text), code)
            &&& item.inputs.len() > 1 ==> within(
                handle(names, handler_args, result.text, pre, ser),
                code,
            )
            &&& item.inputs.len() > 1 ==> within(answer(names), code)
            &&& names.return_handler == "handle_"@ + names.return_message
            &&& within(return_item(return_handler), code)
            &&& within(return_macro(names, return_handler), code)
            &&& within(resume(names), return_handler)
        }),
{
    let n_args = attribute_args(args)->Ok_0;
    let names = item_names(item, message(item.ident)->Ok_0);
    answer_reaches_handler(
        item.ident,
        message(item.ident)->Ok_0,
        sha256(fingerprint(item.text)),
    );
    bindings_connect(
        names,
        item.attrs,
        arguments(before_callback(item.inputs))->Ok_0,
        result_type(item)->Ok_0,
        renamed(item.definition, names.inner),
        alloc_module(n_args),
        extern_crate_pre(n_args),
    );
}

/// For a message handler, generates:
/// - A function that sends the message, and hands its answer to a callback
/// - A macro for including the handler that takes the answer back
/// - The callbacks that wait for an answer, and a handler that takes the answer to
///   the callback that waits for it
/// - A handler that takes only values that are copied, and hands the message to
///   the handler as it was written
///
/// `args` is the text between the brackets of the attribute, and `input` the text
/// of the handler.
pub fn with_bindings(args: &str, input: &str) -> (res: Result<String, BindingsError>)
    ensures
        match res {
            Ok(code) => bindings(args@, input@) == Ok::<_, BindingsErrorView>(code@),
            Err(e) => bindings(args@, input@) == Err::<Seq<char>, _>(e@),
        },
        res is Ok && attribute_args(args@) is Ok ==> sha256(
            fingerprint(parsed_item(input@)->Ok_0.text),
        ).len() == 32,
{
    if let Some(literal) = unread_in_arguments_of(args) {
        return Err(BindingsError::Literal(literal));
    }
    let n_args = match parse_attribute_args(args) {
        Ok(n) => n,
        Err(tokens) => return Ok(tokens),
    };
    if let Some(literal) = unread_in_of(input) {
        return Err(BindingsError::Literal(literal));
    }
    let item = match ItemFn::parse(input) {
        Ok(item) => item,
        Err(message) => return Err(BindingsError::Syntax(message)),
    };
    let msg = match message_of(item.ident.as_str()) {
        Ok(msg) => msg,
        Err(e) => return Err(BindingsError::Handler(e)),
    };
    let digest = sha256_of(fingerprint_of(item.text.as_str()));
    let names = Names::new(item.ident.as_str(), msg, digest.as_slice());
    if !is_identifier(names.pipeline.as_str()) {
        return Err(BindingsError::Name(names.pipeline));
    }
    if !is_identifier(names.return_handler.as_str()) {
        return Err(BindingsError::Name(names.return_handler));
    }
    if !is_identifier(names.inner.as_str()) {
        return Err(BindingsError::Name(names.inner));
    }
    let code = match handler_bindings_of(n_args, &names, item) {
        Ok(code) => code,
        Err(e) => return Err(BindingsError::Handler(e)),
    };
    if !is_identifier(names.message.as_str()) {
        return Err(BindingsError::Name(names.message));
    }
    Ok(code)
}

/// An attribute with arguments means the module that the bindings stand in, and no
/// crates before the paths of others, however many arguments there are. One without
/// means the crates of this library.
pub proof fn arguments_mean_this_module(n: nat, m: nat)
    requires
        n > 0,
        m > 0,
    ensures
        alloc_module(n) == alloc_module(m),
        alloc_module(n) == "self"@,
        extern_crate_pre(n) == extern_crate_pre(m),
        extern_crate_pre(n).len() == 0,
        alloc_module(0) == extern_crate_pre(0) + "::beacon_dao_allocator"@,
        extern_crate_pre(0) == "::vision_derive"@,
{
    reveal_strlit("::vision_derive::beacon_dao_allocator");
    reveal_strlit("::vision_derive");
    reveal_strlit("::beacon_dao_allocator");
    assert(alloc_module(0) =~= extern_crate_pre(0) + "::beacon_dao_allocator"@);
}

/// A handler whose last argument is not a callback gets no bindings: if it is typed by a
/// path with another name at its end, it is refused as no callback, whatever the generic
/// arguments are.
pub proof fn other_last_arguments_are_refused(
    args: Seq<char>,
    input: Seq<char>,
    item: ItemFnView,
    front: Seq<Seq<char>>,
    last: Seq<char>,
)
    requires
        unread_in_arguments(args) is None,
        attribute_args(args) is Ok,
        unread_in(input) is None,
        parsed_item(input) == Ok::<_, Seq<char>>(item),
        item.inputs.len() > 0,
        item.inputs.last() is Typed,
        item.inputs.last()->Typed_0.ty.path == Some(front.push(last)),
        last != "Callback"@,
    ensures
        bindings(args, input) is Err,
        (forall|i: int|
            0 <= i < item.inputs.len() - 1 ==> #[trigger] item.inputs[i] is Typed
                && item.inputs[i]->Typed_0.pat.ident is Some) && "handle_"@.is_prefix_of(item.ident)
            && identifier(item_names(item, item.ident.skip("handle_"@.len() as int)).pipeline)
            && identifier(item_names(item, item.ident.skip("handle_"@.len() as int)).return_handler)
            && identifier(item_names(item, item.ident.skip("handle_"@.len() as int)).inner)
            ==> bindings(args, input) == Err::<Seq<char>, _>(
            BindingsErrorView::Handler(HandlerError::NotACallback),
        ),
{
    let before = before_callback(item.inputs);
    let arg = item.inputs.last()->Typed_0;
    assert(arg.ty.path->Some_0.last() == last);
    assert(result_type(item) == Err::<TypeView, _>(HandlerError::NotACallback));
    if forall|i: int|
        0 <= i < item.inputs.len() - 1 ==> #[trigger] item.inputs[i] is Typed
            && item.inputs[i]->Typed_0.pat.ident is Some {
        assert forall|i: int| 0 <= i < before.len() implies #[trigger] before[i] is Typed
            && before[i]->Typed_0.pat.ident is Some by {
            assert(before[i] == item.inputs[i]);
        }
        assert(arguments(before) is Ok);
    }
}

/// The texts are looked at in order, and the first thing that is wrong decides: a
/// literal in the arguments of the attribute, these arguments, which then give the
/// parser's own code, a literal in the handler, and the handler as an item.
pub proof fn texts_are_looked_at_in_order(args: Seq<char>, input: Seq<char>)
    ensures
        unread_in_arguments(args) matches Some(literal) ==> bindings(args, input) == Err::<
            Seq<char>,
            _,
        >(BindingsErrorView::Literal(literal)),
        unread_in_arguments(args) is None ==> (attribute_args(args) matches Err(tokens) ==> bindings(
            args,
            input,
        ) == Ok::<_, BindingsErrorView>(tokens)),
        unread_in_arguments(args) is None && attribute_args(args) is Ok ==> {
            &&& unread_in(input) matches Some(literal) ==> bindings(args, input) == Err::<
                Seq<char>,
                _,
            >(BindingsErrorView::Literal(literal))
            &&& unread_in(input) is None ==> (parsed_item(input) matches Err(message) ==> bindings(
                args,
                input,
            ) == Err::<Seq<char>, _>(BindingsErrorView::Syntax(message)))
        },
{
}

/// A handler is refused for the first of these: a name that is not for a message, one of
/// the names that are made up for it and is no identifier, what is wrong with its
/// arguments or its callback, and a message that is no identifier. Otherwise its bindings
/// are those of its arguments, of the answer that its callback takes, and of its own text
/// under the name of the inner handler.
pub proof fn handlers_are_looked_at_in_order(
    n_args: nat,
    item: ItemFnView,
    inputs: Seq<FnArgView>,
    last: FnArgView,
)
    requires
        item.inputs == inputs.push(last),
    ensures
        !"handle_"@.is_prefix_of(item.ident) ==> item_bindings(n_args, item) == Err::<Seq<char>, _>(
            BindingsErrorView::Handler(HandlerError::NotAHandler),
        ),
        "handle_"@.is_prefix_of(item.ident) ==> {
            let msg = item.ident.skip("handle_"@.len() as int);
            let made = names(item.ident, msg, sha256(fingerprint(item.text)));
            let res = item_bindings(n_args, item);
            if !identifier(made.pipeline) {
                res == Err::<Seq<char>, _>(BindingsErrorView::Name(made.pipeline))
            } else if !identifier(made.return_handler) {
                res == Err::<Seq<char>, _>(BindingsErrorView::Name(made.return_handler))
            } else if !identifier(made.inner) {
                res == Err::<Seq<char>, _>(BindingsErrorView::Name(made.inner))
            } else if arguments(inputs) is Err {
                res == Err::<Seq<char>, _>(BindingsErrorView::Handler(arguments(inputs)->Err_0))
            } else if callback_type(Some(last)) is Err {
                res == Err::<Seq<char>, _>(
                    BindingsErrorView::Handler(callback_type(Some(last))->Err_0),
                )
            } else {
                let code = expansion(
                    made,
                    item.attrs,
                    arguments(inputs)->Ok_0,
                    callback_type(Some(last))->Ok_0,
                    renamed(item.definition, made.inner),
                    alloc_module(n_args),
                    extern_crate_pre(n_args),
                );
                if code is Err {
                    res == Err::<Seq<char>, _>(BindingsErrorView::Handler(code->Err_0))
                } else if !identifier(msg) {
                    res == Err::<Seq<char>, _>(BindingsErrorView::Name(msg))
                } else {
                    res == Ok::<_, BindingsErrorView>(code->Ok_0)
                }
            }
        },
{
    inputs_end_in_the_callback(inputs, last);
}

/// What the parser makes of the handler is all that its bindings depend on, besides
/// whether the attribute has arguments.
pub proof fn bindings_depend_on_the_item(
    args: Seq<char>,
    input: Seq<char>,
    other_args: Seq<char>,
    other: Seq<char>,
)
    requires
        unread_in_arguments(args) is None && unread_in_arguments(other_args) is None,
        attribute_args(args) is Ok && attribute_args(other_args) is Ok,
        unread_in(input) is None && unread_in(other) is None,
        parsed_item(input) is Ok && parsed_item(input) == parsed_item(other),
        attribute_args(args)->Ok_0 == 0 <==> attribute_args(other_args)->Ok_0 == 0,
    ensures
        bindings(args, input) == bindings(other_args, other),
{
}

/// A handler without any arguments is refused for the callback that it lacks, once its
/// names are found right.
pub proof fn handlers_without_arguments_are_refused(n_args: nat, item: ItemFnView)
    requires
        item.inputs.len() == 0,
        "handle_"@.is_prefix_of(item.ident),
    ensures
        ({
            let made = item_names(item, item.ident.skip("handle_"@.len() as int));
            identifier(made.pipeline) && identifier(made.return_handler) && identifier(made.inner)
                ==> item_bindings(n_args, item) == Err::<Seq<char>, _>(
                BindingsErrorView::Handler(HandlerError::MissingCallback),
            )
        }),
{
}

/// Every message handler whose literals are for numbers, strings, bytes and characters
/// gets bindings, whichever of them it holds.
pub proof fn handlers_of_ordinary_literals_get_bindings(
    args: Seq<char>,
    input: Seq<char>,
    item: ItemFnView,
)
    requires
        lexed(args) matches Some(tokens) ==> forall|j: int|
            0 <= j < tokens.len() && #[trigger] tokens[j] is Literal ==> !"c"@.is_prefix_of(
                tokens[j]->Literal_0,
            ) && !"("@.is_prefix_of(tokens[j]->Literal_0),
        lexed(input) matches Some(tokens) ==> forall|j: int|
            0 <= j < tokens.len() && #[trigger] tokens[j] is Literal ==> !"c"@.is_prefix_of(
                tokens[j]->Literal_0,
            ) && !"("@.is_prefix_of(tokens[j]->Literal_0),
        attribute_args(args) is Ok,
        parsed_item(input) == Ok::<_, Seq<char>>(item),
        is_handler(item),
        names_are_identifiers(item),
        8 * item.inputs.len() <= i32::MAX,
    ensures
        bindings(args, input) is Ok,
{
    arguments_without_c_strings_are_readable(args);
    texts_without_c_strings_are_readable(input);
    only_handlers_get_bindings(args, input, item);
}

} // verus!
