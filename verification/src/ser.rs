//! The code that packs arguments into a message.
use vstd::arithmetic::power2::{lemma2_to64, lemma2_to64_rest};
use vstd::prelude::*;

use crate::error::HandlerError;
use crate::syntax::{PatType, PatTypeView};
use crate::text::{
    around, clone_line, clone_lines, decimal, decimal_of, finish, finish_of, held_is_within, holds,
    holds_once, holds_once_within, within, within_within,
};
use crate::wire::{
    cells_take_an_address, copied, copied_values_travel_whole, fits, integer, is_copied, min_equivalent, min_equivalent_of, sent_type, sent_type_of,
    sent_types_are_last_segments, size, width,
    width_is_size, width_of,
};

verus! {

/// How many bytes of a message stand for the arguments, or why there can be no
/// message: what is wrong with the first argument that cannot be sent.
pub open spec fn message_size(args: Seq<PatTypeView>) -> Result<int, HandlerError>
    decreases args.len(),
{
    if args.len() == 0 {
        Ok(0)
    } else {
        match message_size(args.drop_last()) {
            Err(e) => Err(e),
            Ok(bytes) => match sent_type(args.last()) {
                Err(e) => Err(e),
                Ok(ty) => if bytes + width(ty) > i32::MAX {
                    Err(HandlerError::TooManyArguments)
                } else {
                    Ok(bytes + width(ty))
                },
            },
        }
    }
}

/// The variables to send, as they are written in the argument list.
pub open spec fn sent_names(args: Seq<PatTypeView>) -> Seq<Seq<char>> {
    args.map_values(|arg: PatTypeView| arg.pat.text)
}

/// The type with which an argument arrives: its own if its value is copied, or
/// the address of a cell.
pub open spec fn sent_as(arg: PatTypeView, extern_crate_pre: Seq<char>) -> Seq<char> {
    if copied(sent_type(arg)->Ok_0) {
        arg.ty.text
    } else {
        extern_crate_pre + "::vision_utils::types::Address"@
    }
}

/// Puts the bytes of a copied variable in front of the message, then goes on
/// with `rest`.
pub open spec fn pack_copy(id: Seq<char>, int_type: Seq<char>, rest: Seq<char>) -> Seq<char> {
    "let mut bytes = Vec::from(("@ + id + " as "@ + int_type + ").to_le_bytes());\nlet "@ + id
        + " = v.as_ptr() as i32 + v.len() as i32;\ndrop(&"@ + id
        + ");\nbytes.append(&mut v);\nlet mut v = bytes;\n"@ + rest
}

/// Puts the address of a new cell in front of the message, writes the variable to
/// the cell as JSON, byte by byte, and after the last byte goes on with `rest`.
pub open spec fn pack_cell(
    id: Seq<char>,
    alloc_module: Seq<char>,
    extern_crate_pre: Seq<char>,
    rest: Seq<char>,
) -> Seq<char> {
    "let v_bytes = "@ + extern_crate_pre + "::serde_json::to_vec(&"@ + id + ").unwrap();\nlet "@ + id
        + " = v.as_ptr() as i32 + v.len() as i32;\ndrop(&"@ + id + ");\n"@ + alloc_module
        + "::allocate("@ + extern_crate_pre
        + "::vision_utils::types::ALLOCATOR_ADDR, v_bytes.len() as u32, "@ + extern_crate_pre
        + "::vision_utils::types::Callback::new(move |res_buf: u32| {\nlet mut cell_addr_bytes = Vec::from(res_buf.to_le_bytes());\ncell_addr_bytes.append(&mut v);\nlet mut v = cell_addr_bytes;\nfor (i, b) in v_bytes.iter().enumerate() {\n"@
        + alloc_module + "::write(res_buf, i as u32, *b, "@ + extern_crate_pre
        + "::vision_utils::types::Callback::new(|_| {}));\n}\n"@ + rest + "}));\n"@
}

/// Packs one argument, then goes on with `rest`.
pub open spec fn pack_step(
    arg: PatTypeView,
    alloc_module: Seq<char>,
    extern_crate_pre: Seq<char>,
    rest: Seq<char>,
) -> Seq<char> {
    let ty = sent_type(arg)->Ok_0;
    if copied(ty) {
        pack_copy(arg.pat.text, min_equivalent(ty), rest)
    } else {
        pack_cell(arg.pat.text, alloc_module, extern_crate_pre, rest)
    }
}

/// Packs the first `n` of the arguments, from the last of them to the first, and
/// then does `callback`.
pub open spec fn pack(
    args: Seq<PatTypeView>,
    alloc_module: Seq<char>,
    extern_crate_pre: Seq<char>,
    callback: Seq<char>,
    n: int,
) -> Seq<char>
    decreases n,
{
    if n <= 0 {
        Seq::empty()
    } else {
        let rest = if n == 1 {
            finish(sent_names(args), callback)
        } else {
            pack(args, alloc_module, extern_crate_pre, callback, n - 1)
        };
        pack_step(args[n - 1], alloc_module, extern_crate_pre, rest)
    }
}

/// The whole of the code that packs the arguments into a buffer of `bytes` bytes.
pub open spec fn serializer(
    args: Seq<PatTypeView>,
    alloc_module: Seq<char>,
    extern_crate_pre: Seq<char>,
    callback: Seq<char>,
    bytes: nat,
) -> Seq<char> {
    "use "@ + extern_crate_pre
        + "::serde::Serialize;\nlet mut v: Vec<u8> = Vec::with_capacity("@ + decimal(bytes)
        + "i32 as usize);\nlet v_ptr = v.as_ptr() as i32;\ndrop(&v_ptr);\n"@ + pack(
        args,
        alloc_module,
        extern_crate_pre,
        callback,
        args.len() as int,
    )
}

/// Every argument of a message that has a size can be sent.
pub proof fn message_size_means_sent(args: Seq<PatTypeView>)
    requires
        message_size(args) is Ok,
    ensures
        0 <= message_size(args)->Ok_0 <= i32::MAX,
        forall|i: int| 0 <= i < args.len() ==> sent_type(#[trigger] args[i]) is Ok,
    decreases args.len(),
{
    if args.len() > 0 {
        message_size_means_sent(args.drop_last());
        assert forall|i: int| 0 <= i < args.len() implies sent_type(#[trigger] args[i]) is Ok by {
            if i < args.len() - 1 {
                assert(args.drop_last()[i] == args[i]);
            }
        }
    }
}

/// How many bytes `pack` puts in front of the message for the first `n` of the
/// arguments: those of an integer for a copied variable, those of an address for
/// any other.
pub open spec fn packed_size(args: Seq<PatTypeView>, n: int) -> nat
    decreases n,
{
    if n <= 0 {
        0
    } else {
        let ty = sent_type(args[n - 1])->Ok_0;
        packed_size(args, n - 1) + (if copied(ty) {
            size(min_equivalent(ty))
        } else {
            size("u32"@)
        })
    }
}

/// The buffer for a message has room for the bytes that are packed, and no more.
pub proof fn buffer_fits(args: Seq<PatTypeView>)
    requires
        message_size(args) is Ok,
    ensures
        message_size(args)->Ok_0 == packed_size(args, args.len() as int),
    decreases args.len(),
{
    if args.len() > 0 {
        let front = args.drop_last();
        buffer_fits(front);
        packed_size_prefix(front, args, front.len() as int);
        width_is_size(sent_type(args.last())->Ok_0);
    }
}

proof fn packed_size_prefix(front: Seq<PatTypeView>, args: Seq<PatTypeView>, n: int)
    requires
        0 <= n <= front.len() <= args.len(),
        forall|i: int| 0 <= i < n ==> front[i] == args[i],
    ensures
        packed_size(front, n) == packed_size(args, n),
    decreases n,
{
    if n > 0 {
        packed_size_prefix(front, args, n - 1);
    }
}

/// Arguments that are plain variables with paths for types can be sent, as many
/// of them as an `i32` has room to count.
pub proof fn plain_arguments_have_size(args: Seq<PatTypeView>)
    requires
        forall|i: int|
            0 <= i < args.len() ==> {
                &&& (#[trigger] args[i]).pat.ident is Some
                &&& args[i].ty.path is Some
                &&& args[i].ty.path->Some_0.len() > 0
            },
        8 * args.len() <= i32::MAX,
    ensures
        message_size(args) is Ok,
        message_size(args)->Ok_0 <= 8 * args.len(),
    decreases args.len(),
{
    if args.len() > 0 {
        let front = args.drop_last();
        assert forall|i: int| 0 <= i < front.len() implies {
            &&& (#[trigger] front[i]).pat.ident is Some
            &&& front[i].ty.path is Some
            &&& front[i].ty.path->Some_0.len() > 0
        } by {
            assert(front[i] == args[i]);
        }
        plain_arguments_have_size(front);
        assert(args.last() == args[args.len() - 1]);
    }
}

/// The code that packs the first `k` of the arguments stands inside the code that
/// packs the later ones.
pub proof fn pack_nests(
    args: Seq<PatTypeView>,
    alloc_module: Seq<char>,
    extern_crate_pre: Seq<char>,
    callback: Seq<char>,
    k: int,
    n: int,
)
    requires
        1 <= k <= n <= args.len(),
    ensures
        within(
            pack(args, alloc_module, extern_crate_pre, callback, k),
            pack(args, alloc_module, extern_crate_pre, callback, n),
        ),
    decreases n,
{
    let inner = pack(args, alloc_module, extern_crate_pre, callback, k);
    let whole = pack(args, alloc_module, extern_crate_pre, callback, n);
    if k == n {
        assert(whole =~= around(Seq::empty(), inner, Seq::empty()));
    } else {
        let rest = pack(args, alloc_module, extern_crate_pre, callback, n - 1);
        pack_nests(args, alloc_module, extern_crate_pre, callback, k, n - 1);
        pack_step_holds_rest(args[n - 1], alloc_module, extern_crate_pre);
        held_is_within(
            |rest: Seq<char>| pack_step(args[n - 1], alloc_module, extern_crate_pre, rest),
            rest,
        );
        within_within(inner, rest, whole);
    }
}

proof fn pack_step_holds_rest(
    arg: PatTypeView,
    alloc_module: Seq<char>,
    extern_crate_pre: Seq<char>,
)
    ensures
        holds_once(|rest: Seq<char>| pack_step(arg, alloc_module, extern_crate_pre, rest)),
{
    let step = |rest: Seq<char>| pack_step(arg, alloc_module, extern_crate_pre, rest);
    let bare = pack_step(arg, alloc_module, extern_crate_pre, Seq::empty());
    let after = if copied(sent_type(arg)->Ok_0) {
        Seq::empty()
    } else {
        "}));\n"@
    };
    let before = bare.take(bare.len() - after.len());
    assert forall|rest: Seq<char>| #[trigger] step(rest) == around(before, rest, after) by {
        assert(pack_step(arg, alloc_module, extern_crate_pre, rest) =~= around(
            before,
            rest,
            after,
        ));
    }
    assert(holds(step, before, after));
}

/// What is to be done once the arguments are packed has one place in the code that
/// packs them.
pub proof fn pack_holds_callback(
    args: Seq<PatTypeView>,
    alloc_module: Seq<char>,
    extern_crate_pre: Seq<char>,
    n: int,
)
    requires
        1 <= n <= args.len(),
    ensures
        holds_once(
            |callback: Seq<char>| pack(args, alloc_module, extern_crate_pre, callback, n),
        ),
    decreases n,
{
    let names = sent_names(args);
    let whole = |callback: Seq<char>| pack(args, alloc_module, extern_crate_pre, callback, n);
    let step = |rest: Seq<char>| pack_step(args[n - 1], alloc_module, extern_crate_pre, rest);
    pack_step_holds_rest(args[n - 1], alloc_module, extern_crate_pre);
    if n == 1 {
        let last = |callback: Seq<char>| finish(names, callback);
        let before = clone_line(names[0]) + clone_lines(names);
        assert forall|callback: Seq<char>| #[trigger]
            last(callback) == around(before, callback, Seq::empty()) by {
            assert(finish(names, callback) =~= around(before, callback, Seq::empty()));
        }
        assert(holds(last, before, Seq::empty()));
        holds_once_within(last, step, whole);
    } else {
        let rest = |callback: Seq<char>|
            pack(args, alloc_module, extern_crate_pre, callback, n - 1);
        pack_holds_callback(args, alloc_module, extern_crate_pre, n - 1);
        holds_once_within(rest, step, whole);
    }
}

/// What is to be done once the arguments are packed has one place in the whole of
/// the code, as long as there is an argument.
pub proof fn serializer_holds_callback(
    args: Seq<PatTypeView>,
    alloc_module: Seq<char>,
    extern_crate_pre: Seq<char>,
    bytes: nat,
)
    requires
        args.len() > 0,
    ensures
        holds_once(
            |callback: Seq<char>| serializer(args, alloc_module, extern_crate_pre, callback, bytes),
        ),
{
    let n = args.len() as int;
    let body = |callback: Seq<char>| pack(args, alloc_module, extern_crate_pre, callback, n);
    let whole = |callback: Seq<char>|
        serializer(args, alloc_module, extern_crate_pre, callback, bytes);
    let head = "use "@ + extern_crate_pre
        + "::serde::Serialize;\nlet mut v: Vec<u8> = Vec::with_capacity("@ + decimal(bytes)
        + "i32 as usize);\nlet v_ptr = v.as_ptr() as i32;\ndrop(&v_ptr);\n"@;
    let outer = |code: Seq<char>| head + code;
    assert forall|code: Seq<char>| #[trigger] outer(code) == around(head, code, Seq::empty()) by {
        assert(head + code =~= around(head, code, Seq::empty()));
    }
    assert(holds(outer, head, Seq::empty()));
    pack_holds_callback(args, alloc_module, extern_crate_pre, n);
    holds_once_within(body, outer, whole);
}

/// A message that has no size at a prefix of its arguments has none at all, for
/// the same reason.
proof fn message_size_prefix(args: Seq<PatTypeView>, n: int)
    requires
        0 <= n <= args.len(),
        message_size(args.take(n)) is Err,
    ensures
        message_size(args) == message_size(args.take(n)),
    decreases args.len(),
{
    if n < args.len() {
        assert(args.drop_last().take(n) =~= args.take(n));
        message_size_prefix(args.drop_last(), n);
    } else {
        assert(args.take(n) =~= args);
    }
}

/// Counts the bytes of a message.
pub fn message_size_of(args: &[PatType]) -> (res: Result<u32, HandlerError>)
    ensures
        match res {
            Ok(bytes) => message_size(args.deep_view()) == Ok::<int, HandlerError>(bytes as int),
            Err(e) => message_size(args.deep_view()) == Err::<int, HandlerError>(e),
        },
{
    let ghost all = args.deep_view();
    let mut bytes: u32 = 0;
    for i in 0..args.len()
        invariant
            all == args.deep_view(),
            bytes <= i32::MAX,
            message_size(all.take(i as int)) == Ok::<int, HandlerError>(bytes as int),
    {
        assert(all.take(i + 1).drop_last() =~= all.take(i as int));
        assert(all.take(i + 1).last() == args@[i as int].deep_view());
        let ty = match sent_type_of(&args[i]) {
            Ok(ty) => ty,
            Err(e) => {
                proof {
                    message_size_prefix(all, i + 1);
                }
                return Err(e);
            },
        };
        let more = width_of(ty);
        if bytes + more > i32::MAX as u32 {
            proof {
                message_size_prefix(all, i + 1);
            }
            return Err(HandlerError::TooManyArguments);
        }
        bytes = bytes + more;
    }
    assert(all.take(all.len() as int) =~= all);
    Ok(bytes)
}

fn pack_copy_of(id: &str, int_type: &str, rest: &str) -> (res: String)
    ensures
        res@ == pack_copy(id@, int_type@, rest@),
{
    "let mut bytes = Vec::from((".to_owned().concat(id).concat(" as ").concat(int_type).concat(
        ").to_le_bytes());\nlet ",
    ).concat(id).concat(" = v.as_ptr() as i32 + v.len() as i32;\ndrop(&").concat(id).concat(
        ");\nbytes.append(&mut v);\nlet mut v = bytes;\n",
    ).concat(rest)
}

fn pack_cell_of(id: &str, alloc_module: &str, extern_crate_pre: &str, rest: &str) -> (res: String)
    ensures
        res@ == pack_cell(id@, alloc_module@, extern_crate_pre@, rest@),
{
    "let v_bytes = ".to_owned().concat(extern_crate_pre).concat("::serde_json::to_vec(&").concat(
        id,
    ).concat(").unwrap();\nlet ").concat(id).concat(
        " = v.as_ptr() as i32 + v.len() as i32;\ndrop(&",
    ).concat(id).concat(");\n").concat(alloc_module).concat("::allocate(").concat(
        extern_crate_pre,
    ).concat("::vision_utils::types::ALLOCATOR_ADDR, v_bytes.len() as u32, ").concat(
        extern_crate_pre,
    ).concat(
        "::vision_utils::types::Callback::new(move |res_buf: u32| {\nlet mut cell_addr_bytes = Vec::from(res_buf.to_le_bytes());\ncell_addr_bytes.append(&mut v);\nlet mut v = cell_addr_bytes;\nfor (i, b) in v_bytes.iter().enumerate() {\n",
    ).concat(alloc_module).concat("::write(res_buf, i as u32, *b, ").concat(
        extern_crate_pre,
    ).concat("::vision_utils::types::Callback::new(|_| {}));\n}\n").concat(rest).concat("}));\n")
}

/// Writes the code that packs the arguments and then does `callback`, and gives
/// the types with which the arguments arrive.
pub fn gen_ser(args: &[PatType], alloc_module: &str, extern_crate_pre: &str, callback: &str) -> (res:
    Result<(String, Vec<String>), HandlerError>)
    ensures
        match (message_size(args.deep_view()), res) {
            (Ok(bytes), Ok((code, types))) => {
                &&& code@ == serializer(
                    args.deep_view(),
                    alloc_module@,
                    extern_crate_pre@,
                    callback@,
                    bytes as nat,
                )
                &&& types.deep_view() == args.deep_view().map_values(
                    |arg: PatTypeView| sent_as(arg, extern_crate_pre@),
                )
            },
            (Err(e), Err(error)) => e == error,
            _ => false,
        },
{
    let bytes = match message_size_of(args) {
        Ok(bytes) => bytes,
        Err(e) => return Err(e),
    };
    let ghost all = args.deep_view();
    proof {
        message_size_means_sent(all);
    }
    let mut names: Vec<&str> = Vec::new();
    for i in 0..args.len()
        invariant
            all == args.deep_view(),
            names.deep_view() == sent_names(all).take(i as int),
    {
        let ghost before = names.deep_view();
        names.push(args[i].pat.text.as_str());
        assert(names.deep_view() =~= before.push(all[i as int].pat.text));
        assert(names.deep_view() =~= sent_names(all).take(i + 1));
    }
    assert(names.deep_view() =~= sent_names(all));
    let mut types: Vec<String> = Vec::new();
    let mut code = String::new();
    for i in 0..args.len()
        invariant
            all == args.deep_view(),
            forall|j: int| 0 <= j < all.len() ==> sent_type(#[trigger] all[j]) is Ok,
            names.deep_view() == sent_names(all),
            names@.len() == all.len(),
            code@ == pack(all, alloc_module@, extern_crate_pre@, callback@, i as int),
            types@.len() == i,
            forall|j: int|
                0 <= j < i ==> (#[trigger] types@[j])@ == sent_as(all[j], extern_crate_pre@),
    {
        assert(all[i as int] == args@[i as int].deep_view());
        let arg = &args[i];
        let id = arg.pat.text.as_str();
        let rest = if i == 0 {
            finish_of(&names, callback)
        } else {
            code
        };
        let ty = match sent_type_of(arg) {
            Ok(ty) => ty,
            Err(e) => return Err(e),
        };
        if is_copied(ty) {
            types.push(arg.ty.text.clone());
            code = pack_copy_of(id, min_equivalent_of(ty), rest.as_str());
        } else {
            types.push(
                extern_crate_pre.to_owned().concat("::vision_utils::types::Address"),
            );
            code = pack_cell_of(id, alloc_module, extern_crate_pre, rest.as_str());
        }
    }
    assert(types.deep_view() =~= all.map_values(
        |arg: PatTypeView| sent_as(arg, extern_crate_pre@),
    ));
    let code = "use ".to_owned().concat(extern_crate_pre).concat(
        "::serde::Serialize;\nlet mut v: Vec<u8> = Vec::with_capacity(",
    ).concat(decimal_of(bytes).as_str()).concat(
        "i32 as usize);\nlet v_ptr = v.as_ptr() as i32;\ndrop(&v_ptr);\n",
    ).concat(code.as_str());
    Ok((code, types))
}

/// Whether `pack_copy` puts its arguments between these pieces.
pub open spec fn pack_copy_pieces(p: Seq<Seq<char>>) -> bool {
    forall|id: Seq<char>, int_type: Seq<char>, rest: Seq<char>| #[trigger]
        pack_copy(id, int_type, rest) == p[0] + id + p[1] + int_type + p[2] + id + p[3] + id + p[4]
            + rest
}

/// Whether `pack_cell` puts its arguments between these pieces.
pub open spec fn pack_cell_pieces(p: Seq<Seq<char>>) -> bool {
    forall|id: Seq<char>, alloc: Seq<char>, pre: Seq<char>, rest: Seq<char>| #[trigger]
        pack_cell(id, alloc, pre, rest) == p[0] + pre + p[1] + id + p[2] + id + p[3] + id + p[4]
            + alloc + p[5] + pre + p[6] + pre + p[7] + alloc + p[8] + pre + p[9] + rest + p[10]
}

/// The code that packs a variable is the same for all variables, types and modules,
/// but for the places where their names stand.
pub proof fn packing_is_uniform()
    ensures
        exists|p: Seq<Seq<char>>| pack_copy_pieces(p),
        exists|p: Seq<Seq<char>>| pack_cell_pieces(p),
{
    let copy = seq![
        "let mut bytes = Vec::from(("@,
        " as "@,
        ").to_le_bytes());\nlet "@,
        " = v.as_ptr() as i32 + v.len() as i32;\ndrop(&"@,
        ");\nbytes.append(&mut v);\nlet mut v = bytes;\n"@,
    ];
    assert(pack_copy_pieces(copy));
    let cell = seq![
        "let v_bytes = "@,
        "::serde_json::to_vec(&"@,
        ").unwrap();\nlet "@,
        " = v.as_ptr() as i32 + v.len() as i32;\ndrop(&"@,
        ");\n"@,
        "::allocate("@,
        "::vision_utils::types::ALLOCATOR_ADDR, v_bytes.len() as u32, "@,
        "::vision_utils::types::Callback::new(move |res_buf: u32| {\nlet mut cell_addr_bytes = Vec::from(res_buf.to_le_bytes());\ncell_addr_bytes.append(&mut v);\nlet mut v = cell_addr_bytes;\nfor (i, b) in v_bytes.iter().enumerate() {\n"@,
        "::write(res_buf, i as u32, *b, "@,
        "::vision_utils::types::Callback::new(|_| {}));\n}\n"@,
        "}));\n"@,
    ];
    assert(pack_cell_pieces(cell));
}

/// A copied integer is packed as the bytes of an integer of its own sign that holds
/// every value of its type, and the message has room for just these bytes.
pub proof fn integers_are_packed_whole(
    arg: PatTypeView,
    front: Seq<Seq<char>>,
    signed: bool,
    bits: nat,
    alloc_module: Seq<char>,
    extern_crate_pre: Seq<char>,
    rest: Seq<char>,
)
    requires
        bits == 8 || bits == 16 || bits == 32 || bits == 64,
        arg.pat.ident is Some,
        arg.ty.path == Some(front.push(integer(signed, bits))),
    ensures
        ({
            let wide: nat = if bits < 32 {
                32
            } else {
                bits
            };
            &&& ("let mut bytes = Vec::from(("@ + arg.pat.text + " as "@ + integer(signed, wide)
                + ").to_le_bytes());\n"@).is_prefix_of(
                pack_step(arg, alloc_module, extern_crate_pre, rest),
            )
            &&& pack_step(arg, alloc_module, extern_crate_pre, rest) == pack_copy(
                arg.pat.text,
                integer(signed, wide),
                rest,
            )
            &&& message_size(seq![arg]) == Ok::<int, HandlerError>(wide as int / 8)
            &&& sent_as(arg, extern_crate_pre) == arg.ty.text
            &&& forall|value: int| #[trigger] fits(value, signed, bits) ==> fits(value, signed, wide)
        }),
{
    let ty = integer(signed, bits);
    sent_types_are_last_segments(arg, front, ty);
    assert(fits(0, signed, bits)) by {
        lemma2_to64();
        lemma2_to64_rest();
    }
    copied_values_travel_whole(signed, bits, 0);
    assert forall|value: int| #[trigger] fits(value, signed, bits) implies fits(
        value,
        signed,
        8 * width(ty),
    ) by {
        copied_values_travel_whole(signed, bits, value);
    }
    one_argument_has_its_width(arg);
    packed_as(arg, alloc_module, extern_crate_pre, rest);
}

/// An address is packed as the bytes of an unsigned integer of its own size.
pub proof fn addresses_are_packed_whole(
    arg: PatTypeView,
    front: Seq<Seq<char>>,
    alloc_module: Seq<char>,
    extern_crate_pre: Seq<char>,
    rest: Seq<char>,
)
    requires
        arg.pat.ident is Some,
        arg.ty.path == Some(front.push("Address"@)),
    ensures
        ("let mut bytes = Vec::from(("@ + arg.pat.text + " as "@ + integer(
            false,
            u32::BITS as nat,
        ) + ").to_le_bytes());\n"@).is_prefix_of(
            pack_step(arg, alloc_module, extern_crate_pre, rest),
        ),
        pack_step(arg, alloc_module, extern_crate_pre, rest) == pack_copy(
            arg.pat.text,
            integer(false, u32::BITS as nat),
            rest,
        ),
        message_size(seq![arg]) == Ok::<int, HandlerError>(u32::BITS as int / 8),
        sent_as(arg, extern_crate_pre) == arg.ty.text,
{
    sent_types_are_last_segments(arg, front, "Address"@);
    assert(fits(0, false, 32)) by {
        lemma2_to64();
    }
    copied_values_travel_whole(false, 32, 0);
    one_argument_has_its_width(arg);
    packed_as(arg, alloc_module, extern_crate_pre, rest);
}

/// A value of any type but an address or one of the copied integers is written to a
/// cell as JSON, and the message has room for the address of the cell.
pub proof fn other_values_are_packed_in_cells(
    arg: PatTypeView,
    front: Seq<Seq<char>>,
    ty: Seq<char>,
    alloc_module: Seq<char>,
    extern_crate_pre: Seq<char>,
    rest: Seq<char>,
)
    requires
        arg.pat.ident is Some,
        arg.ty.path == Some(front.push(ty)),
        ty != "Address"@,
        forall|signed: bool, bits: nat|
            (bits == 8 || bits == 16 || bits == 32 || bits == 64) ==> ty != #[trigger] integer(
                signed,
                bits,
            ),
    ensures
        ("let v_bytes = "@ + extern_crate_pre + "::serde_json::to_vec(&"@ + arg.pat.text
            + ").unwrap();\n"@).is_prefix_of(
            pack_step(arg, alloc_module, extern_crate_pre, rest),
        ),
        pack_step(arg, alloc_module, extern_crate_pre, rest) == pack_cell(
            arg.pat.text,
            alloc_module,
            extern_crate_pre,
            rest,
        ),
        message_size(seq![arg]) == Ok::<int, HandlerError>(u32::BITS as int / 8),
        sent_as(arg, extern_crate_pre) == extern_crate_pre + "::vision_utils::types::Address"@,
{
    sent_types_are_last_segments(arg, front, ty);
    cells_take_an_address(ty);
    one_argument_has_its_width(arg);
    packed_as(arg, alloc_module, extern_crate_pre, rest);
}

proof fn one_argument_has_its_width(arg: PatTypeView)
    requires
        sent_type(arg) is Ok,
    ensures
        message_size(seq![arg]) == Ok::<int, HandlerError>(width(sent_type(arg)->Ok_0) as int),
{
    assert(seq![arg].drop_last() =~= Seq::empty());
    assert(message_size(seq![arg].drop_last()) == Ok::<int, HandlerError>(0));
}

proof fn packed_as(
    arg: PatTypeView,
    alloc_module: Seq<char>,
    extern_crate_pre: Seq<char>,
    rest: Seq<char>,
)
    requires
        sent_type(arg) is Ok,
    ensures
        ({
            let ty = sent_type(arg)->Ok_0;
            let step = pack_step(arg, alloc_module, extern_crate_pre, rest);
            &&& copied(ty) ==> ("let mut bytes = Vec::from(("@ + arg.pat.text + " as "@
                + min_equivalent(ty) + ").to_le_bytes());\n"@).is_prefix_of(step)
            &&& !copied(ty) ==> ("let v_bytes = "@ + extern_crate_pre + "::serde_json::to_vec(&"@
                + arg.pat.text + ").unwrap();\n"@).is_prefix_of(step)
        }),
{
    reveal_strlit(").to_le_bytes());\nlet ");
    reveal_strlit(").to_le_bytes());\n");
    reveal_strlit(").unwrap();\nlet ");
    reveal_strlit(").unwrap();\n");
    let ty = sent_type(arg)->Ok_0;
    let step = pack_step(arg, alloc_module, extern_crate_pre, rest);
    assert(").to_le_bytes());\nlet "@.take(").to_le_bytes());\n"@.len() as int)
        =~= ").to_le_bytes());\n"@);
    assert(").unwrap();\nlet "@.take(").unwrap();\n"@.len() as int) =~= ").unwrap();\n"@);
    if copied(ty) {
        let head = "let mut bytes = Vec::from(("@ + arg.pat.text + " as "@ + min_equivalent(ty);
        let line = head + ").to_le_bytes());\n"@;
        assert(step.take(line.len() as int) =~= head + ").to_le_bytes());\nlet "@.take(
            ").to_le_bytes());\n"@.len() as int,
        ));
    } else {
        let head = "let v_bytes = "@ + extern_crate_pre + "::serde_json::to_vec(&"@ + arg.pat.text;
        let line = head + ").unwrap();\n"@;
        assert(step.take(line.len() as int) =~= head + ").unwrap();\nlet "@.take(
            ").unwrap();\n"@.len() as int,
        ));
    }
}

/// A message grows by the width of each argument. The first argument that cannot be
/// sent, or for which an `i32` has no room, decides why there is no message.
pub proof fn message_size_grows(args: Seq<PatTypeView>, arg: PatTypeView)
    ensures
        message_size(Seq::empty()) == Ok::<int, HandlerError>(0),
        message_size(args) is Err ==> message_size(args.push(arg)) == message_size(args),
        message_size(args) is Ok && sent_type(arg) is Err ==> message_size(args.push(arg))
            == Err::<int, _>(sent_type(arg)->Err_0),
        message_size(args) is Ok && sent_type(arg) is Ok ==> {
            let bytes = message_size(args)->Ok_0 + width(sent_type(arg)->Ok_0);
            &&& bytes <= i32::MAX <==> message_size(args.push(arg)) == Ok::<int, HandlerError>(
                bytes,
            )
            &&& bytes > i32::MAX <==> message_size(args.push(arg)) == Err::<int, _>(
                HandlerError::TooManyArguments,
            )
        },
{
    assert(args.push(arg).drop_last() =~= args);
}

/// The first argument is packed around what is to be done at the end, with every
/// variable at hand as it is written, and each other argument around those before it.
pub proof fn pack_wraps(
    args: Seq<PatTypeView>,
    alloc_module: Seq<char>,
    extern_crate_pre: Seq<char>,
    callback: Seq<char>,
    n: int,
)
    requires
        1 <= n <= args.len(),
    ensures
        pack(args, alloc_module, extern_crate_pre, callback, n) == pack_step(
            args[n - 1],
            alloc_module,
            extern_crate_pre,
            if n == 1 {
                finish(args.map_values(|arg: PatTypeView| arg.pat.text), callback)
            } else {
                pack(args, alloc_module, extern_crate_pre, callback, n - 1)
            },
        ),
        pack(args, alloc_module, extern_crate_pre, callback, 0) == Seq::<char>::empty(),
        sent_names(args).len() == args.len(),
        sent_names(args)[n - 1] == args[n - 1].pat.text,
{
    assert(sent_names(args) =~= args.map_values(|arg: PatTypeView| arg.pat.text));
}

/// Whether `serializer` puts its arguments between these pieces.
pub open spec fn serializer_pieces(p: Seq<Seq<char>>) -> bool {
    forall|
        args: Seq<PatTypeView>,
        alloc: Seq<char>,
        pre: Seq<char>,
        callback: Seq<char>,
        bytes: nat,
    | #[trigger]
        serializer(args, alloc, pre, callback, bytes) == p[0] + pre + p[1] + decimal(bytes) + p[2]
            + pack(args, alloc, pre, callback, args.len() as int)
}

/// The code before the packing is the same for all messages, but for the path of crates
/// and the number of bytes, and all of the arguments are packed behind it.
pub proof fn serializer_is_uniform()
    ensures
        exists|p: Seq<Seq<char>>| serializer_pieces(p),
{
    let p = seq![
        "use "@,
        "::serde::Serialize;\nlet mut v: Vec<u8> = Vec::with_capacity("@,
        "i32 as usize);\nlet v_ptr = v.as_ptr() as i32;\ndrop(&v_ptr);\n"@,
    ];
    assert(serializer_pieces(p));
}

} // verus!
