//! The code that takes arguments out of a message.
use vstd::prelude::*;

use crate::error::HandlerError;
use crate::syntax::{PatType, PatTypeView};
use crate::text::{
    around, clone_line, clone_lines, clone_lines_of, finish, finish_of, held_is_within, holds,
    holds_once, holds_once_within, within, within_within,
};
use crate::wire::{copied, integer, integers_are_copied, is_copied};

verus! {

/// The variable and the name of the type of an argument that is to be
/// deserialized.
pub open spec fn received(arg: PatTypeView) -> Result<(Seq<char>, Seq<char>), HandlerError> {
    match arg.pat.ident {
        None => Err(HandlerError::NonIdentifierArgument),
        Some(name) => match arg.ty.path {
            None => Err(HandlerError::NonIdentifierType),
            Some(path) => if path.len() == 0 {
                Err(HandlerError::NonIdentifierType)
            } else {
                Ok((name, path.last()))
            },
        },
    }
}

/// The variable and the name of the type of an argument that is to be
/// deserialized.
pub fn received_of(arg: &PatType) -> (res: Result<(&str, &str), HandlerError>)
    ensures
        match res {
            Ok((name, ty)) => received(arg.deep_view()) == Ok::<_, HandlerError>((name@, ty@)),
            Err(e) => received(arg.deep_view()) == Err::<(Seq<char>, Seq<char>), _>(e),
        },
{
    match &arg.pat.ident {
        None => Err(HandlerError::NonIdentifierArgument),
        Some(name) => match &arg.ty.path {
            None => Err(HandlerError::NonIdentifierType),
            Some(path) => if path.len() == 0 {
                Err(HandlerError::NonIdentifierType)
            } else {
                assert(path.deep_view().last() == path@.last()@);
                Ok((name.as_str(), path[path.len() - 1].as_str()))
            },
        },
    }
}

/// What is wrong with the first argument that cannot be deserialized.
pub open spec fn unreceived(args: Seq<PatTypeView>) -> Option<HandlerError>
    decreases args.len(),
{
    if args.len() == 0 {
        None
    } else if unreceived(args.drop_last()) is Some {
        unreceived(args.drop_last())
    } else {
        match received(args.last()) {
            Ok(_) => None,
            Err(e) => Some(e),
        }
    }
}

/// The variables to deserialize.
pub open spec fn received_names(args: Seq<PatTypeView>) -> Seq<Seq<char>> {
    args.map_values(|arg: PatTypeView| received(arg)->Ok_0.0)
}

/// Shares out a copied variable, then does `rest`.
pub open spec fn unpack_copy(name: Seq<char>, ty: Seq<char>, rest: Seq<char>) -> Seq<char> {
    "let "@ + name + " = "@ + name + " as "@ + ty + ";\nlet "@ + name
        + " = std::sync::Arc::new(std::sync::Mutex::new(Some("@ + name + ")));\n{\n"@ + rest
        + "};\n"@
}

/// Reads a variable out of its cell, byte by byte, and does `rest` when the last
/// byte has come.
pub open spec fn unpack_cell(
    name: Seq<char>,
    clones: Seq<char>,
    alloc_module: Seq<char>,
    extern_crate_pre: Seq<char>,
    rest: Seq<char>,
) -> Seq<char> {
    "let cell = "@ + name + ";\n"@ + clones + alloc_module
        + "::len(cell, Callback::new(move |len| {\nlet mut buf = std::sync::Arc::new(std::sync::Mutex::new(Vec::new()));\nlet n_done = std::sync::Arc::new(std::sync::atomic::AtomicU32::new(0));\nfor i in 0..len {\nbuf.lock().unwrap().push(0);\nlet buf = buf.clone();\nlet n_done = n_done.clone();\n"@
        + clones + alloc_module
        + "::read(cell, i, Callback::new(move |val| {\nbuf.lock().unwrap()[i as usize] = val;\nif n_done.fetch_add(1, std::sync::atomic::Ordering::SeqCst) == len - 1 {\nlet "@
        + name + " = std::sync::Arc::new(std::sync::Mutex::new(Some("@ + extern_crate_pre
        + "::serde_json::from_slice(&buf.lock().unwrap()).expect(\"Failed to deserialize input parameters.\"))));\n"@
        + rest + "}\n}));\n}\n}));\n"@
}

/// Takes out one argument, then does `rest`.
pub open spec fn unpack_step(
    arg: PatTypeView,
    clones: Seq<char>,
    alloc_module: Seq<char>,
    extern_crate_pre: Seq<char>,
    rest: Seq<char>,
) -> Seq<char> {
    let (name, ty) = received(arg)->Ok_0;
    if copied(ty) {
        unpack_copy(name, ty, rest)
    } else {
        unpack_cell(name, clones, alloc_module, extern_crate_pre, rest)
    }
}

/// Takes out the first `n` of the arguments, from the last of them to the first,
/// and then does `callback`.
pub open spec fn unpack(
    args: Seq<PatTypeView>,
    alloc_module: Seq<char>,
    extern_crate_pre: Seq<char>,
    callback: Seq<char>,
    n: int,
) -> Seq<char>
    decreases n,
{
    if n <= 0 {
        Seq::empty()
    } else {
        let names = received_names(args);
        let rest = if n == 1 {
            finish(names, callback)
        } else {
            unpack(args, alloc_module, extern_crate_pre, callback, n - 1)
        };
        unpack_step(
            args[n - 1],
            clone_lines(names.skip(n - 1)),
            alloc_module,
            extern_crate_pre,
            rest,
        )
    }
}

fn unpack_copy_of(name: &str, ty: &str, rest: &str) -> (res: String)
    ensures
        res@ == unpack_copy(name@, ty@, rest@),
{
    "let ".to_owned().concat(name).concat(" = ").concat(name).concat(" as ").concat(ty).concat(
        ";\nlet ",
    ).concat(name).concat(" = std::sync::Arc::new(std::sync::Mutex::new(Some(").concat(
        name,
    ).concat(")));\n{\n").concat(rest).concat("};\n")
}

fn unpack_cell_of(
    name: &str,
    clones: &str,
    alloc_module: &str,
    extern_crate_pre: &str,
    rest: &str,
) -> (res: String)
    ensures
        res@ == unpack_cell(name@, clones@, alloc_module@, extern_crate_pre@, rest@),
{
    "let cell = ".to_owned().concat(name).concat(";\n").concat(clones).concat(alloc_module).concat(
        "::len(cell, Callback::new(move |len| {\nlet mut buf = std::sync::Arc::new(std::sync::Mutex::new(Vec::new()));\nlet n_done = std::sync::Arc::new(std::sync::atomic::AtomicU32::new(0));\nfor i in 0..len {\nbuf.lock().unwrap().push(0);\nlet buf = buf.clone();\nlet n_done = n_done.clone();\n",
    ).concat(clones).concat(alloc_module).concat(
        "::read(cell, i, Callback::new(move |val| {\nbuf.lock().unwrap()[i as usize] = val;\nif n_done.fetch_add(1, std::sync::atomic::Ordering::SeqCst) == len - 1 {\nlet ",
    ).concat(name).concat(" = std::sync::Arc::new(std::sync::Mutex::new(Some(").concat(
        extern_crate_pre,
    ).concat(
        "::serde_json::from_slice(&buf.lock().unwrap()).expect(\"Failed to deserialize input parameters.\"))));\n",
    ).concat(rest).concat("}\n}));\n}\n}));\n")
}

/// The code that takes out the first `k` of the arguments stands inside the code
/// that takes out the later ones.
pub proof fn unpack_nests(
    args: Seq<PatTypeView>,
    alloc_module: Seq<char>,
    extern_crate_pre: Seq<char>,
    callback: Seq<char>,
    k: int,
    n: int,
)
    requires
        1 <= k <= n <= args.len(),
    ensures
        within(
            unpack(args, alloc_module, extern_crate_pre, callback, k),
            unpack(args, alloc_module, extern_crate_pre, callback, n),
        ),
    decreases n,
{
    let inner = unpack(args, alloc_module, extern_crate_pre, callback, k);
    let whole = unpack(args, alloc_module, extern_crate_pre, callback, n);
    if k == n {
        assert(whole =~= around(Seq::empty(), inner, Seq::empty()));
    } else {
        let rest = unpack(args, alloc_module, extern_crate_pre, callback, n - 1);
        let clones = clone_lines(received_names(args).skip(n - 1));
        unpack_nests(args, alloc_module, extern_crate_pre, callback, k, n - 1);
        unpack_step_holds_rest(args[n - 1], clones, alloc_module, extern_crate_pre);
        held_is_within(
            |rest: Seq<char>|
                unpack_step(args[n - 1], clones, alloc_module, extern_crate_pre, rest),
            rest,
        );
        within_within(inner, rest, whole);
    }
}

proof fn unpack_step_holds_rest(
    arg: PatTypeView,
    clones: Seq<char>,
    alloc_module: Seq<char>,
    extern_crate_pre: Seq<char>,
)
    ensures
        holds_once(
            |rest: Seq<char>| unpack_step(arg, clones, alloc_module, extern_crate_pre, rest),
        ),
{
    let step = |rest: Seq<char>| unpack_step(arg, clones, alloc_module, extern_crate_pre, rest);
    let bare = unpack_step(arg, clones, alloc_module, extern_crate_pre, Seq::empty());
    let after = if copied(received(arg)->Ok_0.1) {
        "};\n"@
    } else {
        "}\n}));\n}\n}));\n"@
    };
    let before = bare.take(bare.len() - after.len());
    assert forall|rest: Seq<char>| #[trigger] step(rest) == around(before, rest, after) by {
        assert(unpack_step(arg, clones, alloc_module, extern_crate_pre, rest) =~= around(
            before,
            rest,
            after,
        ));
    }
    assert(holds(step, before, after));
}

/// What is to be done once the arguments are taken out has one place in the code that
/// takes them out.
pub proof fn unpack_holds_callback(
    args: Seq<PatTypeView>,
    alloc_module: Seq<char>,
    extern_crate_pre: Seq<char>,
    n: int,
)
    requires
        1 <= n <= args.len(),
    ensures
        holds_once(
            |callback: Seq<char>| unpack(args, alloc_module, extern_crate_pre, callback, n),
        ),
    decreases n,
{
    let names = received_names(args);
    let clones = clone_lines(names.skip(n - 1));
    let whole = |callback: Seq<char>| unpack(args, alloc_module, extern_crate_pre, callback, n);
    let step = |rest: Seq<char>|
        unpack_step(args[n - 1], clones, alloc_module, extern_crate_pre, rest);
    unpack_step_holds_rest(args[n - 1], clones, alloc_module, extern_crate_pre);
    if n == 1 {
        let last = |callback: Seq<char>| finish(names, callback);
        let before = clone_line(names[0]) + clone_lines(names);
        assert forall|callback: Seq<char>| #[trigger]
            last(callback) == around(before, callback, Seq::empty()) by {
            assert(finish(names, callback) =~= around(before, callback, Seq::empty()));
        }
        assert(holds(last, before, Seq::empty()));
        holds_once_within(last, step, whole);
    } else {
        let rest = |callback: Seq<char>|
            unpack(args, alloc_module, extern_crate_pre, callback, n - 1);
        unpack_holds_callback(args, alloc_module, extern_crate_pre, n - 1);
        holds_once_within(rest, step, whole);
    }
}

/// Every argument can be deserialized if nothing is wrong with any of them.
pub proof fn unreceived_means_received(args: Seq<PatTypeView>)
    ensures
        unreceived(args) is None <==> forall|i: int|
            0 <= i < args.len() ==> received(#[trigger] args[i]) is Ok,
    decreases args.len(),
{
    if args.len() > 0 {
        let front = args.drop_last();
        unreceived_means_received(front);
        assert(forall|i: int| 0 <= i < front.len() ==> front[i] == args[i]);
        assert(args.last() == args[args.len() - 1]);
        if unreceived(args) is None {
            assert forall|i: int| 0 <= i < args.len() implies received(
                #[trigger] args[i],
            ) is Ok by {
                if i < front.len() {
                    assert(received(front[i]) is Ok);
                }
            }
        } else if forall|i: int| 0 <= i < args.len() ==> received(#[trigger] args[i]) is Ok {
            assert forall|i: int| 0 <= i < front.len() implies received(
                #[trigger] front[i],
            ) is Ok by {
                assert(received(args[i]) is Ok);
            }
        }
    }
}

proof fn unreceived_prefix(args: Seq<PatTypeView>, n: int)
    requires
        0 <= n <= args.len(),
        unreceived(args.take(n)) is Some,
    ensures
        unreceived(args) == unreceived(args.take(n)),
    decreases args.len(),
{
    if n < args.len() {
        assert(args.drop_last().take(n) =~= args.take(n));
        unreceived_prefix(args.drop_last(), n);
    } else {
        assert(args.take(n) =~= args);
    }
}

/// Writes the code that takes the arguments out of a message and then does
/// `callback`.
pub fn gen_der(args: &[PatType], alloc_module: &str, extern_crate_pre: &str, callback: &str) -> (res:
    Result<String, HandlerError>)
    ensures
        match res {
            Ok(code) => {
                &&& unreceived(args.deep_view()) is None
                &&& code@ == unpack(
                    args.deep_view(),
                    alloc_module@,
                    extern_crate_pre@,
                    callback@,
                    args@.len() as int,
                )
            },
            Err(e) => unreceived(args.deep_view()) == Some(e),
        },
{
    let ghost all = args.deep_view();
    let mut names: Vec<&str> = Vec::new();
    for i in 0..args.len()
        invariant
            all == args.deep_view(),
            unreceived(all.take(i as int)) is None,
            names.deep_view() == received_names(all).take(i as int),
            forall|j: int| 0 <= j < i ==> received(#[trigger] all[j]) is Ok,
    {
        assert(all[i as int] == args@[i as int].deep_view());
        assert(all.take(i + 1).drop_last() =~= all.take(i as int));
        match received_of(&args[i]) {
            Ok((name, _)) => {
                let ghost before = names.deep_view();
                names.push(name);
                assert(names.deep_view() =~= before.push(name@));
                assert(names.deep_view() =~= received_names(all).take(i + 1));
            },
            Err(e) => {
                proof {
                    unreceived_prefix(all, i + 1);
                }
                return Err(e);
            },
        }
    }
    assert(all.take(all.len() as int) =~= all);
    assert(names.deep_view() =~= received_names(all));
    let mut code = String::new();
    for i in 0..args.len()
        invariant
            all == args.deep_view(),
            forall|j: int| 0 <= j < all.len() ==> received(#[trigger] all[j]) is Ok,
            names.deep_view() == received_names(all),
            names@.len() == all.len(),
            code@ == unpack(all, alloc_module@, extern_crate_pre@, callback@, i as int),
    {
        assert(all[i as int] == args@[i as int].deep_view());
        let rest = if i == 0 {
            finish_of(&names, callback)
        } else {
            code
        };
        let (name, ty) = match received_of(&args[i]) {
            Ok(pair) => pair,
            Err(e) => return Err(e),
        };
        if is_copied(ty) {
            code = unpack_copy_of(name, ty, rest.as_str());
        } else {
            let clones = clone_lines_of(&names, i);
            code =
            unpack_cell_of(name, clones.as_str(), alloc_module, extern_crate_pre, rest.as_str());
        }
    }
    Ok(code)
}

/// Whether `unpack_copy` puts its arguments between these pieces.
pub open spec fn unpack_copy_pieces(p: Seq<Seq<char>>) -> bool {
    forall|name: Seq<char>, ty: Seq<char>, rest: Seq<char>| #[trigger]
        unpack_copy(name, ty, rest) == p[0] + name + p[1] + name + p[2] + ty + p[3] + name + p[4]
            + name + p[5] + rest + p[6]
}

/// Whether `unpack_cell` puts its arguments between these pieces.
pub open spec fn unpack_cell_pieces(p: Seq<Seq<char>>) -> bool {
    forall|
        name: Seq<char>,
        clones: Seq<char>,
        alloc: Seq<char>,
        pre: Seq<char>,
        rest: Seq<char>,
    | #[trigger]
        unpack_cell(name, clones, alloc, pre, rest) == p[0] + name + p[1] + clones + alloc + p[2]
            + clones + alloc + p[3] + name + p[4] + pre + p[5] + rest + p[6]
}

/// The code that takes out a variable is the same for all variables, types and modules,
/// but for the places where their names stand.
pub proof fn unpacking_is_uniform()
    ensures
        exists|p: Seq<Seq<char>>| unpack_copy_pieces(p),
        exists|p: Seq<Seq<char>>| unpack_cell_pieces(p),
{
    let copy = seq![
        "let "@,
        " = "@,
        " as "@,
        ";\nlet "@,
        " = std::sync::Arc::new(std::sync::Mutex::new(Some("@,
        ")));\n{\n"@,
        "};\n"@,
    ];
    assert(unpack_copy_pieces(copy));
    let cell = seq![
        "let cell = "@,
        ";\n"@,
        "::len(cell, Callback::new(move |len| {\nlet mut buf = std::sync::Arc::new(std::sync::Mutex::new(Vec::new()));\nlet n_done = std::sync::Arc::new(std::sync::atomic::AtomicU32::new(0));\nfor i in 0..len {\nbuf.lock().unwrap().push(0);\nlet buf = buf.clone();\nlet n_done = n_done.clone();\n"@,
        "::read(cell, i, Callback::new(move |val| {\nbuf.lock().unwrap()[i as usize] = val;\nif n_done.fetch_add(1, std::sync::atomic::Ordering::SeqCst) == len - 1 {\nlet "@,
        " = std::sync::Arc::new(std::sync::Mutex::new(Some("@,
        "::serde_json::from_slice(&buf.lock().unwrap()).expect(\"Failed to deserialize input parameters.\"))));\n"@,
        "}\n}));\n}\n}));\n"@,
    ];
    assert(unpack_cell_pieces(cell));
}

/// An argument can be taken out exactly if it is an identifier pattern whose type is a
/// path with a segment. It is known by its name and by the last segment, and by nothing
/// else.
pub proof fn received_by_name_and_last_segment(
    arg: PatTypeView,
    front: Seq<Seq<char>>,
    last: Seq<char>,
)
    ensures
        arg.pat.ident is None <==> received(arg) == Err::<(Seq<char>, Seq<char>), _>(
            HandlerError::NonIdentifierArgument,
        ),
        arg.pat.ident is Some && (arg.ty.path is None || arg.ty.path == Some(
            Seq::<Seq<char>>::empty(),
        )) <==> received(arg) == Err::<(Seq<char>, Seq<char>), _>(HandlerError::NonIdentifierType),
        arg.pat.ident is Some && arg.ty.path == Some(front.push(last)) ==> received(arg) == Ok::<
            _,
            HandlerError,
        >((arg.pat.ident->Some_0, last)),
{
    if arg.ty.path is Some && arg.ty.path->Some_0.len() == 0 {
        assert(arg.ty.path->Some_0 =~= Seq::empty());
    }
}

/// The first argument that cannot be taken out decides what is wrong.
pub proof fn unreceived_is_the_first(args: Seq<PatTypeView>, arg: PatTypeView)
    ensures
        unreceived(Seq::empty()) is None,
        unreceived(args) is Some ==> unreceived(args.push(arg)) == unreceived(args),
        unreceived(args) is None && received(arg) is Err ==> unreceived(args.push(arg)) == Some(
            received(arg)->Err_0,
        ),
        unreceived(args) is None && received(arg) is Ok ==> unreceived(args.push(arg)) is None,
{
    assert(args.push(arg).drop_last() =~= args);
}

/// A value whose type is an address or a copied integer is cast to that very type, and
/// then shared. A value of any other type is read out of its cell.
pub proof fn arguments_are_taken_out(
    arg: PatTypeView,
    front: Seq<Seq<char>>,
    ty: Seq<char>,
    clones: Seq<char>,
    alloc_module: Seq<char>,
    extern_crate_pre: Seq<char>,
    rest: Seq<char>,
)
    requires
        arg.pat.ident is Some,
        arg.ty.path == Some(front.push(ty)),
    ensures
        ({
            let name = arg.pat.ident->Some_0;
            let step = unpack_step(arg, clones, alloc_module, extern_crate_pre, rest);
            if ty == "Address"@ || exists|signed: bool, bits: nat|
                (bits == 8 || bits == 16 || bits == 32 || bits == 64) && ty == #[trigger] integer(
                    signed,
                    bits,
                ) {
                &&& ("let "@ + name + " = "@ + name + " as "@ + ty + ";\n"@).is_prefix_of(step)
                &&& step == unpack_copy(name, ty, rest)
            } else {
                &&& ("let cell = "@ + name + ";\n"@).is_prefix_of(step)
                &&& step == unpack_cell(name, clones, alloc_module, extern_crate_pre, rest)
            }
        }),
{
    received_by_name_and_last_segment(arg, front, ty);
    integers_are_copied(ty);
    reveal_strlit(";\nlet ");
    reveal_strlit(";\n");
    let name = arg.pat.ident->Some_0;
    let step = unpack_step(arg, clones, alloc_module, extern_crate_pre, rest);
    if copied(ty) {
        let head = "let "@ + name + " = "@ + name + " as "@ + ty;
        let line = head + ";\n"@;
        assert(";\nlet "@.take(2) =~= ";\n"@);
        assert(step.take(line.len() as int) =~= head + ";\nlet "@.take(2));
    } else {
        let line = "let cell = "@ + name + ";\n"@;
        assert(step.take(line.len() as int) =~= line);
    }
}

/// The first argument is taken out around what is to be done at the end, with every
/// variable at hand, and each other argument around those before it. What is read out
/// of a cell has the variables from its own on at hand.
pub proof fn unpack_wraps(
    args: Seq<PatTypeView>,
    alloc_module: Seq<char>,
    extern_crate_pre: Seq<char>,
    callback: Seq<char>,
    n: int,
)
    requires
        1 <= n <= args.len(),
        forall|i: int| 0 <= i < args.len() ==> received(#[trigger] args[i]) is Ok,
    ensures
        ({
            let names = args.map_values(|arg: PatTypeView| arg.pat.ident->Some_0);
            unpack(args, alloc_module, extern_crate_pre, callback, n) == unpack_step(
                args[n - 1],
                clone_lines(names.skip(n - 1)),
                alloc_module,
                extern_crate_pre,
                if n == 1 {
                    finish(names, callback)
                } else {
                    unpack(args, alloc_module, extern_crate_pre, callback, n - 1)
                },
            )
        }),
        unpack(args, alloc_module, extern_crate_pre, callback, 0) == Seq::<char>::empty(),
{
    let names = args.map_values(|arg: PatTypeView| arg.pat.ident->Some_0);
    assert forall|i: int| 0 <= i < args.len() implies received(args[i])->Ok_0.0 == #[trigger] args[i].pat.ident->Some_0 by {
        assert(received(args[i]) is Ok);
    }
    assert(received_names(args) =~= names);
}

} // verus!
