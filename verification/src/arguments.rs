//! The arguments of a message handler, and the callback that comes last.
use vstd::prelude::*;

use crate::error::HandlerError;
use crate::syntax::{FnArg, FnArgView, PatType, PatTypeView, Type, TypeView};
use crate::text::same;

verus! {

/// The arguments of a handler that come before its callback.
///
/// None of them may be `self`, and each must be a plain variable.
pub open spec fn arguments(inputs: Seq<FnArgView>) -> Result<Seq<PatTypeView>, HandlerError> {
    if exists|i: int| 0 <= i < inputs.len() && #[trigger] inputs[i] is Receiver {
        Err(HandlerError::SelfArgument)
    } else if exists|i: int|
        0 <= i < inputs.len() && (#[trigger] inputs[i])->Typed_0.pat.ident is None {
        Err(HandlerError::UnreadableArgument)
    } else {
        Ok(inputs.map_values(|arg: FnArgView| arg->Typed_0))
    }
}

/// The inputs of a handler before its callback: all but the last, if there are any.
pub open spec fn before_callback(inputs: Seq<FnArgView>) -> Seq<FnArgView> {
    if inputs.len() == 0 {
        inputs
    } else {
        inputs.drop_last()
    }
}

/// The input that has to be the callback: the last, if there are any.
pub open spec fn last_input(inputs: Seq<FnArgView>) -> Option<FnArgView> {
    if inputs.len() == 0 {
        None
    } else {
        Some(inputs.last())
    }
}

/// Takes the arguments of a handler that come before its callback.
pub fn arguments_of(inputs: Vec<FnArg>) -> (res: Result<Vec<PatType>, HandlerError>)
    ensures
        match res {
            Ok(args) => arguments(inputs.deep_view()) == Ok::<_, HandlerError>(args.deep_view()),
            Err(e) => arguments(inputs.deep_view()) == Err::<Seq<PatTypeView>, _>(e),
        },
{
    let ghost args = inputs.deep_view();
    let mut rest = inputs;
    let mut res: Vec<PatType> = Vec::new();
    let mut unreadable = false;
    assert(args.skip(0) =~= args);
    while rest.len() > 0
        invariant
            res@.len() + rest@.len() == args.len(),
            rest.deep_view() == args.skip(res@.len() as int),
            forall|i: int|
                0 <= i < res@.len() ==> #[trigger] args[i] == FnArgView::Typed(res@[i].deep_view()),
            unreadable <==> exists|i: int|
                0 <= i < res@.len() && (#[trigger] args[i])->Typed_0.pat.ident is None,
            args == inputs.deep_view(),
        decreases rest@.len(),
    {
        let ghost k = res@.len() as int;
        let ghost before = rest.deep_view();
        let arg = rest.remove(0);
        assert(before[0] == args[k]);
        assert(rest.deep_view() =~= before.skip(1));
        assert(rest.deep_view() =~= args.skip(k + 1));
        match arg {
            FnArg::Receiver => {
                assert(args[k] is Receiver);
                return Err(HandlerError::SelfArgument);
            },
            FnArg::Typed(arg) => {
                if arg.pat.ident.is_none() {
                    unreadable = true;
                }
                res.push(arg);
                assert(args[k]->Typed_0.pat.ident is None ==> unreadable);
            },
        }
    }
    if unreadable {
        return Err(HandlerError::UnreadableArgument);
    }
    assert(res.deep_view() =~= args.map_values(|arg: FnArgView| arg->Typed_0));
    Ok(res)
}

/// The type of the values that a callback takes: the last generic argument of its
/// own type, which must be named `Callback`.
pub open spec fn callback_type(input: Option<FnArgView>) -> Result<TypeView, HandlerError> {
    match input {
        Some(FnArgView::Typed(arg)) => match arg.ty.path {
            None => Err(HandlerError::MissingCallback),
            Some(path) => if path.len() == 0 {
                Err(HandlerError::MissingCallback)
            } else if path.last() != "Callback"@ {
                Err(HandlerError::NotACallback)
            } else if arg.arguments.len() == 0 {
                Err(HandlerError::MissingCallback)
            } else {
                match arg.arguments.last() {
                    None => Err(HandlerError::MissingCallback),
                    Some(list) => if list.len() == 0 {
                        Err(HandlerError::MissingCallback)
                    } else {
                        match list.last() {
                            None => Err(HandlerError::MissingCallback),
                            Some(ty) => Ok(ty),
                        }
                    },
                }
            },
        },
        _ => Err(HandlerError::MissingCallback),
    }
}

/// Takes the type of the values that a callback takes.
pub fn callback_type_of(input: Option<FnArg>) -> (res: Result<Type, HandlerError>)
    ensures
        match res {
            Ok(ty) => callback_type(input.deep_view()) == Ok::<_, HandlerError>(ty.deep_view()),
            Err(e) => callback_type(input.deep_view()) == Err::<TypeView, _>(e),
        },
{
    let arg = match input {
        Some(FnArg::Typed(arg)) => arg,
        _ => return Err(HandlerError::MissingCallback),
    };
    match &arg.ty.path {
        None => return Err(HandlerError::MissingCallback),
        Some(path) => {
            if path.len() == 0 {
                return Err(HandlerError::MissingCallback);
            }
            assert(path.deep_view().last() == path@.last()@);
            if !same(path[path.len() - 1].as_str(), "Callback") {
                return Err(HandlerError::NotACallback);
            }
        },
    }
    let ghost all = arg.arguments@;
    let mut arguments = arg.arguments;
    match arguments.pop() {
        Some(Some(list)) => {
            assert(all.last() == Some(list));
            assert(arg.arguments.deep_view().last() == Some(list.deep_view()));
            let ghost types = list@;
            let mut rest = list;
            match rest.pop() {
                Some(Some(ty)) => {
                    assert(types.last() == Some(ty));
                    assert(list.deep_view().last() == Some(ty.deep_view()));
                    Ok(ty)
                },
                Some(None) => {
                    assert(types.last() is None);
                    assert(list.deep_view().last() is None);
                    Err(HandlerError::MissingCallback)
                },
                None => Err(HandlerError::MissingCallback),
            }
        },
        Some(None) => {
            assert(all.last() is None);
            assert(arg.arguments.deep_view().last() is None);
            Err(HandlerError::MissingCallback)
        },
        None => Err(HandlerError::MissingCallback),
    }
}

/// The callback is the last input, and the arguments are those before it.
pub proof fn inputs_end_in_the_callback(inputs: Seq<FnArgView>, last: FnArgView)
    ensures
        before_callback(inputs.push(last)) == inputs,
        last_input(inputs.push(last)) == Some(last),
        before_callback(Seq::empty()) == Seq::<FnArgView>::empty(),
        last_input(Seq::empty()) is None,
{
    assert(inputs.push(last).drop_last() =~= inputs);
}

/// The arguments are the inputs, each of them an identifier pattern with a type, in
/// order. If one is `self` they are refused for that, and else if one is another pattern.
pub proof fn arguments_are_the_inputs(inputs: Seq<FnArgView>, i: int)
    requires
        0 <= i < inputs.len(),
    ensures
        inputs[i] is Receiver ==> arguments(inputs) == Err::<Seq<PatTypeView>, _>(
            HandlerError::SelfArgument,
        ),
        inputs[i] is Typed && inputs[i]->Typed_0.pat.ident is None ==> arguments(inputs) is Err,
        arguments(inputs) is Ok ==> {
            &&& arguments(inputs)->Ok_0.len() == inputs.len()
            &&& inputs[i] == FnArgView::Typed(arguments(inputs)->Ok_0[i])
        },
        (forall|j: int| 0 <= j < inputs.len() ==> #[trigger] inputs[j] is Typed) ==> arguments(
            inputs,
        ) != Err::<Seq<PatTypeView>, _>(HandlerError::SelfArgument),
        (forall|j: int|
            0 <= j < inputs.len() ==> #[trigger] inputs[j] is Typed
                && inputs[j]->Typed_0.pat.ident is Some) ==> arguments(inputs) is Ok,
        arguments(inputs) is Err ==> arguments(inputs)->Err_0 == HandlerError::SelfArgument
            || arguments(inputs)->Err_0 == HandlerError::UnreadableArgument,
        arguments(Seq::empty()) == Ok::<_, HandlerError>(Seq::<PatTypeView>::empty()),
{
    assert(Seq::<FnArgView>::empty().map_values(|arg: FnArgView| arg->Typed_0)
        =~= Seq::<PatTypeView>::empty());
}

/// A callback is typed by a path whose last segment is named `Callback`, whatever the
/// segments before it are, and takes values of the last generic argument of that
/// segment. Any other name is refused as no callback, whatever its generic arguments
/// are, and whatever else is not a callback for a type is refused as a missing one.
pub proof fn callbacks_are_named_callback(
    arg: PatTypeView,
    front: Seq<Seq<char>>,
    last: Seq<char>,
    segments: Seq<Option<Seq<Option<TypeView>>>>,
    list: Seq<Option<TypeView>>,
    ty: TypeView,
)
    ensures
        arg.ty.path == Some(front.push(last)) && last != "Callback"@ ==> callback_type(
            Some(FnArgView::Typed(arg)),
        ) == Err::<TypeView, _>(HandlerError::NotACallback),
        arg.ty.path == Some(front.push("Callback"@)) && arg.arguments == segments.push(
            Some(list.push(Some(ty))),
        ) ==> callback_type(Some(FnArgView::Typed(arg))) == Ok::<_, HandlerError>(ty),
        callback_type(Some(FnArgView::Typed(arg))) is Ok ==> {
            &&& arg.ty.path is Some
            &&& arg.ty.path->Some_0.len() > 0
            &&& arg.ty.path->Some_0.last() == "Callback"@
            &&& arg.arguments.len() > 0
            &&& arg.arguments.last() is Some
            &&& arg.arguments.last()->Some_0.len() > 0
            &&& arg.arguments.last()->Some_0.last() == Some(
                callback_type(Some(FnArgView::Typed(arg)))->Ok_0,
            )
        },
        callback_type(Some(FnArgView::Typed(arg))) == Err::<TypeView, _>(HandlerError::NotACallback)
            ==> arg.ty.path is Some && arg.ty.path->Some_0.len() > 0
            && arg.ty.path->Some_0.last() != "Callback"@,
        callback_type(Some(FnArgView::Typed(arg))) is Err ==> callback_type(
            Some(FnArgView::Typed(arg)),
        )->Err_0 == HandlerError::NotACallback || callback_type(
            Some(FnArgView::Typed(arg)),
        )->Err_0 == HandlerError::MissingCallback,
        callback_type(Some(FnArgView::Receiver)) == Err::<TypeView, _>(
            HandlerError::MissingCallback,
        ),
        callback_type(None) == Err::<TypeView, _>(HandlerError::MissingCallback),
{
}

} // verus!
