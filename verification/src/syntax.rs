//! What a message handler looks like in source, as plain text and lists of text.
use proc_macro2::Ident;
use quote::ToTokens;
use syn::ext::IdentExt;
use syn::parse::Parser;
use syn::parse_str;
use syn::punctuated::Punctuated;
use syn::token::Comma;
use syn::FnArg::Typed;
use syn::GenericArgument::Type as TypeArgument;
use syn::ItemFn as Function;
use syn::NestedMeta;
use syn::PathArguments::AngleBracketed;
use syn::Type::Path;
use vstd::prelude::*;

use crate::attribute::unread_in_arguments;
use crate::literals::readable;

verus! {

/// A type: its text, and the names of its segments where it is a path.
pub struct Type {
    pub text: String,
    pub path: Option<Vec<String>>,
}

/// The contents of a `Type`.
pub struct TypeView {
    pub text: Seq<char>,
    pub path: Option<Seq<Seq<char>>>,
}

impl DeepView for Type {
    type V = TypeView;

    open spec fn deep_view(&self) -> TypeView {
        TypeView { text: self.text@, path: self.path.deep_view() }
    }
}

/// A pattern: its text, and its name where it is an identifier pattern, such as `x`,
/// `mut x` or `x @ Some(y)`.
pub struct Pat {
    pub text: String,
    pub ident: Option<String>,
}

/// The contents of a `Pat`.
pub struct PatView {
    pub text: Seq<char>,
    pub ident: Option<Seq<char>>,
}

impl DeepView for Pat {
    type V = PatView;

    open spec fn deep_view(&self) -> PatView {
        PatView { text: self.text@, ident: self.ident.deep_view() }
    }
}

/// An argument with its attributes, pattern and type.
///
/// Where the type is a path, each of its segments has an entry in `arguments`: its
/// generic arguments if it has a list of them in angle brackets, and of those the
/// ones that are types.
pub struct PatType {
    pub attrs: Vec<String>,
    pub pat: Pat,
    pub ty: Type,
    pub arguments: Vec<Option<Vec<Option<Type>>>>,
}

/// The contents of a `PatType`.
pub struct PatTypeView {
    pub attrs: Seq<Seq<char>>,
    pub pat: PatView,
    pub ty: TypeView,
    pub arguments: Seq<Option<Seq<Option<TypeView>>>>,
}

impl DeepView for PatType {
    type V = PatTypeView;

    open spec fn deep_view(&self) -> PatTypeView {
        PatTypeView {
            attrs: self.attrs.deep_view(),
            pat: self.pat.deep_view(),
            ty: self.ty.deep_view(),
            arguments: self.arguments.deep_view(),
        }
    }
}

/// An argument of a function: `self` in one of its short forms, or a pattern
/// with a type.
pub enum FnArg {
    Receiver,
    Typed(PatType),
}

/// The contents of a `FnArg`.
pub enum FnArgView {
    Receiver,
    Typed(PatTypeView),
}

impl DeepView for FnArg {
    type V = FnArgView;

    open spec fn deep_view(&self) -> FnArgView {
        match self {
            FnArg::Receiver => FnArgView::Receiver,
            FnArg::Typed(arg) => FnArgView::Typed(arg.deep_view()),
        }
    }
}

/// The text of each part of a function item but its attributes and its name. A part
/// that the item lacks is empty.
pub struct Definition {
    pub vis: String,
    pub constness: String,
    pub asyncness: String,
    pub unsafety: String,
    pub abi: String,
    pub generics: String,
    pub inputs: String,
    pub variadic: String,
    pub output: String,
    pub where_clause: String,
    pub block: String,
}

/// The contents of a `Definition`.
pub struct DefinitionView {
    pub vis: Seq<char>,
    pub constness: Seq<char>,
    pub asyncness: Seq<char>,
    pub unsafety: Seq<char>,
    pub abi: Seq<char>,
    pub generics: Seq<char>,
    pub inputs: Seq<char>,
    pub variadic: Seq<char>,
    pub output: Seq<char>,
    pub where_clause: Seq<char>,
    pub block: Seq<char>,
}

impl DeepView for Definition {
    type V = DefinitionView;

    open spec fn deep_view(&self) -> DefinitionView {
        DefinitionView {
            vis: self.vis@,
            constness: self.constness@,
            asyncness: self.asyncness@,
            unsafety: self.unsafety@,
            abi: self.abi@,
            generics: self.generics@,
            inputs: self.inputs@,
            variadic: self.variadic@,
            output: self.output@,
            where_clause: self.where_clause@,
            block: self.block@,
        }
    }
}

/// A function item: its name, its whole text, its attributes, its arguments, and
/// the text of its other parts.
pub struct ItemFn {
    pub ident: String,
    pub text: String,
    pub attrs: Vec<String>,
    pub inputs: Vec<FnArg>,
    pub definition: Definition,
}

/// The contents of an `ItemFn`.
pub struct ItemFnView {
    pub ident: Seq<char>,
    pub text: Seq<char>,
    pub attrs: Seq<Seq<char>>,
    pub inputs: Seq<FnArgView>,
    pub definition: DefinitionView,
}

impl DeepView for ItemFn {
    type V = ItemFnView;

    open spec fn deep_view(&self) -> ItemFnView {
        ItemFnView {
            ident: self.ident@,
            text: self.text@,
            attrs: self.attrs.deep_view(),
            inputs: self.inputs.deep_view(),
            definition: self.definition.deep_view(),
        }
    }
}

/// What `syn::parse_str::<syn::ItemFn>` makes of a text: the function item, each
/// part of it printed back to text, or the message of its error.
pub uninterp spec fn parsed_item(text: Seq<char>) -> Result<ItemFnView, Seq<char>>;

/// Whether `syn::ext::IdentExt::parse_any` reads the whole of a text as one identifier.
pub uninterp spec fn identifier(text: Seq<char>) -> bool;

/// What `syn` makes of the arguments of an attribute: how many there are, or the
/// invocation of `compile_error!` that stands for its error.
pub uninterp spec fn attribute_args(text: Seq<char>) -> Result<nat, Seq<char>>;

/// The attributes and the pattern of an argument.
spec fn pattern_in(arg: FnArgView) -> Option<(Seq<Seq<char>>, PatView)> {
    match arg {
        FnArgView::Receiver => None,
        FnArgView::Typed(arg) => Some((arg.attrs, arg.pat)),
    }
}

/// The type of an argument.
spec fn type_in(arg: FnArgView) -> Option<TypeView> {
    match arg {
        FnArgView::Receiver => None,
        FnArgView::Typed(arg) => Some(arg.ty),
    }
}

/// The generic arguments of the type of an argument.
spec fn arguments_in(arg: FnArgView) -> Seq<Option<Seq<Option<TypeView>>>> {
    match arg {
        FnArgView::Receiver => Seq::empty(),
        FnArgView::Typed(arg) => arg.arguments,
    }
}

/// `syn::parse_str::<syn::ItemFn>`: the name of the item, and its text and its
/// attributes as `quote::ToTokens` prints them, or the error's message.
#[verifier::external_body]
fn parse_item(text: &str) -> (res: Result<(String, String, Vec<String>), String>)
    requires
        readable(text@),
    ensures
        match res {
            Ok(item) => parsed_item(text@) matches Ok(parsed) && item.0@ == parsed.ident && item.1@
                == parsed.text && item.2.deep_view() == parsed.attrs,
            Err(message) => parsed_item(text@) == Err::<ItemFnView, Seq<char>>(message@),
        },
{
    let item: Function = parse_str(text).map_err(|e: syn::Error| e.to_string())?;
    Ok(
        (
            item.sig.ident.to_string(),
            item.to_token_stream().to_string(),
            item.attrs.iter().map(|attr| attr.to_token_stream().to_string()).collect(),
        ),
    )
}

/// `syn::parse_str::<syn::ItemFn>`: the parts of the item but its attributes and its
/// name, as `quote::ToTokens` prints each of them.
#[verifier::external_body]
fn parse_definition(text: &str) -> (res: Definition)
    requires
        readable(text@),
        parsed_item(text@) is Ok,
    ensures
        res.deep_view() == parsed_item(text@)->Ok_0.definition,
{
    let Function { vis, sig, block, .. } = parse_str(text).unwrap();
    let print = |part: &dyn ToTokens| part.to_token_stream().to_string();
    Definition {
        vis: print(&vis),
        constness: print(&sig.constness), asyncness: print(&sig.asyncness),
        unsafety: print(&sig.unsafety), abi: print(&sig.abi),
        generics: print(&sig.generics),
        inputs: print(&sig.inputs), variadic: print(&sig.variadic),
        output: print(&sig.output),
        where_clause: print(&sig.generics.where_clause),
        block: print(&block),
    }
}

/// `syn::parse_str::<syn::ItemFn>`: the attributes and the patterns of the item's
/// arguments, in order, as `quote::ToTokens` prints them.
#[verifier::external_body]
fn parse_patterns(text: &str) -> (res: Vec<Option<(Vec<String>, Pat)>>)
    requires
        readable(text@),
        parsed_item(text@) is Ok,
    ensures
        res.deep_view() == parsed_item(text@)->Ok_0.inputs.map_values(
            |arg: FnArgView| pattern_in(arg),
        ),
{
    let item: Function = parse_str(text).unwrap();
    item.sig.inputs.iter().map(|arg| match arg {
        syn::FnArg::Receiver(_) => None,
        Typed(arg) => Some((
            arg.attrs.iter().map(|attr| attr.to_token_stream().to_string()).collect(),
            Pat {
                text: arg.pat.to_token_stream().to_string(),
                ident: match &*arg.pat {
                    syn::Pat::Ident(pat) => Some(pat.ident.to_string()),
                    _ => None,
                },
            },
        )),
    }).collect()
}

/// `syn::parse_str::<syn::ItemFn>`: the types of the item's arguments, in order, as
/// `quote::ToTokens` prints them.
#[verifier::external_body]
fn parse_types(text: &str) -> (res: Vec<Option<Type>>)
    requires
        readable(text@),
        parsed_item(text@) is Ok,
    ensures
        res.deep_view() == parsed_item(text@)->Ok_0.inputs.map_values(
            |arg: FnArgView| type_in(arg),
        ),
{
    let item: Function = parse_str(text).unwrap();
    item.sig.inputs.iter().map(|arg| match arg {
        syn::FnArg::Receiver(_) => None,
        Typed(arg) => Some(Type {
            text: arg.ty.to_token_stream().to_string(),
            path: match &*arg.ty {
                Path(ty) => Some(ty.path.segments.iter().map(|s| s.ident.to_string()).collect()),
                _ => None,
            },
        }),
    }).collect()
}

/// `syn::parse_str::<syn::ItemFn>`: the generic arguments of the types of the item's
/// arguments, in order, with those that are types as `quote::ToTokens` prints them.
#[verifier::external_body]
fn parse_arguments(text: &str) -> (res: Vec<Vec<Option<Vec<Option<Type>>>>>)
    requires
        readable(text@),
        parsed_item(text@) is Ok,
    ensures
        res.deep_view() == parsed_item(text@)->Ok_0.inputs.map_values(
            |arg: FnArgView| arguments_in(arg),
        ),
{
    parse_str::<Function>(text).unwrap().sig.inputs.iter().map(|arg| match arg {
        Typed(arg) => match &*arg.ty {
            Path(ty) => ty.path.segments.iter().map(|s| match &s.arguments {
                AngleBracketed(list) => Some(list.args.iter().map(|g| match g {
                    TypeArgument(ty) => Some(Type {
                        text: ty.to_token_stream().to_string(),
                        path: match ty { Path(ty) => Some(ty.path.segments.iter().map(|s| s.ident.to_string()).collect()), _ => None }
                    }),
                    _ => None
                }).collect()),
                _ => None
            }).collect(),
            _ => vec![]
        },
        _ => vec![] }).collect()
}

/// `syn::ext::IdentExt::parse_any`: whether it reads the text as an identifier,
/// keywords among them.
#[verifier::external_body]
pub(crate) fn is_identifier(text: &str) -> (res: bool)
    ensures
        res == identifier(text@),
{
    Ident::parse_any.parse_str(text).is_ok()
}

/// `syn::punctuated::Punctuated::parse_terminated`: counts the arguments of an
/// attribute, or gives the error as an invocation of `compile_error!`.
#[verifier::external_body]
pub(crate) fn parse_attribute_args(text: &str) -> (res: Result<usize, String>)
    requires
        unread_in_arguments(text@) is None,
    ensures
        match res {
            Ok(n) => attribute_args(text@) == Ok::<nat, Seq<char>>(n as nat),
            Err(tokens) => attribute_args(text@) == Err::<nat, Seq<char>>(tokens@),
        },
{
    match Punctuated::<NestedMeta, Comma>::parse_terminated.parse_str(text) {
        Ok(args) => Ok(args.len()),
        Err(error) => Err(error.to_compile_error().to_string()),
    }
}

/// The item with this definition under the name `name`, without attributes.
pub open spec fn renamed(item: DefinitionView, name: Seq<char>) -> Seq<char> {
    item.vis + " "@ + item.constness + " "@ + item.asyncness + " "@ + item.unsafety + " "@
        + item.abi + " fn "@ + name + " "@ + item.generics + "("@ + item.inputs + " "@
        + item.variadic + ") "@ + item.output + " "@ + item.where_clause + " "@ + item.block
}

/// Writes the item with this definition under the name `name`, without attributes.
pub fn renamed_of(item: &Definition, name: &str) -> (res: String)
    ensures
        res@ == renamed(item.deep_view(), name@),
{
    item.vis.clone().concat(" ").concat(item.constness.as_str()).concat(" ").concat(
        item.asyncness.as_str(),
    ).concat(" ").concat(item.unsafety.as_str()).concat(" ").concat(item.abi.as_str()).concat(
        " fn ",
    ).concat(name).concat(" ").concat(item.generics.as_str()).concat("(").concat(
        item.inputs.as_str(),
    ).concat(" ").concat(item.variadic.as_str()).concat(") ").concat(item.output.as_str()).concat(
        " ",
    ).concat(item.where_clause.as_str()).concat(" ").concat(item.block.as_str())
}

impl ItemFn {
    /// Reads a function item, or says what is wrong with the text.
    pub fn parse(text: &str) -> (res: Result<ItemFn, String>)
        requires
            readable(text@),
        ensures
            match res {
                Ok(item) => parsed_item(text@) == Ok::<ItemFnView, Seq<char>>(item.deep_view()),
                Err(message) => parsed_item(text@) == Err::<ItemFnView, Seq<char>>(message@),
            },
    {
        let (ident, printed, attrs) = match parse_item(text) {
            Ok(parts) => parts,
            Err(message) => return Err(message),
        };
        let ghost parsed = parsed_item(text@)->Ok_0;
        let definition = parse_definition(text);
        let mut patterns = parse_patterns(text);
        let mut types = parse_types(text);
        let mut arguments = parse_arguments(text);
        let ghost all = (patterns@, types@, arguments@);
        let mut inputs: Vec<FnArg> = Vec::new();
        assert(patterns.deep_view().len() == all.0.len());
        assert(types.deep_view().len() == all.1.len());
        assert(arguments.deep_view().len() == all.2.len());
        assert forall|i: int| 0 <= i < parsed.inputs.len() implies {
            &&& all.0[i].deep_view() == pattern_in(#[trigger] parsed.inputs[i])
            &&& all.1[i].deep_view() == type_in(parsed.inputs[i])
            &&& all.2[i].deep_view() == arguments_in(parsed.inputs[i])
        } by {
            assert(patterns.deep_view()[i] == all.0[i].deep_view());
            assert(types.deep_view()[i] == all.1[i].deep_view());
            assert(arguments.deep_view()[i] == all.2[i].deep_view());
        }
        while patterns.len() > 0
            invariant
                inputs@.len() + patterns@.len() == parsed.inputs.len(),
                all.0.len() == parsed.inputs.len(),
                all.1.len() == parsed.inputs.len(),
                all.2.len() == parsed.inputs.len(),
                patterns@ == all.0.skip(inputs@.len() as int),
                types@ == all.1.skip(inputs@.len() as int),
                arguments@ == all.2.skip(inputs@.len() as int),
                forall|i: int|
                    0 <= i < parsed.inputs.len() ==> {
                        &&& all.0[i].deep_view() == pattern_in(#[trigger] parsed.inputs[i])
                        &&& all.1[i].deep_view() == type_in(parsed.inputs[i])
                        &&& all.2[i].deep_view() == arguments_in(parsed.inputs[i])
                    },
                forall|i: int|
                    0 <= i < inputs@.len() ==> inputs@[i].deep_view() == #[trigger] parsed.inputs[i],
            decreases patterns@.len(),
        {
            let ghost k = inputs@.len() as int;
            let pattern = patterns.remove(0);
            let ty = types.remove(0);
            let arguments = arguments.remove(0);
            assert(pattern == all.0[k] && ty == all.1[k] && arguments == all.2[k]);
            assert(pattern.deep_view() == pattern_in(parsed.inputs[k]));
            inputs.push(
                match (pattern, ty) {
                    (Some((attrs, pat)), Some(ty)) => FnArg::Typed(
                        PatType { attrs, pat, ty, arguments },
                    ),
                    _ => FnArg::Receiver,
                },
            );
        }
        assert(inputs.deep_view() =~= parsed.inputs);
        Ok(ItemFn { ident, text: printed, attrs, inputs, definition })
    }
}

/// Whether `renamed` puts the parts of an item and its name between these pieces.
pub open spec fn renamed_pieces(p: Seq<Seq<char>>) -> bool {
    forall|item: DefinitionView, name: Seq<char>| #[trigger]
        renamed(item, name) == item.vis + p[0] + item.constness + p[1] + item.asyncness + p[2]
            + item.unsafety + p[3] + item.abi + p[4] + name + p[5] + item.generics + p[6]
            + item.inputs + p[7] + item.variadic + p[8] + item.output + p[9] + item.where_clause
            + p[10] + item.block
}

/// An item under another name keeps each of its parts, in the order in which they are
/// written, and nothing between them depends on what they are.
pub proof fn renaming_keeps_the_parts()
    ensures
        exists|p: Seq<Seq<char>>| renamed_pieces(p),
{
    let p = seq![" "@, " "@, " "@, " "@, " fn "@, " "@, "("@, " "@, ") "@, " "@, " "@];
    assert(renamed_pieces(p));
}

} // verus!
