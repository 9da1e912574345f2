//! Why a function cannot get message bindings.
use vstd::prelude::*;

verus! {

/// What is wrong with a function as a message handler.
#[derive(Clone, Copy, Debug, PartialEq, Eq, Structural)]
pub enum HandlerError {
    /// The name does not start with `handle_`.
    NotAHandler,
    /// One of the arguments before the callback is `self`.
    SelfArgument,
    /// The pattern of an argument is not a plain variable.
    UnreadableArgument,
    /// The last argument has another type than `Callback`.
    NotACallback,
    /// There is no last argument that is a callback for a type.
    MissingCallback,
    /// An argument to serialize is not a plain variable.
    UnnamedArgument,
    /// The type of an argument to serialize is not a path.
    UntypedArgument,
    /// The type of an argument to serialize is a path without segments.
    InvalidType,
    /// The arguments to serialize take more bytes than an `i32` can count.
    TooManyArguments,
    /// An argument to deserialize is not a plain variable.
    NonIdentifierArgument,
    /// The type of an argument to deserialize has no name.
    NonIdentifierType,
}

impl HandlerError {
    /// What to tell the author of the handler.
    pub open spec fn text(self) -> Seq<char> {
        match self {
            HandlerError::NotAHandler =>
                "Must be a message handler starting with handle_, followed by the name of the message being handled."@,
            HandlerError::SelfArgument => "Cannot use self in handler."@,
            HandlerError::UnreadableArgument => "Could not parse arguments."@,
            HandlerError::NotACallback => "callback must be a Callback<T>"@,
            HandlerError::MissingCallback => "callback must be handled via a final `cb` argument"@,
            HandlerError::UnnamedArgument => "Arguments must be named"@,
            HandlerError::UntypedArgument => "Arguments must be typed"@,
            HandlerError::InvalidType => "Invalid Type"@,
            HandlerError::TooManyArguments => "attempt to add with overflow"@,
            HandlerError::NonIdentifierArgument =>
                "Handlers may not have non-identifier arguments"@,
            HandlerError::NonIdentifierType =>
                "Handlers may not have non-identifier argument types"@,
        }
    }

    /// What to tell the author of the handler.
    pub fn message(&self) -> (res: &'static str)
        ensures
            res@ == self.text(),
    {
        match self {
            HandlerError::NotAHandler =>
                "Must be a message handler starting with handle_, followed by the name of the message being handled.",
            HandlerError::SelfArgument => "Cannot use self in handler.",
            HandlerError::UnreadableArgument => "Could not parse arguments.",
            HandlerError::NotACallback => "callback must be a Callback<T>",
            HandlerError::MissingCallback => "callback must be handled via a final `cb` argument",
            HandlerError::UnnamedArgument => "Arguments must be named",
            HandlerError::UntypedArgument => "Arguments must be typed",
            HandlerError::InvalidType => "Invalid Type",
            HandlerError::TooManyArguments => "attempt to add with overflow",
            HandlerError::NonIdentifierArgument => "Handlers may not have non-identifier arguments",
            HandlerError::NonIdentifierType =>
                "Handlers may not have non-identifier argument types",
        }
    }
}

/// Why there are no bindings for a text.
#[derive(Debug)]
pub enum BindingsError {
    /// A literal that the parser cannot read.
    Literal(String),
    /// The text is no function item, with the parser's message.
    Syntax(String),
    /// A name that would have to be an identifier and is none.
    Name(String),
    /// The function is no message handler.
    Handler(HandlerError),
}

/// The contents of a `BindingsError`.
pub enum BindingsErrorView {
    Literal(Seq<char>),
    Syntax(Seq<char>),
    Name(Seq<char>),
    Handler(HandlerError),
}

impl View for BindingsError {
    type V = BindingsErrorView;

    open spec fn view(&self) -> BindingsErrorView {
        match self {
            BindingsError::Literal(literal) => BindingsErrorView::Literal(literal@),
            BindingsError::Syntax(message) => BindingsErrorView::Syntax(message@),
            BindingsError::Name(name) => BindingsErrorView::Name(name@),
            BindingsError::Handler(e) => BindingsErrorView::Handler(*e),
        }
    }
}

impl BindingsErrorView {
    /// What to tell the author of the handler.
    pub open spec fn text(self) -> Seq<char> {
        match self {
            BindingsErrorView::Literal(literal) => "Unrecognized literal: `"@ + literal + "`"@,
            BindingsErrorView::Syntax(message) => message,
            BindingsErrorView::Name(name) => "\""@ + name + "\" is not a valid identifier"@,
            BindingsErrorView::Handler(e) => e.text(),
        }
    }
}

impl BindingsError {
    /// What to tell the author of the handler.
    pub fn message(&self) -> (res: String)
        ensures
            res@ == self@.text(),
    {
        match self {
            BindingsError::Literal(literal) => "Unrecognized literal: `".to_owned().concat(
                literal.as_str(),
            ).concat("`"),
            BindingsError::Syntax(message) => message.clone(),
            BindingsError::Name(name) => "\"".to_owned().concat(name.as_str()).concat(
                "\" is not a valid identifier",
            ),
            BindingsError::Handler(e) => e.message().to_owned(),
        }
    }
}

/// Every reason has a text of its own.
pub proof fn reasons_are_told_apart(a: HandlerError, b: HandlerError)
    requires
        a.text() == b.text(),
    ensures
        a == b,
{
    reveal_strlit(
        "Must be a message handler starting with handle_, followed by the name of the message being handled.",
    );
    reveal_strlit("Cannot use self in handler.");
    reveal_strlit("Could not parse arguments.");
    reveal_strlit("callback must be a Callback<T>");
    reveal_strlit("callback must be handled via a final `cb` argument");
    reveal_strlit("Arguments must be named");
    reveal_strlit("Arguments must be typed");
    reveal_strlit("Invalid Type");
    reveal_strlit("attempt to add with overflow");
    reveal_strlit("Handlers may not have non-identifier arguments");
    reveal_strlit("Handlers may not have non-identifier argument types");
    assert("Must be a message handler starting with handle_, followed by the name of the message being handled."@.len() == 99);
    assert("Cannot use self in handler."@.len() == 27);
    assert("Could not parse arguments."@.len() == 26);
    assert("callback must be a Callback<T>"@.len() == 30);
    assert("callback must be handled via a final `cb` argument"@.len() == 50);
    assert("Arguments must be named"@.len() == 23);
    assert("Arguments must be typed"@.len() == 23);
    assert("Invalid Type"@.len() == 12);
    assert("attempt to add with overflow"@.len() == 28);
    assert("Handlers may not have non-identifier arguments"@.len() == 46);
    assert("Handlers may not have non-identifier argument types"@.len() == 51);
    assert("Arguments must be named"@[18] == 'n' && "Arguments must be typed"@[18] == 't');
}

/// Whether these pieces stand around the literal and the name in the texts that tell of
/// them.
pub open spec fn refusal_pieces(p: Seq<Seq<char>>) -> bool {
    forall|piece: Seq<char>|
        {
            &&& #[trigger] BindingsErrorView::Literal(piece).text() == p[0] + piece + p[1]
            &&& BindingsErrorView::Name(piece).text() == p[2] + piece + p[3]
        }
}

/// A refusal tells of its literal or its name as it is, always in the same words, and
/// hands on what the parser says and what is wrong with the handler.
pub proof fn refusals_are_told_as_they_are(message: Seq<char>, e: HandlerError)
    ensures
        BindingsErrorView::Syntax(message).text() == message,
        BindingsErrorView::Handler(e).text() == e.text(),
        exists|p: Seq<Seq<char>>| refusal_pieces(p),
{
    let p = seq!["Unrecognized literal: `"@, "`"@, "\""@, "\" is not a valid identifier"@];
    assert(refusal_pieces(p));
}

} // verus!
