//! Literals that cannot be read where code is read.
//!
//! The parser knows no literals for C strings, nor the mark that the lexer reads as
//! a literal where a token went wrong, and gives up at the first of them. What
//! stands between the brackets of an attribute, of a macro's invocation or of a
//! macro's definition is not read, so there they do no harm.
use proc_macro2::Delimiter::{Brace, Bracket, Parenthesis};
use proc_macro2::Spacing::Joint;
use proc_macro2::TokenStream;
use proc_macro2::TokenTree::{Group, Ident, Literal, Punct};
use vstd::prelude::*;

use crate::text::same;

verus! {

/// A token; the tokens of a group stand between its two brackets. An opening bracket
/// is known by its character, and of a punctuation character it is known whether
/// another one is joined to it.
pub enum Token {
    Open(char),
    Close,
    Ident(String),
    Punct(char, bool),
    Literal(String),
}

/// The contents of a `Token`.
pub enum TokenView {
    Open(char),
    Close,
    Ident(Seq<char>),
    Punct(char, bool),
    Literal(Seq<char>),
}

impl DeepView for Token {
    type V = TokenView;

    open spec fn deep_view(&self) -> TokenView {
        match self {
            Token::Open(bracket) => TokenView::Open(*bracket),
            Token::Close => TokenView::Close,
            Token::Ident(name) => TokenView::Ident(name@),
            Token::Punct(c, joint) => TokenView::Punct(*c, *joint),
            Token::Literal(text) => TokenView::Literal(text@),
        }
    }
}

/// The tokens that `proc_macro2::TokenStream::from_str` reads in a text, with a
/// closing bracket behind the last of them, or `None` where it reads none.
pub uninterp spec fn lexed(text: Seq<char>) -> Option<Seq<TokenView>>;

/// `proc_macro2::TokenStream::from_str`: the tokens of the text in order, where it
/// is made of tokens, each group as its brackets with its own tokens between them.
#[verifier::external_body]
pub(crate) fn lex(text: &str) -> (res: Option<Vec<Token>>)
    ensures
        res.deep_view() == lexed(text@),
{
    let mut levels = vec![text.parse::<TokenStream>().ok()?.into_iter()];
    let mut tokens = vec![];
    while let Some(level) = levels.last_mut() {
        tokens.push(match level.next() {
            None => { levels.pop(); Token::Close }
            Some(Group(group)) => {
                levels.push(group.stream().into_iter());
                Token::Open(match group.delimiter() { Parenthesis => '(', Brace => '{', Bracket => '[', _ => ' ' })
            }
            Some(Ident(name)) => Token::Ident(name.to_string()),
            Some(Punct(punct)) => Token::Punct(punct.as_char(), matches!(punct.spacing(), Joint)),
            Some(Literal(literal)) => Token::Literal(literal.to_string())
        });
    }
    Some(tokens)
}

/// Whether the parser takes a word for a keyword that begins no path, so that a `!`
/// behind it is no part of a macro's invocation.
pub open spec fn reserved(word: Seq<char>) -> bool {
    ||| word == "abstract"@
    ||| word == "as"@
    ||| word == "become"@
    ||| word == "box"@
    ||| word == "break"@
    ||| word == "const"@
    ||| word == "continue"@
    ||| word == "do"@
    ||| word == "else"@
    ||| word == "enum"@
    ||| word == "extern"@
    ||| word == "false"@
    ||| word == "final"@
    ||| word == "fn"@
    ||| word == "for"@
    ||| word == "if"@
    ||| word == "impl"@
    ||| word == "in"@
    ||| word == "let"@
    ||| word == "loop"@
    ||| word == "macro"@
    ||| word == "match"@
    ||| word == "mod"@
    ||| word == "move"@
    ||| word == "mut"@
    ||| word == "override"@
    ||| word == "priv"@
    ||| word == "pub"@
    ||| word == "ref"@
    ||| word == "return"@
    ||| word == "static"@
    ||| word == "struct"@
    ||| word == "trait"@
    ||| word == "true"@
    ||| word == "type"@
    ||| word == "typeof"@
    ||| word == "unsafe"@
    ||| word == "unsized"@
    ||| word == "use"@
    ||| word == "virtual"@
    ||| word == "where"@
    ||| word == "while"@
    ||| word == "yield"@
}

/// Whether the parser takes a word for a keyword that begins no path.
pub fn is_reserved(word: &str) -> (res: bool)
    ensures
        res == reserved(word@),
{
    same(word, "abstract") || same(word, "as") || same(word, "become") || same(word, "box")
        || same(word, "break") || same(word, "const") || same(word, "continue")
        || same(word, "do") || same(word, "else") || same(word, "enum") || same(word, "extern")
        || same(word, "false") || same(word, "final") || same(word, "fn") || same(word, "for")
        || same(word, "if") || same(word, "impl") || same(word, "in") || same(word, "let")
        || same(word, "loop") || same(word, "macro") || same(word, "match") || same(word, "mod")
        || same(word, "move") || same(word, "mut") || same(word, "override")
        || same(word, "priv") || same(word, "pub") || same(word, "ref") || same(word, "return")
        || same(word, "static") || same(word, "struct") || same(word, "trait")
        || same(word, "true") || same(word, "type") || same(word, "typeof")
        || same(word, "unsafe") || same(word, "unsized") || same(word, "use")
        || same(word, "virtual") || same(word, "where") || same(word, "while")
        || same(word, "yield")
}

/// Whether the token at `i` is the punctuation character `c`.
pub open spec fn punct_at(tokens: Seq<TokenView>, i: int, c: char) -> bool {
    0 <= i < tokens.len() && tokens[i] is Punct && tokens[i]->Punct_0 == c
}

/// Whether the token at `i` is the end of a path that can name a macro: an
/// identifier that is neither reserved nor the name of a lifetime.
pub open spec fn path_at(tokens: Seq<TokenView>, i: int) -> bool {
    &&& 0 <= i < tokens.len()
    &&& tokens[i] matches TokenView::Ident(name) && !reserved(name)
    &&& !punct_at(tokens, i - 1, '\'')
}

/// Whether the word `macro` and a name stand before `i`, so that a group there begins
/// the definition of a macro. As the name of a lifetime `macro` is no such word.
pub open spec fn macro_named_at(tokens: Seq<TokenView>, i: int) -> bool {
    &&& path_at(tokens, i - 1)
    &&& i >= 2 && tokens[i - 2] == TokenView::Ident("macro"@)
    &&& !punct_at(tokens, i - 3, '\'')
}

/// Where the group was opened that is still open behind the first `n` tokens, once
/// `closed` groups that end there are left out; -1 if there is none.
pub open spec fn opening(tokens: Seq<TokenView>, n: int, closed: nat) -> int
    decreases n,
{
    if n <= 0 {
        -1
    } else {
        match tokens[n - 1] {
            TokenView::Close => opening(tokens, n - 1, closed + 1),
            TokenView::Open(_) => if closed == 0 {
                n - 1
            } else {
                opening(tokens, n - 1, (closed - 1) as nat)
            },
            _ => opening(tokens, n - 1, closed),
        }
    }
}

/// Whether the group that is opened at `i` belongs to a `macro` item: its rules, or
/// its arguments in round brackets, or its body behind them.
pub open spec fn macro_item_at(tokens: Seq<TokenView>, i: int) -> bool {
    ||| macro_named_at(tokens, i)
    ||| i >= 1 && tokens[i - 1] is Close && {
        let j = opening(tokens, i - 1, 0);
        j >= 0 && tokens[j] == TokenView::Open('(') && macro_named_at(tokens, j)
    }
}

/// Whether the group that is opened at `i` belongs to an attribute, to a macro's
/// invocation, or to the definition of one.
pub open spec fn unparsed_at(tokens: Seq<TokenView>, i: int) -> bool {
    ||| punct_at(tokens, i - 1, '#')
    ||| punct_at(tokens, i - 2, '#') && punct_at(tokens, i - 1, '!')
    ||| path_at(tokens, i - 2) && punct_at(tokens, i - 1, '!')
    ||| path_at(tokens, i - 3) && punct_at(tokens, i - 2, '!') && i >= 1 && tokens[i - 1] is Ident
    ||| macro_item_at(tokens, i)
}

/// How many groups are open behind the first `n` tokens, from the outermost one
/// that is not parsed on.
pub open spec fn unparsed(tokens: Seq<TokenView>, n: int) -> nat
    decreases n,
{
    if n <= 0 {
        0
    } else {
        let before = unparsed(tokens, n - 1);
        match tokens[n - 1] {
            TokenView::Open(_) => if before > 0 || unparsed_at(tokens, n - 1) {
                before + 1
            } else {
                0
            },
            TokenView::Close => if before > 0 {
                (before - 1) as nat
            } else {
                0
            },
            _ => before,
        }
    }
}

/// Whether a literal is one for a C string or the mark of a wrong token.
pub open spec fn unread(literal: Seq<char>) -> bool {
    literal.len() > 0 && (literal[0] == 'c' || literal[0] == '(')
}

/// The first of the first `n` tokens that is parsed and cannot be read.
pub open spec fn unread_literal(tokens: Seq<TokenView>, n: int) -> Option<Seq<char>>
    decreases n,
{
    if n <= 0 {
        None
    } else if unread_literal(tokens, n - 1) is Some {
        unread_literal(tokens, n - 1)
    } else {
        match tokens[n - 1] {
            TokenView::Literal(literal) if unparsed(tokens, n - 1) == 0 && unread(literal) => Some(
                literal,
            ),
            _ => None,
        }
    }
}

/// The first literal in a text that is parsed and cannot be read.
pub open spec fn unread_in(text: Seq<char>) -> Option<Seq<char>> {
    match lexed(text) {
        None => None,
        Some(tokens) => unread_literal(tokens, tokens.len() as int),
    }
}

/// Whether a text can be handed to the parser.
pub open spec fn readable(text: Seq<char>) -> bool {
    unread_in(text) is None
}

fn is_punct_at(tokens: &Vec<Token>, i: usize, c: char) -> (res: bool)
    requires
        i < tokens@.len(),
    ensures
        res == punct_at(tokens.deep_view(), i as int, c),
{
    assert(tokens.deep_view()[i as int] == tokens@[i as int].deep_view());
    match &tokens[i] {
        Token::Punct(found, _) => *found == c,
        _ => false,
    }
}

fn is_path_at(tokens: &Vec<Token>, i: usize) -> (res: bool)
    requires
        i < tokens@.len(),
    ensures
        res == path_at(tokens.deep_view(), i as int),
{
    assert(tokens.deep_view()[i as int] == tokens@[i as int].deep_view());
    match &tokens[i] {
        Token::Ident(name) => !is_reserved(name.as_str()) && !(i >= 1 && is_punct_at(
            tokens,
            i - 1,
            '\'',
        )),
        _ => false,
    }
}

fn is_macro_named_at(tokens: &Vec<Token>, i: usize) -> (res: bool)
    requires
        i < tokens@.len(),
    ensures
        res == macro_named_at(tokens.deep_view(), i as int),
{
    if i < 2 {
        return false;
    }
    assert(tokens.deep_view()[i - 2] == tokens@[i - 2].deep_view());
    let word = match &tokens[i - 2] {
        Token::Ident(word) => same(word.as_str(), "macro"),
        _ => false,
    };
    word && is_path_at(tokens, i - 1) && !(i >= 3 && is_punct_at(tokens, i - 3, '\''))
}

fn opening_of(tokens: &Vec<Token>, n: usize) -> (res: Option<usize>)
    requires
        n <= tokens@.len(),
    ensures
        match res {
            Some(j) => j < n && opening(tokens.deep_view(), n as int, 0) == j,
            None => opening(tokens.deep_view(), n as int, 0) < 0,
        },
{
    let ghost all = tokens.deep_view();
    let mut i: usize = n;
    let mut closed: usize = 0;
    while i > 0
        invariant
            all == tokens.deep_view(),
            i <= n <= tokens@.len(),
            closed <= n - i,
            opening(all, n as int, 0) == opening(all, i as int, closed as nat),
        decreases i,
    {
        i = i - 1;
        assert(all[i as int] == tokens@[i as int].deep_view());
        match &tokens[i] {
            Token::Close => {
                closed = closed + 1;
            },
            Token::Open(_) => {
                if closed == 0 {
                    return Some(i);
                }
                closed = closed - 1;
            },
            _ => {},
        }
    }
    None
}

fn is_macro_item_at(tokens: &Vec<Token>, i: usize) -> (res: bool)
    requires
        i < tokens@.len(),
    ensures
        res == macro_item_at(tokens.deep_view(), i as int),
{
    if is_macro_named_at(tokens, i) {
        return true;
    }
    if i == 0 {
        return false;
    }
    assert(tokens.deep_view()[i - 1] == tokens@[i - 1].deep_view());
    match &tokens[i - 1] {
        Token::Close => {},
        _ => return false,
    }
    match opening_of(tokens, i - 1) {
        None => false,
        Some(j) => {
            assert(tokens.deep_view()[j as int] == tokens@[j as int].deep_view());
            let round = match &tokens[j] {
                Token::Open(bracket) => *bracket == '(',
                _ => false,
            };
            round && is_macro_named_at(tokens, j)
        },
    }
}

fn is_unparsed_at(tokens: &Vec<Token>, i: usize) -> (res: bool)
    requires
        i < tokens@.len(),
    ensures
        res == unparsed_at(tokens.deep_view(), i as int),
{
    if is_macro_item_at(tokens, i) {
        return true;
    }
    if i == 0 {
        return false;
    }
    assert(tokens.deep_view()[i - 1] == tokens@[i - 1].deep_view());
    let named = match &tokens[i - 1] {
        Token::Ident(_) => true,
        _ => false,
    };
    is_punct_at(tokens, i - 1, '#') || (i >= 2 && is_punct_at(tokens, i - 1, '!') && (is_punct_at(
        tokens,
        i - 2,
        '#',
    ) || is_path_at(tokens, i - 2))) || (i >= 3 && named && is_punct_at(tokens, i - 2, '!')
        && is_path_at(tokens, i - 3))
}

/// Finds the first literal among the tokens that is parsed and cannot be read.
pub fn unread_literal_of(tokens: &Vec<Token>) -> (res: Option<String>)
    ensures
        res.deep_view() == unread_literal(tokens.deep_view(), tokens@.len() as int),
{
    let ghost all = tokens.deep_view();
    let mut depth: usize = 0;
    let mut found: Option<String> = None;
    for i in 0..tokens.len()
        invariant
            all == tokens.deep_view(),
            depth <= i,
            depth == unparsed(all, i as int),
            found.deep_view() == unread_literal(all, i as int),
    {
        assert(all[i as int] == tokens@[i as int].deep_view());
        match &tokens[i] {
            Token::Open(_) => {
                if depth > 0 || is_unparsed_at(tokens, i) {
                    depth = depth + 1;
                }
            },
            Token::Close => {
                if depth > 0 {
                    depth = depth - 1;
                }
            },
            Token::Literal(literal) => {
                if found.is_none() && depth == 0 && is_unread(literal.as_str()) {
                    found = Some(literal.clone());
                }
            },
            _ => {},
        }
    }
    found
}

pub(crate) fn is_unread(literal: &str) -> (res: bool)
    ensures
        res == unread(literal@),
{
    literal.unicode_len() > 0 && (literal.get_char(0) == 'c' || literal.get_char(0) == '(')
}

/// Finds the first literal in a text that is parsed and cannot be read.
pub fn unread_in_of(text: &str) -> (res: Option<String>)
    ensures
        res.deep_view() == unread_in(text@),
{
    match lex(text) {
        None => None,
        Some(tokens) => unread_literal_of(&tokens),
    }
}

/// The words that are reserved are the keywords of the parser, but for those that begin
/// paths and those that only some editions of the language reserve.
pub proof fn keywords_are_reserved(word: Seq<char>)
    ensures
        reserved(word) <==> seq![
            "abstract"@,
            "as"@,
            "become"@,
            "box"@,
            "break"@,
            "const"@,
            "continue"@,
            "do"@,
            "else"@,
            "enum"@,
            "extern"@,
            "false"@,
            "final"@,
            "fn"@,
            "for"@,
            "if"@,
            "impl"@,
            "in"@,
            "let"@,
            "loop"@,
            "macro"@,
            "match"@,
            "mod"@,
            "move"@,
            "mut"@,
            "override"@,
            "priv"@,
            "pub"@,
            "ref"@,
            "return"@,
            "static"@,
            "struct"@,
            "trait"@,
            "true"@,
            "type"@,
            "typeof"@,
            "unsafe"@,
            "unsized"@,
            "use"@,
            "virtual"@,
            "where"@,
            "while"@,
            "yield"@,
        ].contains(word),
{
    let words = seq![
        "abstract"@,
        "as"@,
        "become"@,
        "box"@,
        "break"@,
        "const"@,
        "continue"@,
        "do"@,
        "else"@,
        "enum"@,
        "extern"@,
        "false"@,
        "final"@,
        "fn"@,
        "for"@,
        "if"@,
        "impl"@,
        "in"@,
        "let"@,
        "loop"@,
        "macro"@,
        "match"@,
        "mod"@,
        "move"@,
        "mut"@,
        "override"@,
        "priv"@,
        "pub"@,
        "ref"@,
        "return"@,
        "static"@,
        "struct"@,
        "trait"@,
        "true"@,
        "type"@,
        "typeof"@,
        "unsafe"@,
        "unsized"@,
        "use"@,
        "virtual"@,
        "where"@,
        "while"@,
        "yield"@,
    ];
    if reserved(word) {
        assert(exists|i: int| 0 <= i < words.len() && words[i] == word) by {
            assert(words[0] == "abstract"@);
            assert(words[1] == "as"@);
            assert(words[2] == "become"@);
            assert(words[3] == "box"@);
            assert(words[4] == "break"@);
            assert(words[5] == "const"@);
            assert(words[6] == "continue"@);
            assert(words[7] == "do"@);
            assert(words[8] == "else"@);
            assert(words[9] == "enum"@);
            assert(words[10] == "extern"@);
            assert(words[11] == "false"@);
            assert(words[12] == "final"@);
            assert(words[13] == "fn"@);
            assert(words[14] == "for"@);
            assert(words[15] == "if"@);
            assert(words[16] == "impl"@);
            assert(words[17] == "in"@);
            assert(words[18] == "let"@);
            assert(words[19] == "loop"@);
            assert(words[20] == "macro"@);
            assert(words[21] == "match"@);
            assert(words[22] == "mod"@);
            assert(words[23] == "move"@);
            assert(words[24] == "mut"@);
            assert(words[25] == "override"@);
            assert(words[26] == "priv"@);
            assert(words[27] == "pub"@);
            assert(words[28] == "ref"@);
            assert(words[29] == "return"@);
            assert(words[30] == "static"@);
            assert(words[31] == "struct"@);
            assert(words[32] == "trait"@);
            assert(words[33] == "true"@);
            assert(words[34] == "type"@);
            assert(words[35] == "typeof"@);
            assert(words[36] == "unsafe"@);
            assert(words[37] == "unsized"@);
            assert(words[38] == "use"@);
            assert(words[39] == "virtual"@);
            assert(words[40] == "where"@);
            assert(words[41] == "while"@);
            assert(words[42] == "yield"@);
        }
    }
}

/// Every literal for a C string and the mark of a wrong token are unread. No literal for
/// a number, a string, a byte or a character is.
pub proof fn c_strings_are_unread(literal: Seq<char>)
    ensures
        "c\""@.is_prefix_of(literal) ==> unread(literal),
        "cr"@.is_prefix_of(literal) ==> unread(literal),
        literal == "(/*ERROR*/)"@ ==> unread(literal),
        unread(literal) ==> "c"@.is_prefix_of(literal) || "("@.is_prefix_of(literal),
{
    reveal_strlit("c\"");
    reveal_strlit("cr");
    reveal_strlit("(/*ERROR*/)");
    reveal_strlit("c");
    reveal_strlit("(");
    assert("c\""@[0] == 'c' && "cr"@[0] == 'c' && "(/*ERROR*/)"@[0] == '(');
    if "c\""@.is_prefix_of(literal) {
        assert("c\""@ == literal.take(2));
        assert(literal[0] == literal.take(2)[0]);
    }
    if "cr"@.is_prefix_of(literal) {
        assert("cr"@ == literal.take(2));
        assert(literal[0] == literal.take(2)[0]);
    }
    if unread(literal) {
        assert(literal.take(1) =~= seq![literal[0]]);
        assert("c"@ =~= seq!['c'] && "("@ =~= seq!['(']);
    }
}

/// How many more groups are opened than closed from `i` up to `j`.
pub open spec fn level(tokens: Seq<TokenView>, i: int, j: int) -> int
    decreases j - i,
{
    if j <= i {
        0
    } else {
        level(tokens, i, j - 1) + match tokens[j - 1] {
            TokenView::Open(_) => 1int,
            TokenView::Close => -1,
            _ => 0,
        }
    }
}

/// Whether the group that is opened at `i` is still open at `j`.
pub open spec fn inside(tokens: Seq<TokenView>, i: int, j: int) -> bool {
    &&& 0 <= i < j
    &&& tokens[i] is Open
    &&& forall|k: int| i < k <= j ==> #[trigger] level(tokens, i, k) >= 1
}

proof fn levels_add(tokens: Seq<TokenView>, i: int, j: int, k: int)
    requires
        i <= j <= k,
    ensures
        level(tokens, i, k) == level(tokens, i, j) + level(tokens, j, k),
    decreases k - j,
{
    if j < k {
        levels_add(tokens, i, j, k - 1);
    }
}

proof fn unparsed_start(tokens: Seq<TokenView>, n: int) -> (start: int)
    requires
        0 <= n <= tokens.len(),
    ensures
        unparsed(tokens, n) == 0 ==> forall|i: int| #[trigger]
            inside(tokens, i, n) ==> !unparsed_at(tokens, i),
        unparsed(tokens, n) > 0 ==> {
            &&& inside(tokens, start, n)
            &&& unparsed_at(tokens, start)
            &&& unparsed(tokens, start) == 0
            &&& level(tokens, start, n) == unparsed(tokens, n)
        },
    decreases n,
{
    if n == 0 {
        0
    } else {
        let m = n - 1;
        let start = unparsed_start(tokens, m);
        assert forall|i: int| #[trigger] inside(tokens, i, n) && i < m implies inside(
            tokens,
            i,
            m,
        ) by {}
        if unparsed(tokens, m) > 0 {
            assert(level(tokens, start, n) == level(tokens, start, m) + match tokens[m] {
                TokenView::Open(_) => 1int,
                TokenView::Close => -1,
                _ => 0,
            });
            if unparsed(tokens, n) == 0 {
                let _ = unparsed_start(tokens, start);
                assert forall|i: int| #[trigger] inside(tokens, i, n) implies !unparsed_at(
                    tokens,
                    i,
                ) by {
                    if i < start {
                        assert forall|k: int| i < k <= start implies #[trigger] level(tokens, i, k)
                            >= 1 by {}
                        assert(inside(tokens, i, start));
                    } else if i == start {
                        assert(level(tokens, i, n) >= 1);
                    } else {
                        levels_add(tokens, start, i, n);
                        assert(level(tokens, i, n) >= 1);
                        assert(level(tokens, start, i) >= 1);
                    }
                }
            } else {
                assert forall|k: int| start < k <= n implies #[trigger] level(tokens, start, k)
                    >= 1 by {}
            }
            start
        } else if unparsed(tokens, n) > 0 {
            assert(level(tokens, m, m) == 0);
            assert(level(tokens, m, n) == 1);
            assert forall|k: int| m < k <= n implies #[trigger] level(tokens, m, k) >= 1 by {}
            m
        } else {
            assert forall|i: int| #[trigger] inside(tokens, i, n) implies !unparsed_at(
                tokens,
                i,
            ) by {
                if i < m {
                    assert(inside(tokens, i, m));
                }
            }
            start
        }
    }
}

/// What stands in a group of an attribute, of a macro's invocation or of the definition
/// of one is not parsed, however deep it stands there, and everything else is.
pub proof fn groups_are_unparsed_as_a_whole(tokens: Seq<TokenView>, n: int)
    requires
        0 <= n <= tokens.len(),
    ensures
        unparsed(tokens, n) > 0 <==> exists|i: int|
            #![trigger inside(tokens, i, n)]
            inside(tokens, i, n) && unparsed_at(tokens, i),
{
    let start = unparsed_start(tokens, n);
}

proof fn opening_is_the_innermost(tokens: Seq<TokenView>, n: int, closed: nat, j: int)
    requires
        0 <= n <= tokens.len(),
    ensures
        opening(tokens, n, closed) < n,
        0 <= j && opening(tokens, n, closed) == j <==> {
            &&& 0 <= j < n
            &&& tokens[j] is Open
            &&& level(tokens, j + 1, n) == closed
            &&& forall|k: int| j < k <= n ==> #[trigger] level(tokens, k, n) <= closed
        },
    decreases n,
{
    if n > 0 {
        let m = n - 1;
        let step = match tokens[m] {
            TokenView::Open(_) => 1int,
            TokenView::Close => -1,
            _ => 0,
        };
        assert forall|k: int| k <= m implies #[trigger] level(tokens, k, n) == level(tokens, k, m)
            + step by {}
        assert(level(tokens, n, n) == 0);
        if tokens[m] is Open && closed == 0 {
            if 0 <= j < m {
                assert(level(tokens, m, m) == 0);
                assert(level(tokens, m, n) == 1);
            }
            if j == m {
                assert forall|k: int| j < k <= n implies #[trigger] level(tokens, k, n)
                    <= closed by {}
            }
        } else {
            let before = (closed - step) as nat;
            opening_is_the_innermost(tokens, m, before, j);
            if 0 <= j && opening(tokens, n, closed) == j {
                assert forall|k: int| j < k <= n implies #[trigger] level(tokens, k, n)
                    <= closed by {
                    if k < n {
                        assert(level(tokens, k, m) <= before);
                    }
                }
            }
            if 0 <= j < n && tokens[j] is Open && level(tokens, j + 1, n) == closed && (forall|
                k: int,
            |
                j < k <= n ==> #[trigger] level(tokens, k, n) <= closed) {
                if j == m {
                    assert(level(tokens, j + 1, n) == 0);
                } else {
                    assert forall|k: int| j < k <= m implies #[trigger] level(tokens, k, m)
                        <= before by {
                        assert(level(tokens, k, n) <= closed);
                    }
                }
            }
        }
    }
}

/// A group is not parsed in these places only: behind `#` or `#!`; behind the name of a
/// macro and `!`, and maybe another name; behind `macro` and a name; and behind the round
/// brackets of such a `macro`. The name of a lifetime names no macro, nor does a keyword.
pub proof fn unparsed_groups_have_their_places(tokens: Seq<TokenView>, i: int)
    requires
        0 <= i < tokens.len(),
    ensures
        ({
            let punct = |k: int, c: char|
                0 <= k && tokens[k] is Punct && tokens[k]->Punct_0 == c;
            let name = |k: int|
                0 <= k && tokens[k] is Ident && !reserved(tokens[k]->Ident_0) && !punct(
                    k - 1,
                    '\'',
                );
            let item = |k: int|
                name(k - 1) && k >= 2 && tokens[k - 2] == TokenView::Ident("macro"@) && !punct(
                    k - 3,
                    '\'',
                );
            unparsed_at(tokens, i) <==> {
                ||| punct(i - 1, '#')
                ||| punct(i - 1, '!') && (punct(i - 2, '#') || name(i - 2))
                ||| i >= 1 && tokens[i - 1] is Ident && punct(i - 2, '!') && name(i - 3)
                ||| item(i)
                ||| i >= 1 && tokens[i - 1] is Close && exists|j: int|
                    {
                        &&& 0 <= j < i - 1
                        &&& tokens[j] == TokenView::Open('(')
                        &&& #[trigger] level(tokens, j + 1, i - 1) == 0
                        &&& forall|k: int| j < k < i ==> #[trigger] level(tokens, k, i - 1) <= 0
                        &&& item(j)
                    }
            }
        }),
{
    if i >= 1 {
        let found = opening(tokens, i - 1, 0);
        opening_is_the_innermost(tokens, i - 1, 0, found);
        if found >= 0 {
            assert(level(tokens, found + 1, i - 1) == 0);
            assert forall|k: int| found < k < i implies #[trigger] level(tokens, k, i - 1)
                <= 0 by {}
        }
        assert forall|j: int|
            {
                &&& 0 <= j < i - 1
                &&& tokens[j] == TokenView::Open('(')
                &&& #[trigger] level(tokens, j + 1, i - 1) == 0
                &&& forall|k: int| j < k < i ==> #[trigger] level(tokens, k, i - 1) <= 0
            } implies j == found by {
            opening_is_the_innermost(tokens, i - 1, 0, j);
            assert forall|k: int| j < k <= i - 1 implies #[trigger] level(tokens, k, i - 1)
                <= 0 by {}
        }
    }
}

/// The literal that is found is the first of those that cannot be read and do not stand
/// in a group that is not parsed, and one is found if there is one.
pub proof fn first_parsed_literal_is_found(tokens: Seq<TokenView>, n: int)
    requires
        0 <= n <= tokens.len(),
    ensures
        match unread_literal(tokens, n) {
            Some(literal) => exists|j: int|
                {
                    &&& 0 <= j < n
                    &&& #[trigger] tokens[j] == TokenView::Literal(literal)
                    &&& unread(literal)
                    &&& unread_literal(tokens, j) is None
                    &&& forall|i: int| #[trigger]
                        inside(tokens, i, j) ==> !unparsed_at(tokens, i)
                },
            None => forall|j: int|
                0 <= j < n && #[trigger] tokens[j] is Literal && unread(tokens[j]->Literal_0)
                    ==> exists|i: int|
                    #![trigger inside(tokens, i, j)]
                    inside(tokens, i, j) && unparsed_at(tokens, i),
        },
    decreases n,
{
    if n > 0 {
        first_parsed_literal_is_found(tokens, n - 1);
        groups_are_unparsed_as_a_whole(tokens, n - 1);
        if unread_literal(tokens, n - 1) is None && unread_literal(tokens, n) is Some {
            assert(tokens[n - 1] == TokenView::Literal(unread_literal(tokens, n)->Some_0));
            assert(unread_literal(tokens, n - 1) is None);
        }
    }
}

/// A text whose literals are all for numbers, strings, bytes and characters can be
/// handed to the parser, and so can one that is not made of tokens.
pub proof fn texts_without_c_strings_are_readable(text: Seq<char>)
    requires
        lexed(text) matches Some(tokens) ==> forall|j: int|
            0 <= j < tokens.len() && #[trigger] tokens[j] is Literal ==> !"c"@.is_prefix_of(
                tokens[j]->Literal_0,
            ) && !"("@.is_prefix_of(tokens[j]->Literal_0),
    ensures
        readable(text),
        unread_in(text) is None,
{
    if lexed(text) is Some {
        let tokens = lexed(text)->Some_0;
        first_parsed_literal_is_found(tokens, tokens.len() as int);
        if unread_literal(tokens, tokens.len() as int) is Some {
            c_strings_are_unread(unread_literal(tokens, tokens.len() as int)->Some_0);
        }
    }
}

/// A text is refused for a literal of any of its tokens, wherever it stands in the text,
/// if it is parsed and cannot be read; and it can be handed to the parser only if there
/// is none.
pub proof fn parsed_c_strings_are_refused(text: Seq<char>, tokens: Seq<TokenView>, j: int)
    requires
        lexed(text) == Some(tokens),
        0 <= j < tokens.len(),
        tokens[j] is Literal,
        "c\""@.is_prefix_of(tokens[j]->Literal_0) || "cr"@.is_prefix_of(tokens[j]->Literal_0)
            || tokens[j]->Literal_0 == "(/*ERROR*/)"@,
        forall|i: int| #[trigger] inside(tokens, i, j) ==> !unparsed_at(tokens, i),
    ensures
        !readable(text),
        unread_in(text) is Some,
        exists|k: int|
            0 <= k <= j && #[trigger] tokens[k] == TokenView::Literal(unread_in(text)->Some_0),
{
    c_strings_are_unread(tokens[j]->Literal_0);
    first_parsed_literal_is_found(tokens, tokens.len() as int);
    first_parsed_literal_is_found(tokens, j + 1);
    found_stays_found(tokens, j + 1, tokens.len() as int);
}

proof fn found_stays_found(tokens: Seq<TokenView>, n: int, m: int)
    requires
        0 <= n <= m,
        unread_literal(tokens, n) is Some,
    ensures
        unread_literal(tokens, m) == unread_literal(tokens, n),
    decreases m - n,
{
    if n < m {
        found_stays_found(tokens, n, m - 1);
    }
}

} // verus!
