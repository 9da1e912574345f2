//! Literals that cannot be read where the arguments of an attribute are read.
//!
//! The arguments are separated by commas. Each is a literal, or a path that may have
//! a list of arguments in round brackets or a literal for its value. The parser stops
//! at the first token that fits nowhere, so what stands behind it does no harm.
use vstd::prelude::*;

use crate::literals::{c_strings_are_unread, is_unread, lex, lexed, unread, Token, TokenView};
use crate::text::same;

verus! {

/// Where the parser is between two tokens.
#[derive(Clone, Copy, Debug, PartialEq, Eq, Structural)]
pub enum Place {
    /// Before an argument.
    Argument,
    /// Behind `true` or `false` at the start of an argument.
    Bool,
    /// Behind the first of two colons.
    Colon,
    /// Before a segment of a path.
    Segment,
    /// Behind a segment of a path.
    Path,
    /// Before the value of a path.
    Value,
    /// Behind a minus sign.
    Minus,
    /// Behind an argument.
    End,
    /// At a token that fits nowhere, or behind one.
    Stop,
}

/// Whether a word is a literal for a truth value.
pub open spec fn truth(word: Seq<char>) -> bool {
    word == "true"@ || word == "false"@
}

/// Whether a literal is a number.
pub open spec fn number(literal: Seq<char>) -> bool {
    literal.len() > 0 && '0' <= literal[0] <= '9'
}

/// Where the parser is behind a token that it met at `place`.
pub open spec fn next(place: Place, token: TokenView) -> Place {
    match (place, token) {
        (Place::Argument | Place::Value, TokenView::Literal(_)) => Place::End,
        (Place::Minus, TokenView::Literal(literal)) if number(literal) => Place::End,
        (Place::Argument, TokenView::Ident(name)) => if truth(name) {
            Place::Bool
        } else {
            Place::Path
        },
        (Place::Segment, TokenView::Ident(_)) => Place::Path,
        (Place::Value, TokenView::Ident(name)) if truth(name) => Place::End,
        (Place::Argument | Place::Value, TokenView::Punct('-', _)) => Place::Minus,
        (Place::Argument | Place::Path, TokenView::Punct(':', true)) => Place::Colon,
        (Place::Colon, TokenView::Punct(':', _)) => Place::Segment,
        (Place::Bool | Place::Path, TokenView::Punct('=', _)) => Place::Value,
        (Place::Bool | Place::Path | Place::End, TokenView::Punct(',', _)) => Place::Argument,
        (Place::Path, TokenView::Open('(')) => Place::Argument,
        (Place::Argument | Place::Bool | Place::Path | Place::End, TokenView::Close) => Place::End,
        _ => Place::Stop,
    }
}

/// Where the parser is behind the first `n` tokens.
pub open spec fn place(tokens: Seq<TokenView>, n: int) -> Place
    decreases n,
{
    if n <= 0 {
        Place::Argument
    } else {
        next(place(tokens, n - 1), tokens[n - 1])
    }
}

/// The first of the first `n` tokens that is met where a literal is read, and is one
/// that cannot be read.
pub open spec fn unread_argument(tokens: Seq<TokenView>, n: int) -> Option<Seq<char>>
    decreases n,
{
    if n <= 0 {
        None
    } else if unread_argument(tokens, n - 1) is Some {
        unread_argument(tokens, n - 1)
    } else {
        let at = place(tokens, n - 1);
        match tokens[n - 1] {
            TokenView::Literal(literal) if (at is Argument || at is Value) && unread(literal) => Some(
                literal,
            ),
            _ => None,
        }
    }
}

/// The first literal in the arguments of an attribute that is met by the parser and
/// cannot be read.
pub open spec fn unread_in_arguments(text: Seq<char>) -> Option<Seq<char>> {
    match lexed(text) {
        None => None,
        Some(tokens) => unread_argument(tokens, tokens.len() as int),
    }
}

fn is_truth(word: &str) -> (res: bool)
    ensures
        res == truth(word@),
{
    same(word, "true") || same(word, "false")
}

fn is_number(literal: &str) -> (res: bool)
    ensures
        res == number(literal@),
{
    literal.unicode_len() > 0 && '0' <= literal.get_char(0) && literal.get_char(0) <= '9'
}

fn next_of(place: Place, token: &Token) -> (res: Place)
    ensures
        res == next(place, token.deep_view()),
{
    match token {
        Token::Literal(literal) => match place {
            Place::Argument => Place::End,
            Place::Value => Place::End,
            Place::Minus => if is_number(literal.as_str()) {
                Place::End
            } else {
                Place::Stop
            },
            _ => Place::Stop,
        },
        Token::Ident(name) => match place {
            Place::Argument => if is_truth(name.as_str()) {
                Place::Bool
            } else {
                Place::Path
            },
            Place::Segment => Place::Path,
            Place::Value => if is_truth(name.as_str()) {
                Place::End
            } else {
                Place::Stop
            },
            _ => Place::Stop,
        },
        Token::Punct(c, joint) => match place {
            Place::Argument => if *c == '-' {
                Place::Minus
            } else if *c == ':' && *joint {
                Place::Colon
            } else {
                Place::Stop
            },
            Place::Value => if *c == '-' {
                Place::Minus
            } else {
                Place::Stop
            },
            Place::Colon => if *c == ':' {
                Place::Segment
            } else {
                Place::Stop
            },
            Place::Bool => if *c == '=' {
                Place::Value
            } else if *c == ',' {
                Place::Argument
            } else {
                Place::Stop
            },
            Place::Path => if *c == ':' && *joint {
                Place::Colon
            } else if *c == '=' {
                Place::Value
            } else if *c == ',' {
                Place::Argument
            } else {
                Place::Stop
            },
            Place::End => if *c == ',' {
                Place::Argument
            } else {
                Place::Stop
            },
            _ => Place::Stop,
        },
        Token::Open(bracket) => if place == Place::Path && *bracket == '(' {
            Place::Argument
        } else {
            Place::Stop
        },
        Token::Close => match place {
            Place::Argument => Place::End,
            Place::Bool => Place::End,
            Place::Path => Place::End,
            Place::End => Place::End,
            _ => Place::Stop,
        },
    }
}

/// Finds the first literal among the tokens of an attribute's arguments that is met
/// by the parser and cannot be read.
pub fn unread_argument_of(tokens: &Vec<Token>) -> (res: Option<String>)
    ensures
        res.deep_view() == unread_argument(tokens.deep_view(), tokens@.len() as int),
{
    let ghost all = tokens.deep_view();
    let mut at = Place::Argument;
    let mut found: Option<String> = None;
    for i in 0..tokens.len()
        invariant
            all == tokens.deep_view(),
            at == place(all, i as int),
            found.deep_view() == unread_argument(all, i as int),
    {
        assert(all[i as int] == tokens@[i as int].deep_view());
        if let Token::Literal(literal) = &tokens[i] {
            if found.is_none() && (at == Place::Argument || at == Place::Value) && is_unread(
                literal.as_str(),
            ) {
                found = Some(literal.clone());
            }
        }
        at = next_of(at, &tokens[i]);
    }
    found
}

/// Finds the first literal in the arguments of an attribute that is met by the parser
/// and cannot be read.
pub fn unread_in_arguments_of(text: &str) -> (res: Option<String>)
    ensures
        res.deep_view() == unread_in_arguments(text@),
{
    match lex(text) {
        None => None,
        Some(tokens) => unread_argument_of(&tokens),
    }
}

/// A literal is read before an argument and for a value, and a number behind a minus
/// sign. It ends an argument.
pub proof fn literals_end_arguments(at: Place, literal: Seq<char>)
    ensures
        next(at, TokenView::Literal(literal)) == Place::End <==> at == Place::Argument || at
            == Place::Value || (at == Place::Minus && literal.len() > 0 && '0' <= literal[0]
            <= '9'),
        next(at, TokenView::Literal(literal)) == Place::End || next(
            at,
            TokenView::Literal(literal),
        ) == Place::Stop,
{
}

/// A word is a segment of a path before an argument or a segment. `true` and `false` may
/// also be an argument by themselves, and are the only words that are values.
pub proof fn words_are_segments(at: Place, word: Seq<char>)
    ensures
        ({
            let to = next(at, TokenView::Ident(word));
            let value = word == "true"@ || word == "false"@;
            &&& to == Place::Path <==> at == Place::Segment || (at == Place::Argument && !value)
            &&& to == Place::Bool <==> at == Place::Argument && value
            &&& to == Place::End <==> at == Place::Value && value
            &&& to == Place::Path || to == Place::Bool || to == Place::End || to == Place::Stop
        }),
{
}

/// Of the punctuation, a comma ends an argument, an equals sign stands between a path and
/// its value, a minus sign before a number, and two colons that are joined before a
/// segment. No other character fits anywhere.
pub proof fn punctuation_has_its_places(at: Place, c: char, joint: bool)
    ensures
        ({
            let to = next(at, TokenView::Punct(c, joint));
            let ended = at == Place::Bool || at == Place::Path;
            &&& to == Place::Argument <==> c == ',' && (ended || at == Place::End)
            &&& to == Place::Value <==> c == '=' && ended
            &&& to == Place::Minus <==> c == '-' && (at == Place::Argument || at == Place::Value)
            &&& to == Place::Colon <==> c == ':' && joint && (at == Place::Argument || at
                == Place::Path)
            &&& to == Place::Segment <==> c == ':' && at == Place::Colon
            &&& to == Place::Argument || to == Place::Value || to == Place::Minus || to
                == Place::Colon || to == Place::Segment || to == Place::Stop
        }),
{
}

/// A list of arguments is opened behind a path, by a round bracket, and closed where an
/// argument may begin or has ended.
pub proof fn lists_stand_behind_paths(at: Place, bracket: char)
    ensures
        next(at, TokenView::Open(bracket)) == (if at == Place::Path && bracket == '(' {
            Place::Argument
        } else {
            Place::Stop
        }),
        next(at, TokenView::Close) == (if at == Place::Argument || at == Place::Bool || at
            == Place::Path || at == Place::End {
            Place::End
        } else {
            Place::Stop
        }),
{
}

/// The parser begins before an argument and goes on token by token. Once it has stopped
/// it stays there, and finds nothing any more.
pub proof fn parser_stops_for_good(tokens: Seq<TokenView>, n: int, m: int)
    requires
        0 <= n <= m,
    ensures
        place(tokens, 0) == Place::Argument,
        place(tokens, n + 1) == next(place(tokens, n), tokens[n]),
        place(tokens, n) == Place::Stop ==> place(tokens, m) == Place::Stop && unread_argument(
            tokens,
            m,
        ) == unread_argument(tokens, n),
    decreases m - n,
{
    if n < m {
        parser_stops_for_good(tokens, n, m - 1);
    }
}

/// The literal that is found is the first that cannot be read of those that the parser
/// meets before an argument or for a value, and one is found if there is one.
pub proof fn first_met_literal_is_found(tokens: Seq<TokenView>, n: int)
    requires
        0 <= n <= tokens.len(),
    ensures
        match unread_argument(tokens, n) {
            Some(literal) => exists|j: int|
                {
                    &&& 0 <= j < n
                    &&& #[trigger] tokens[j] == TokenView::Literal(literal)
                    &&& unread(literal)
                    &&& place(tokens, j) == Place::Argument || place(tokens, j) == Place::Value
                    &&& unread_argument(tokens, j) is None
                },
            None => forall|j: int|
                0 <= j < n && #[trigger] tokens[j] is Literal && unread(tokens[j]->Literal_0)
                    ==> place(tokens, j) != Place::Argument && place(tokens, j) != Place::Value,
        },
    decreases n,
{
    if n > 0 {
        let m = n - 1;
        first_met_literal_is_found(tokens, m);
        let at = place(tokens, m);
        let met = at == Place::Argument || at == Place::Value;
        found_at_last_token(tokens, n);
        if unread_argument(tokens, m) is Some {
        } else if tokens[m] is Literal && unread(tokens[m]->Literal_0) && met {
            let literal = tokens[m]->Literal_0;
            assert(tokens[m] == TokenView::Literal(literal));
        } else {
            assert forall|j: int|
                0 <= j < n && #[trigger] tokens[j] is Literal && unread(
                    tokens[j]->Literal_0,
                ) implies place(tokens, j) != Place::Argument && place(tokens, j)
                != Place::Value by {
                if j == m {
                    assert(place(tokens, j) == at);
                }
            }
        }
    }
}

proof fn found_at_last_token(tokens: Seq<TokenView>, n: int)
    requires
        0 < n <= tokens.len(),
    ensures
        ({
            let before = unread_argument(tokens, n - 1);
            let at = place(tokens, n - 1);
            let last = tokens[n - 1];
            unread_argument(tokens, n) == if before is Some {
                before
            } else if last is Literal && unread(last->Literal_0) && (at == Place::Argument || at
                == Place::Value) {
                Some(last->Literal_0)
            } else {
                None
            }
        }),
{
}

/// Arguments whose literals are all for numbers, strings, bytes and characters can be
/// handed to the parser, and so can a text that is not made of tokens.
pub proof fn arguments_without_c_strings_are_readable(text: Seq<char>)
    requires
        lexed(text) matches Some(tokens) ==> forall|j: int|
            0 <= j < tokens.len() && #[trigger] tokens[j] is Literal ==> !"c"@.is_prefix_of(
                tokens[j]->Literal_0,
            ) && !"("@.is_prefix_of(tokens[j]->Literal_0),
    ensures
        unread_in_arguments(text) is None,
{
    if lexed(text) is Some {
        let tokens = lexed(text)->Some_0;
        first_met_literal_is_found(tokens, tokens.len() as int);
        if unread_argument(tokens, tokens.len() as int) is Some {
            c_strings_are_unread(unread_argument(tokens, tokens.len() as int)->Some_0);
        }
    }
}

/// Arguments are refused for a literal of any of their tokens, wherever it stands among
/// them, if the parser meets it before an argument or for a value and cannot read it.
pub proof fn met_c_strings_are_refused(text: Seq<char>, tokens: Seq<TokenView>, j: int)
    requires
        lexed(text) == Some(tokens),
        0 <= j < tokens.len(),
        tokens[j] is Literal,
        "c\""@.is_prefix_of(tokens[j]->Literal_0) || "cr"@.is_prefix_of(tokens[j]->Literal_0)
            || tokens[j]->Literal_0 == "(/*ERROR*/)"@,
        place(tokens, j) == Place::Argument || place(tokens, j) == Place::Value,
    ensures
        unread_in_arguments(text) is Some,
        exists|k: int|
            0 <= k <= j && #[trigger] tokens[k] == TokenView::Literal(
                unread_in_arguments(text)->Some_0,
            ),
{
    c_strings_are_unread(tokens[j]->Literal_0);
    found_at_last_token(tokens, j + 1);
    first_met_literal_is_found(tokens, j + 1);
    found_stays_found(tokens, j + 1, tokens.len() as int);
}

proof fn found_stays_found(tokens: Seq<TokenView>, n: int, m: int)
    requires
        0 <= n <= m <= tokens.len(),
        unread_argument(tokens, n) is Some,
    ensures
        unread_argument(tokens, m) == unread_argument(tokens, n),
    decreases m - n,
{
    if n < m {
        found_stays_found(tokens, n, m - 1);
        found_at_last_token(tokens, m);
    }
}

} // verus!
