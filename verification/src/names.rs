//! The names of the items that are generated for a message handler.
use sha2::{Digest, Sha256};
use vstd::prelude::*;
use vstd::utf8::{
    decode_utf8, encode_utf8, encode_utf8_decode_utf8, encode_utf8_valid_utf8, valid_utf8,
};

use crate::error::HandlerError;
use crate::text::{
    byte_in, digit, hex, hex_of, hex_reads_back, same, upper, upper_moves_letters_only, upper_of,
};

verus! {

/// The SHA-256 digest of the bytes.
pub uninterp spec fn sha256(data: Seq<u8>) -> Seq<u8>;

/// `sha2::Sha256::digest`: the digest of the bytes, which takes 32 bytes.
#[verifier::external_body]
pub(crate) fn sha256_of(data: &[u8]) -> (res: Vec<u8>)
    ensures
        res@ == sha256(data@),
        res@.len() == 32,
{
    Sha256::digest(data).to_vec()
}

/// The name of the message that a handler of this name is for.
pub open spec fn message(handler: Seq<char>) -> Result<Seq<char>, HandlerError> {
    if "handle_"@.is_prefix_of(handler) {
        Ok(handler.skip("handle_"@.len() as int))
    } else {
        Err(HandlerError::NotAHandler)
    }
}

/// The name of the message that a handler of this name is for.
pub fn message_of(handler: &str) -> (res: Result<&str, HandlerError>)
    ensures
        match res {
            Ok(name) => message(handler@) == Ok::<Seq<char>, HandlerError>(name@),
            Err(e) => message(handler@) == Err::<Seq<char>, HandlerError>(e),
        },
{
    proof {
        reveal_strlit("handle_");
    }
    let len = handler.unicode_len();
    if len < 7 {
        return Err(HandlerError::NotAHandler);
    }
    if !same(handler.substring_char(0, 7), "handle_") {
        return Err(HandlerError::NotAHandler);
    }
    assert("handle_"@ =~= handler@.take(7));
    let name = handler.substring_char(7, len);
    assert(name@ =~= handler@.skip(7));
    Ok(name)
}

/// The bytes by which one version of a handler is told from others: those of its
/// whole text.
pub open spec fn fingerprint(text: Seq<char>) -> Seq<u8> {
    encode_utf8(text)
}

/// The bytes by which one version of a handler is told from others.
pub fn fingerprint_of(text: &str) -> (res: &[u8])
    ensures
        res@ == fingerprint(text@),
{
    text.as_bytes()
}

/// The names of the items that are generated for a handler.
pub struct Names {
    /// The handler that other actors reach.
    pub handler: String,
    /// The message that the handler is for, and the function that sends it.
    pub message: String,
    /// The callbacks that wait for an answer.
    pub pipeline: String,
    /// The handler for the answer.
    pub return_handler: String,
    /// The message that holds the answer.
    pub return_message: String,
    /// The handler as it was written.
    pub inner: String,
}

/// The contents of `Names`.
pub struct NamesView {
    pub handler: Seq<char>,
    pub message: Seq<char>,
    pub pipeline: Seq<char>,
    pub return_handler: Seq<char>,
    pub return_message: Seq<char>,
    pub inner: Seq<char>,
}

impl View for Names {
    type V = NamesView;

    open spec fn view(&self) -> NamesView {
        NamesView {
            handler: self.handler@,
            message: self.message@,
            pipeline: self.pipeline@,
            return_handler: self.return_handler@,
            return_message: self.return_message@,
            inner: self.inner@,
        }
    }
}

/// The name for the callbacks that wait for an answer to this message.
pub open spec fn pipeline(message: Seq<char>) -> Seq<char> {
    "PIPELINE_"@ + message.map_values(|c: char| upper(c))
}

/// The name for the callbacks that wait for an answer to this message.
pub fn pipeline_of(message: &str) -> (res: String)
    ensures
        res@ == pipeline(message@),
{
    "PIPELINE_".to_owned().concat(upper_of(message).as_str())
}

/// The name for the message that holds the answer to this message, from a handler
/// whose fingerprint has this digest.
pub open spec fn return_message(message: Seq<char>, digest: Seq<u8>) -> Seq<char> {
    message + "_"@ + hex(digest) + "_ret"@
}

/// The names for the handler of this name and message, whose fingerprint has
/// this digest.
pub open spec fn names(handler: Seq<char>, message: Seq<char>, digest: Seq<u8>) -> NamesView {
    NamesView {
        handler,
        message,
        pipeline: pipeline(message),
        return_handler: "handle_"@ + return_message(message, digest),
        return_message: return_message(message, digest),
        inner: "inner_"@ + handler,
    }
}

impl Names {
    /// Makes up the names for a handler.
    pub fn new(handler: &str, message: &str, digest: &[u8]) -> (res: Names)
        ensures
            res@ == names(handler@, message@, digest@),
    {
        let return_message = message.to_owned().concat("_").concat(
            hex_of(digest).as_str(),
        ).concat("_ret");
        Names {
            handler: handler.to_owned(),
            message: message.to_owned(),
            pipeline: pipeline_of(message),
            return_handler: "handle_".to_owned().concat(return_message.as_str()),
            return_message,
            inner: "inner_".to_owned().concat(handler),
        }
    }
}

/// A handler is named by `handle_` and the name of its message.
pub proof fn handler_names_message(handler: Seq<char>, name: Seq<char>)
    ensures
        message(handler) == Ok::<_, HandlerError>(name) <==> handler == "handle_"@ + name,
{
    let prefix = "handle_"@;
    if handler == prefix + name {
        assert(handler.take(prefix.len() as int) =~= prefix);
        assert(handler.skip(prefix.len() as int) =~= name);
    }
    if message(handler) == Ok::<_, HandlerError>(name) {
        assert(handler =~= prefix + name);
    }
}

/// Two digits for each byte.
pub proof fn hex_len(bytes: Seq<u8>)
    ensures
        hex(bytes).len() == 2 * bytes.len(),
    decreases bytes.len(),
{
    if bytes.len() > 0 {
        hex_len(bytes.drop_last());
    }
}

/// No two byte strings are written alike in hexadecimal.
pub proof fn hex_is_injective(a: Seq<u8>, b: Seq<u8>)
    requires
        hex(a) == hex(b),
    ensures
        a == b,
    decreases a.len(),
{
    hex_len(a);
    hex_len(b);
    if a.len() > 0 {
        let x = hex(a.drop_last()).push(digit(a.last() as nat / 16));
        let y = hex(b.drop_last()).push(digit(b.last() as nat / 16));
        assert(hex(a) == x.push(digit(a.last() as nat % 16)));
        assert(hex(a).last() == digit(a.last() as nat % 16));
        assert(hex(b).last() == digit(b.last() as nat % 16));
        assert(hex(a).drop_last() =~= x);
        assert(hex(b).drop_last() =~= y);
        assert(x.last() == digit(a.last() as nat / 16));
        assert(y.last() == digit(b.last() as nat / 16));
        assert(x.drop_last() =~= hex(a.drop_last()));
        assert(y.drop_last() =~= hex(b.drop_last()));
        hex_is_injective(a.drop_last(), b.drop_last());
        assert(a =~= a.drop_last().push(a.last()));
        assert(b =~= b.drop_last().push(b.last()));
    } else {
        assert(a =~= b);
    }
}

/// The name of the message that holds the answer says which message it answers,
/// and for which version of its handler.
pub proof fn return_message_is_unique(
    handler_a: Seq<char>,
    message_a: Seq<char>,
    digest_a: Seq<u8>,
    handler_b: Seq<char>,
    message_b: Seq<char>,
    digest_b: Seq<u8>,
)
    requires
        digest_a.len() == 32,
        digest_b.len() == 32,
        names(handler_a, message_a, digest_a).return_message == names(
            handler_b,
            message_b,
            digest_b,
        ).return_message,
    ensures
        message_a == message_b,
        digest_a == digest_b,
{
    reveal_strlit("_");
    reveal_strlit("_ret");
    hex_len(digest_a);
    hex_len(digest_b);
    let n = message_a.len() as int;
    let a = names(handler_a, message_a, digest_a).return_message;
    let b = names(handler_b, message_b, digest_b).return_message;
    assert(a.len() == n + 69 && b.len() == message_b.len() + 69);
    assert(a.take(n) =~= message_a);
    assert(b.take(n) =~= message_b);
    assert(a.subrange(n + 1, n + 65) =~= hex(digest_a));
    assert(b.subrange(n + 1, n + 65) =~= hex(digest_b));
    hex_is_injective(digest_a, digest_b);
}

/// The name of the handler for the answer says which message was answered, and
/// for which version of its handler.
pub proof fn return_handler_is_unique(
    handler_a: Seq<char>,
    message_a: Seq<char>,
    digest_a: Seq<u8>,
    handler_b: Seq<char>,
    message_b: Seq<char>,
    digest_b: Seq<u8>,
)
    requires
        digest_a.len() == 32,
        digest_b.len() == 32,
        names(handler_a, message_a, digest_a).return_handler == names(
            handler_b,
            message_b,
            digest_b,
        ).return_handler,
    ensures
        message_a == message_b,
        digest_a == digest_b,
{
    let a = names(handler_a, message_a, digest_a);
    let b = names(handler_b, message_b, digest_b);
    let n = "handle_"@.len() as int;
    assert(a.return_handler.skip(n) =~= a.return_message);
    assert(b.return_handler.skip(n) =~= b.return_message);
    return_message_is_unique(handler_a, message_a, digest_a, handler_b, message_b, digest_b);
}

/// The handler for the answer is named for the message that holds the answer, so
/// the answer reaches it.
pub proof fn answer_reaches_handler(handler: Seq<char>, name: Seq<char>, digest: Seq<u8>)
    ensures
        ({
            let n = names(handler, name, digest);
            &&& n.return_handler == "handle_"@ + n.return_message
            &&& message(n.return_handler) == Ok::<_, HandlerError>(n.return_message)
        }),
{
    let n = names(handler, name, digest);
    handler_names_message(n.return_handler, n.return_message);
}

/// Texts that differ have different fingerprints.
pub proof fn fingerprint_is_injective(a: Seq<char>, b: Seq<char>)
    requires
        fingerprint(a) == fingerprint(b),
    ensures
        a == b,
{
    encode_utf8_decode_utf8(a);
    encode_utf8_decode_utf8(b);
    assert(decode_utf8(fingerprint(a)) == decode_utf8(fingerprint(b)));
}

/// Two handlers share the name of their answers' message, or of the handler for it,
/// only if they handle the same message and the digests of their whole texts are
/// the same.
pub proof fn versions_are_told_apart(
    handler_a: Seq<char>,
    text_a: Seq<char>,
    handler_b: Seq<char>,
    text_b: Seq<char>,
)
    requires
        message(handler_a) is Ok,
        message(handler_b) is Ok,
        sha256(fingerprint(text_a)).len() == 32,
        sha256(fingerprint(text_b)).len() == 32,
        ({
            let a = names(handler_a, message(handler_a)->Ok_0, sha256(fingerprint(text_a)));
            let b = names(handler_b, message(handler_b)->Ok_0, sha256(fingerprint(text_b)));
            a.return_message == b.return_message || a.return_handler == b.return_handler
        }),
    ensures
        handler_a == handler_b,
        sha256(fingerprint(text_a)) == sha256(fingerprint(text_b)),
{
    let message_a = message(handler_a)->Ok_0;
    let message_b = message(handler_b)->Ok_0;
    let digest_a = sha256(fingerprint(text_a));
    let digest_b = sha256(fingerprint(text_b));
    if names(handler_a, message_a, digest_a).return_message == names(
        handler_b,
        message_b,
        digest_b,
    ).return_message {
        return_message_is_unique(handler_a, message_a, digest_a, handler_b, message_b, digest_b);
    } else {
        return_handler_is_unique(handler_a, message_a, digest_a, handler_b, message_b, digest_b);
    }
    handler_names_message(handler_a, message_a);
    handler_names_message(handler_b, message_b);
}

/// No two of the items that are generated for a handler have the same name.
pub proof fn names_are_distinct(handler: Seq<char>, digest: Seq<u8>)
    requires
        message(handler) is Ok,
        digest.len() == 32,
    ensures
        ({
            let n = names(handler, message(handler)->Ok_0, digest);
            seq![n.handler, n.message, n.pipeline, n.return_handler, n.inner].no_duplicates()
        }),
{
    reveal_strlit("handle_");
    reveal_strlit("PIPELINE_");
    reveal_strlit("inner_");
    reveal_strlit("_");
    reveal_strlit("_ret");
    hex_len(digest);
    let n = names(handler, message(handler)->Ok_0, digest);
    let k = n.message.len();
    assert(n.handler.len() == k + 7);
    assert(n.pipeline.len() == k + 9);
    assert(n.return_handler.len() == k + 76);
    assert(n.inner.len() == k + 13);
}

/// A fingerprint is the UTF-8 form of a text: the whole of the text is read back from
/// it.
pub proof fn fingerprint_reads_back(text: Seq<char>)
    ensures
        valid_utf8(fingerprint(text)),
        decode_utf8(fingerprint(text)) == text,
{
    encode_utf8_valid_utf8(text);
    encode_utf8_decode_utf8(text);
}

/// The name for the callbacks is `PIPELINE_` and the message, letter by letter in upper
/// case.
pub proof fn pipeline_is_the_message_in_upper_case(message: Seq<char>, i: int)
    requires
        0 <= i < message.len(),
    ensures
        pipeline(message).len() == "PIPELINE_"@.len() + message.len(),
        "PIPELINE_"@.is_prefix_of(pipeline(message)),
        pipeline(Seq::empty()) == "PIPELINE_"@,
        ({
            let c = message[i];
            let d = pipeline(message)["PIPELINE_"@.len() + i];
            if 'a' <= c <= 'z' {
                d as int - 'A' as int == c as int - 'a' as int
            } else {
                d == c
            }
        }),
{
    assert(pipeline(message).take("PIPELINE_"@.len() as int) =~= "PIPELINE_"@);
    assert(pipeline(Seq::empty()) =~= "PIPELINE_"@);
    upper_moves_letters_only(message[i]);
}

/// The names follow from the name of the handler, its message and the digest of its
/// text: the inner handler is named for the handler, and the message that holds the
/// answer is the message, the digest in hexadecimal and `ret`, joined by underscores.
pub proof fn names_follow_the_handler(handler: Seq<char>, message: Seq<char>, digest: Seq<u8>)
    ensures
        ({
            let n = names(handler, message, digest);
            let r = n.return_message;
            let k = message.len() as int;
            let m = 2 * digest.len() as int;
            &&& n.handler == handler
            &&& n.message == message
            &&& n.pipeline == pipeline(message)
            &&& n.inner == "inner_"@ + handler
            &&& n.return_handler == "handle_"@ + r
            &&& r.len() == k + 1 + m + 4
            &&& r.take(k) == message
            &&& r.subrange(k, k + 1) == "_"@
            &&& forall|i: int|
                0 <= i < digest.len() ==> #[trigger] byte_in(r.subrange(k + 1, k + 1 + m), i)
                    == digest[i]
            &&& r.skip(k + 1 + m) == "_ret"@
        }),
{
    reveal_strlit("_");
    reveal_strlit("_ret");
    hex_reads_back(digest);
    let r = return_message(message, digest);
    let k = message.len() as int;
    let m = 2 * digest.len() as int;
    assert(r.take(k) =~= message);
    assert(r.subrange(k, k + 1) =~= "_"@);
    assert(r.subrange(k + 1, k + 1 + m) =~= hex(digest));
    assert(r.skip(k + 1 + m) =~= "_ret"@);
}

} // verus!
