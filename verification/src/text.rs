//! Pieces of text: names, numbers and repeated lines.
use vstd::prelude::*;

verus! {

/// `String::push`: appends the character at the end of the string.
pub assume_specification[ String::push ](s: &mut String, c: char)
    ensures
        final(s)@ == old(s)@.push(c),
;

/// Whether two strings hold the same characters.
pub fn same(a: &str, b: &str) -> (res: bool)
    ensures
        res == (a@ == b@),
{
    a.to_owned() == b.to_owned()
}

/// A piece of text with more text before and behind it.
pub open spec fn around(before: Seq<char>, piece: Seq<char>, after: Seq<char>) -> Seq<char> {
    before + piece + after
}

/// Whether a piece of text stands somewhere in the whole.
pub open spec fn within(piece: Seq<char>, whole: Seq<char>) -> bool {
    exists|before: Seq<char>, after: Seq<char>| whole == #[trigger] around(before, piece, after)
}

/// A piece of a piece is a piece of the whole.
pub proof fn within_within(a: Seq<char>, b: Seq<char>, c: Seq<char>)
    requires
        within(a, b),
        within(b, c),
    ensures
        within(a, c),
{
    let (x, y) = choose|x: Seq<char>, y: Seq<char>| b == #[trigger] around(x, a, y);
    let (u, v) = choose|u: Seq<char>, v: Seq<char>| c == #[trigger] around(u, b, v);
    assert(c =~= around(u + x, a, y + v));
}

/// Whether `whole` puts `before` and `after` around whatever piece it is given.
pub open spec fn holds(
    whole: spec_fn(Seq<char>) -> Seq<char>,
    before: Seq<char>,
    after: Seq<char>,
) -> bool {
    forall|piece: Seq<char>| #[trigger] whole(piece) == around(before, piece, after)
}

/// Whether a text has one place for a piece, and depends on the piece in no other way.
pub open spec fn holds_once(whole: spec_fn(Seq<char>) -> Seq<char>) -> bool {
    exists|before: Seq<char>, after: Seq<char>| #[trigger] holds(whole, before, after)
}

/// A piece with one place in a text that has one place in a whole has one place in
/// the whole.
pub proof fn holds_once_within(
    inner: spec_fn(Seq<char>) -> Seq<char>,
    outer: spec_fn(Seq<char>) -> Seq<char>,
    whole: spec_fn(Seq<char>) -> Seq<char>,
)
    requires
        holds_once(inner),
        holds_once(outer),
        forall|piece: Seq<char>| #[trigger] whole(piece) == outer(inner(piece)),
    ensures
        holds_once(whole),
{
    let (x, y) = choose|x: Seq<char>, y: Seq<char>| #[trigger] holds(inner, x, y);
    let (u, v) = choose|u: Seq<char>, v: Seq<char>| #[trigger] holds(outer, u, v);
    assert forall|piece: Seq<char>| #[trigger] whole(piece) == around(u + x, piece, y + v) by {
        assert(inner(piece) == around(x, piece, y));
        assert(outer(inner(piece)) == around(u, inner(piece), v));
        assert(around(u, around(x, piece, y), v) =~= around(u + x, piece, y + v));
    }
    assert(holds(whole, u + x, y + v));
}

/// A piece stands in a text that has a place for it.
pub proof fn held_is_within(whole: spec_fn(Seq<char>) -> Seq<char>, piece: Seq<char>)
    requires
        holds_once(whole),
    ensures
        within(piece, whole(piece)),
{
    let (x, y) = choose|x: Seq<char>, y: Seq<char>| #[trigger] holds(whole, x, y);
    assert(whole(piece) == around(x, piece, y));
}

/// The hexadecimal digit of `n`, in lower case.
pub open spec fn digit(n: nat) -> char {
    if n < 10 {
        (48 + n) as char
    } else {
        (87 + n) as char
    }
}

fn digit_of(n: u8) -> (res: char)
    requires
        n < 16,
    ensures
        res == digit(n as nat),
{
    if n < 10 {
        (48 + n) as char
    } else {
        (87 + n) as char
    }
}

/// `n` written in decimal, without leading zeros.
pub open spec fn decimal(n: nat) -> Seq<char>
    decreases n,
{
    if n < 10 {
        seq![digit(n)]
    } else {
        decimal(n / 10).push(digit(n % 10))
    }
}

/// Writes `n` in decimal.
pub fn decimal_of(n: u32) -> (res: String)
    ensures
        res@ == decimal(n as nat),
    decreases n,
{
    let mut res = if n < 10 {
        String::new()
    } else {
        decimal_of(n / 10)
    };
    res.push(digit_of((n % 10) as u8));
    res
}

/// The bytes written as two lower case hexadecimal digits each.
pub open spec fn hex(bytes: Seq<u8>) -> Seq<char>
    decreases bytes.len(),
{
    if bytes.len() == 0 {
        Seq::empty()
    } else {
        hex(bytes.drop_last()).push(digit(bytes.last() as nat / 16)).push(
            digit(bytes.last() as nat % 16),
        )
    }
}

/// Writes the bytes in hexadecimal.
pub fn hex_of(bytes: &[u8]) -> (res: String)
    ensures
        res@ == hex(bytes@),
{
    let mut res = String::new();
    for i in 0..bytes.len()
        invariant
            res@ == hex(bytes@.take(i as int)),
    {
        assert(bytes@.take(i + 1).drop_last() =~= bytes@.take(i as int));
        res.push(digit_of(bytes[i] / 16));
        res.push(digit_of(bytes[i] % 16));
    }
    assert(bytes@.take(bytes@.len() as int) =~= bytes@);
    res
}

/// The upper case form of an ASCII letter; other characters stay as they are.
pub open spec fn upper(c: char) -> char {
    if 'a' <= c <= 'z' {
        (c as u32 - 32) as char
    } else {
        c
    }
}

/// Puts the ASCII letters of a string in upper case.
pub fn upper_of(s: &str) -> (res: String)
    ensures
        res@ == s@.map_values(|c: char| upper(c)),
{
    let mut res = String::new();
    for c in it: s.chars()
        invariant
            res@ == s@.take(it.index()).map_values(|c: char| upper(c)),
            it.seq() == s@,
    {
        let u: char = if 'a' <= c && c <= 'z' {
            (c as u8 - 32) as char
        } else {
            c
        };
        res.push(u);
        assert(s@.take(it.index() + 1).map_values(|c: char| upper(c)) =~= s@.take(it.index()).map_values(|c: char| upper(c)).push(upper(c)));
    }
    assert(s@.take(s@.len() as int) =~= s@);
    res
}

/// The pieces, each with the end of a line behind it.
pub open spec fn lines(pieces: Seq<Seq<char>>) -> Seq<char>
    decreases pieces.len(),
{
    if pieces.len() == 0 {
        Seq::empty()
    } else {
        lines(pieces.drop_last()) + pieces.last() + "\n"@
    }
}

/// Writes the pieces, each with the end of a line behind it.
pub fn lines_of(pieces: &Vec<String>) -> (res: String)
    ensures
        res@ == lines(pieces.deep_view()),
{
    let ghost all = pieces.deep_view();
    let mut res = String::new();
    for i in 0..pieces.len()
        invariant
            all == pieces.deep_view(),
            res@ == lines(all.take(i as int)),
    {
        assert(all.take(i + 1).drop_last() =~= all.take(i as int));
        assert(all.take(i + 1).last() == pieces@[i as int]@);
        res = res.concat(pieces[i].as_str()).concat("\n");
    }
    assert(all.take(all.len() as int) =~= all);
    res
}

/// The pieces with commas between them.
pub open spec fn listed(pieces: Seq<Seq<char>>) -> Seq<char>
    decreases pieces.len(),
{
    if pieces.len() == 0 {
        Seq::empty()
    } else if pieces.len() == 1 {
        pieces[0]
    } else {
        listed(pieces.drop_last()) + ", "@ + pieces.last()
    }
}

/// Writes the pieces with commas between them.
pub fn listed_of(pieces: &Vec<String>) -> (res: String)
    ensures
        res@ == listed(pieces.deep_view()),
{
    let ghost all = pieces.deep_view();
    let mut res = String::new();
    for i in 0..pieces.len()
        invariant
            all == pieces.deep_view(),
            res@ == listed(all.take(i as int)),
    {
        assert(all.take(i + 1).drop_last() =~= all.take(i as int));
        assert(all.take(i + 1).last() == pieces@[i as int]@);
        if i == 0 {
            res = pieces[i].clone();
        } else {
            res = res.concat(", ").concat(pieces[i].as_str());
        }
    }
    assert(all.take(all.len() as int) =~= all);
    res
}

/// A statement that binds a variable to a clone of its value.
pub open spec fn clone_line(name: Seq<char>) -> Seq<char> {
    "let "@ + name + " = "@ + name + ".clone();\n"@
}

/// One `clone_line` for each of the names, in order.
pub open spec fn clone_lines(names: Seq<Seq<char>>) -> Seq<char>
    decreases names.len(),
{
    if names.len() == 0 {
        Seq::empty()
    } else {
        clone_lines(names.drop_last()) + clone_line(names.last())
    }
}

/// Writes a `clone_line` for each of the names from the one at `from` on.
pub fn clone_lines_of(names: &Vec<&str>, from: usize) -> (res: String)
    requires
        from <= names@.len(),
    ensures
        res@ == clone_lines(names.deep_view().skip(from as int)),
{
    let ghost all = names.deep_view();
    let mut res = String::new();
    assert(all.subrange(from as int, from as int) =~= Seq::empty());
    for i in from..names.len()
        invariant
            from <= names@.len(),
            all == names.deep_view(),
            res@ == clone_lines(all.subrange(from as int, i as int)),
    {
        let name = names[i];
        assert(all.subrange(from as int, i + 1).drop_last() =~= all.subrange(
            from as int,
            i as int,
        ));
        assert(all.subrange(from as int, i + 1).last() == name@);
        res = res.concat(
            "let ".to_owned().concat(name).concat(" = ").concat(name).concat(
                ".clone();\n",
            ).as_str(),
        );
    }
    assert(all.subrange(from as int, all.len() as int) =~= all.skip(from as int));
    res
}

/// What is to be done once every argument is at hand: the first of the names and
/// then all of them are cloned again, and `callback` follows.
pub open spec fn finish(names: Seq<Seq<char>>, callback: Seq<char>) -> Seq<char> {
    clone_line(names[0]) + clone_lines(names) + callback
}

/// Writes what is to be done once every argument is at hand.
pub fn finish_of(names: &Vec<&str>, callback: &str) -> (res: String)
    requires
        names@.len() > 0,
    ensures
        res@ == finish(names.deep_view(), callback@),
{
    let name = names[0];
    let all = clone_lines_of(names, 0);
    assert(names.deep_view().skip(0) =~= names.deep_view());
    "let ".to_owned().concat(name).concat(" = ").concat(name).concat(".clone();\n").concat(
        all.as_str(),
    ).concat(callback)
}

/// A digit is the character that stands at its place in the row of digits, `0` to `9`
/// and then `a` to `f`.
pub proof fn digit_has_its_place(n: nat)
    requires
        n < 16,
    ensures
        n < 10 ==> '0' <= digit(n) <= '9' && digit(n) as int - '0' as int == n,
        n >= 10 ==> 'a' <= digit(n) <= 'f' && digit(n) as int - 'a' as int == n - 10,
{
}

/// The number that a row of decimal digits stands for.
pub open spec fn number_in(digits: Seq<char>) -> int
    decreases digits.len(),
{
    if digits.len() == 0 {
        0
    } else {
        10 * number_in(digits.drop_last()) + (digits.last() as int - '0' as int)
    }
}

/// A number is read back from its digits, of which none stands in front needlessly.
pub proof fn decimal_reads_back(n: nat)
    ensures
        number_in(decimal(n)) == n,
        decimal(n).len() > 0,
        forall|i: int| 0 <= i < decimal(n).len() ==> '0' <= #[trigger] decimal(n)[i] <= '9',
        decimal(n)[0] == '0' ==> decimal(n).len() == 1,
    decreases n,
{
    if n < 10 {
        assert(decimal(n).drop_last() =~= Seq::empty());
        assert(number_in(decimal(n).drop_last()) == 0);
    } else {
        decimal_reads_back(n / 10);
        assert(decimal(n).drop_last() =~= decimal(n / 10));
        assert(decimal(n)[0] == decimal(n / 10)[0]);
        if decimal(n / 10)[0] == '0' {
            assert(decimal(n / 10).drop_last() =~= Seq::empty());
            assert(number_in(decimal(n / 10).drop_last()) == 0);
            assert(n / 10 == 0);
        }
    }
}

/// The number that a lower case hexadecimal digit stands for.
pub open spec fn hex_value(c: char) -> int {
    if '0' <= c <= '9' {
        c as int - '0' as int
    } else if 'a' <= c <= 'f' {
        c as int - 'a' as int + 10
    } else {
        -1
    }
}

/// The byte that the pair of hexadecimal digits at `2 * i` stands for.
pub open spec fn byte_in(digits: Seq<char>, i: int) -> int {
    let high = hex_value(digits[2 * i]);
    let low = hex_value(digits[2 * i + 1]);
    if high < 0 || low < 0 {
        -1
    } else {
        16 * high + low
    }
}

/// The bytes are read back from their hexadecimal digits, two for each byte.
pub proof fn hex_reads_back(bytes: Seq<u8>)
    ensures
        hex(bytes).len() == 2 * bytes.len(),
        forall|i: int| 0 <= i < bytes.len() ==> #[trigger] byte_in(hex(bytes), i) == bytes[i],
    decreases bytes.len(),
{
    if bytes.len() > 0 {
        let front = bytes.drop_last();
        hex_reads_back(front);
        assert forall|i: int| 0 <= i < bytes.len() implies #[trigger] byte_in(hex(bytes), i)
            == bytes[i] by {
            if i < front.len() {
                assert(byte_in(hex(front), i) == front[i]);
                assert(hex(bytes)[2 * i] == hex(front)[2 * i]);
                assert(hex(bytes)[2 * i + 1] == hex(front)[2 * i + 1]);
            }
        }
    }
}

/// A lower case ASCII letter becomes the upper case letter of the same place in the
/// alphabet, and no other character changes.
pub proof fn upper_moves_letters_only(c: char)
    ensures
        'a' <= c <= 'z' ==> 'A' <= upper(c) <= 'Z' && upper(c) as int - 'A' as int == c as int
            - 'a' as int,
        !('a' <= c <= 'z') ==> upper(c) == c,
        upper(upper(c)) == upper(c),
{
}

/// Lines of two lists are the lines of the first and then those of the second, and a
/// piece makes a line by itself.
pub proof fn lines_join(a: Seq<Seq<char>>, b: Seq<Seq<char>>, piece: Seq<char>)
    ensures
        lines(a + b) == lines(a) + lines(b),
        lines(seq![piece]) == piece + "\n"@,
    decreases b.len(),
{
    assert(seq![piece].drop_last() =~= Seq::<Seq<char>>::empty());
    assert(lines(seq![piece].drop_last()) =~= Seq::empty());
    assert(lines(seq![piece]) =~= piece + "\n"@);
    if b.len() == 0 {
        assert(a + b =~= a);
        assert(lines(a) + lines(b) =~= lines(a));
    } else {
        lines_join(a, b.drop_last(), piece);
        assert((a + b).drop_last() =~= a + b.drop_last());
        assert(lines(a + b) =~= lines(a) + lines(b));
    }
}

/// Two lists that are not empty are listed with a comma between them, and a piece is
/// listed as it is.
pub proof fn listed_join(a: Seq<Seq<char>>, b: Seq<Seq<char>>, piece: Seq<char>)
    ensures
        a.len() > 0 && b.len() > 0 ==> listed(a + b) == listed(a) + ", "@ + listed(b),
        a.len() == 0 ==> listed(a + b) == listed(b),
        listed(seq![piece]) == piece,
        listed(Seq::empty()) == Seq::<char>::empty(),
    decreases b.len(),
{
    if a.len() == 0 {
        assert(a + b =~= b);
    } else if b.len() == 1 {
        assert((a + b).drop_last() =~= a);
        assert(listed(a + b) =~= listed(a) + ", "@ + listed(b));
    } else if b.len() > 1 {
        listed_join(a, b.drop_last(), piece);
        assert((a + b).drop_last() =~= a + b.drop_last());
        assert(listed(a + b) =~= listed(a) + ", "@ + listed(b));
    }
}

/// Two lists of variables are cloned one after the other, and a variable is bound to
/// a clone of itself.
pub proof fn clone_lines_join(a: Seq<Seq<char>>, b: Seq<Seq<char>>, name: Seq<char>)
    ensures
        clone_lines(a + b) == clone_lines(a) + clone_lines(b),
        clone_lines(seq![name]) == "let "@ + name + " = "@ + name + ".clone();\n"@,
    decreases b.len(),
{
    assert(seq![name].drop_last() =~= Seq::<Seq<char>>::empty());
    assert(clone_lines(seq![name].drop_last()) =~= Seq::empty());
    assert(clone_lines(seq![name]) =~= clone_line(name));
    if b.len() == 0 {
        assert(a + b =~= a);
        assert(clone_lines(a) + clone_lines(b) =~= clone_lines(a));
    } else {
        clone_lines_join(a, b.drop_last(), name);
        assert((a + b).drop_last() =~= a + b.drop_last());
        assert(clone_lines(a + b) =~= clone_lines(a) + clone_lines(b));
    }
}

/// Before the callback the first variable is cloned, and then all of them are, in
/// order and once each; nothing else is done.
pub proof fn finish_clones_all(names: Seq<Seq<char>>, callback: Seq<char>)
    requires
        names.len() > 0,
    ensures
        finish(names, callback) == clone_lines(seq![names[0]] + names) + callback,
{
    clone_lines_join(seq![names[0]], names, names[0]);
}

} // verus!
