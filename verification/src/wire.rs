//! How the values of each type travel between actors.
//!
//! The integer types and addresses are copied into the message. A value of any
//! other type is written to a memory cell, and the message holds the address of
//! the cell.
use vstd::arithmetic::power2::{lemma2_to64, lemma2_to64_rest, pow2};
use vstd::prelude::*;

use crate::error::HandlerError;
use crate::syntax::{PatType, PatTypeView};
use crate::text::{decimal, same};

verus! {

/// Whether a value of the type of this name is copied into messages.
pub open spec fn copied(ty: Seq<char>) -> bool {
    ||| ty == "Address"@
    ||| ty == "i8"@
    ||| ty == "u8"@
    ||| ty == "i16"@
    ||| ty == "u16"@
    ||| ty == "i32"@
    ||| ty == "u32"@
    ||| ty == "i64"@
    ||| ty == "u64"@
}

/// Whether a value of the type of this name is copied into messages.
pub fn is_copied(ty: &str) -> (res: bool)
    ensures
        res == copied(ty@),
{
    same(ty, "Address") || same(ty, "i8") || same(ty, "u8") || same(ty, "i16") || same(ty, "u16")
        || same(ty, "i32") || same(ty, "u32") || same(ty, "i64") || same(ty, "u64")
}

/// How many bytes of a message stand for a value of the type of this name.
pub open spec fn width(ty: Seq<char>) -> nat {
    if ty == "i64"@ || ty == "u64"@ {
        8
    } else {
        4
    }
}

/// How many bytes of a message stand for a value of the type of this name.
pub fn width_of(ty: &str) -> (res: u32)
    ensures
        res == width(ty@),
{
    if same(ty, "i64") || same(ty, "u64") {
        8
    } else {
        4
    }
}

/// The integer type whose bytes stand in a message for a copied value.
pub open spec fn min_equivalent(ty: Seq<char>) -> Seq<char> {
    if ty == "u8"@ || ty == "Address"@ || ty == "u16"@ || ty == "u32"@ {
        "u32"@
    } else if ty == "i8"@ || ty == "i16"@ || ty == "i32"@ {
        "i32"@
    } else if ty == "i64"@ {
        "i64"@
    } else if ty == "u64"@ {
        "u64"@
    } else {
        "u32"@
    }
}

/// The integer type whose bytes stand in a message for a copied value.
pub fn min_equivalent_of(ty: &str) -> (res: &'static str)
    ensures
        res@ == min_equivalent(ty@),
{
    if same(ty, "u8") || same(ty, "Address") || same(ty, "u16") || same(ty, "u32") {
        "u32"
    } else if same(ty, "i8") || same(ty, "i16") || same(ty, "i32") {
        "i32"
    } else if same(ty, "i64") {
        "i64"
    } else if same(ty, "u64") {
        "u64"
    } else {
        "u32"
    }
}

/// The size in bytes of one of the integer types that messages are made of.
pub open spec fn size(ty: Seq<char>) -> nat {
    if ty == "i32"@ || ty == "u32"@ {
        4
    } else {
        8
    }
}

/// A copied value takes the bytes of the integer that stands for it, and any
/// other value takes the bytes of the address of its cell.
pub proof fn width_is_size(ty: Seq<char>)
    ensures
        copied(ty) ==> width(ty) == size(min_equivalent(ty)),
        !copied(ty) ==> width(ty) == size("u32"@),
{
    reveal_strlit("Address");
    reveal_strlit("i8");
    reveal_strlit("u8");
    reveal_strlit("i16");
    reveal_strlit("u16");
    reveal_strlit("i32");
    reveal_strlit("u32");
    reveal_strlit("i64");
    reveal_strlit("u64");
    assert("i64"@[0] == 'i' && "i64"@[1] == '6' && "u64"@[0] == 'u' && "u64"@[1] == '6');
    assert("i32"@[1] == '3' && "u32"@[1] == '3' && "i16"@[1] == '1' && "u16"@[1] == '1');
}

/// The name of the type of an argument that is to be serialized.
pub open spec fn sent_type(arg: PatTypeView) -> Result<Seq<char>, HandlerError> {
    if arg.pat.ident is None {
        Err(HandlerError::UnnamedArgument)
    } else {
        match arg.ty.path {
            None => Err(HandlerError::UntypedArgument),
            Some(path) => if path.len() == 0 {
                Err(HandlerError::InvalidType)
            } else {
                Ok(path.last())
            },
        }
    }
}

/// The name of the type of an argument that is to be serialized.
pub fn sent_type_of(arg: &PatType) -> (res: Result<&str, HandlerError>)
    ensures
        match res {
            Ok(ty) => sent_type(arg.deep_view()) == Ok::<Seq<char>, HandlerError>(ty@),
            Err(e) => sent_type(arg.deep_view()) == Err::<Seq<char>, HandlerError>(e),
        },
{
    if arg.pat.ident.is_none() {
        return Err(HandlerError::UnnamedArgument);
    }
    match &arg.ty.path {
        None => Err(HandlerError::UntypedArgument),
        Some(path) => if path.len() == 0 {
            Err(HandlerError::InvalidType)
        } else {
            assert(path.deep_view().last() == path@.last()@);
            Ok(path[path.len() - 1].as_str())
        },
    }
}

/// The name of the integer type of this many bits, with a sign or without one.
pub open spec fn integer(signed: bool, bits: nat) -> Seq<char> {
    (if signed {
        "i"@
    } else {
        "u"@
    }) + decimal(bits)
}

/// Whether a number is a value of the integer type of this many bits.
pub open spec fn fits(value: int, signed: bool, bits: nat) -> bool {
    if signed {
        -pow2((bits - 1) as nat) <= value < pow2((bits - 1) as nat)
    } else {
        0 <= value < pow2(bits)
    }
}

/// What a cast to the integer type of this many bits makes of a number: it keeps the
/// lowest bits.
pub open spec fn cast(value: int, signed: bool, bits: nat) -> int {
    let low = value % (pow2(bits) as int);
    if signed && low >= pow2((bits - 1) as nat) {
        low - pow2(bits)
    } else {
        low
    }
}

proof fn integer_names()
    ensures
        integer(true, 8) == "i8"@,
        integer(true, 16) == "i16"@,
        integer(true, 32) == "i32"@,
        integer(true, 64) == "i64"@,
        integer(false, 8) == "u8"@,
        integer(false, 16) == "u16"@,
        integer(false, 32) == "u32"@,
        integer(false, 64) == "u64"@,
{
    reveal_strlit("i");
    reveal_strlit("u");
    reveal_strlit("i8");
    reveal_strlit("i16");
    reveal_strlit("i32");
    reveal_strlit("i64");
    reveal_strlit("u8");
    reveal_strlit("u16");
    reveal_strlit("u32");
    reveal_strlit("u64");
    reveal_with_fuel(decimal, 3);
    assert(decimal(8) =~= seq!['8']);
    assert(decimal(16) =~= seq!['1', '6']);
    assert(decimal(32) =~= seq!['3', '2']);
    assert(decimal(64) =~= seq!['6', '4']);
    assert(integer(true, 8) =~= "i8"@);
    assert(integer(true, 16) =~= "i16"@);
    assert(integer(true, 32) =~= "i32"@);
    assert(integer(true, 64) =~= "i64"@);
    assert(integer(false, 8) =~= "u8"@);
    assert(integer(false, 16) =~= "u16"@);
    assert(integer(false, 32) =~= "u32"@);
    assert(integer(false, 64) =~= "u64"@);
}

/// The copied types are addresses and the integers of 8, 16, 32 and 64 bits, with a
/// sign and without one, and no others.
pub proof fn integers_are_copied(ty: Seq<char>)
    ensures
        copied(ty) <==> ty == "Address"@ || exists|signed: bool, bits: nat|
            (bits == 8 || bits == 16 || bits == 32 || bits == 64) && ty == #[trigger] integer(
                signed,
                bits,
            ),
{
    integer_names();
    let signed = ty == "i8"@ || ty == "i16"@ || ty == "i32"@ || ty == "i64"@;
    let bits: nat = if ty == "i8"@ || ty == "u8"@ {
        8
    } else if ty == "i16"@ || ty == "u16"@ {
        16
    } else if ty == "i32"@ || ty == "u32"@ {
        32
    } else {
        64
    };
    if copied(ty) && ty != "Address"@ {
        assert(ty == integer(signed, bits)) by {
            type_names_differ();
        }
    }
}

proof fn type_names_differ()
    ensures
        seq![
            "Address"@,
            "i8"@,
            "u8"@,
            "i16"@,
            "u16"@,
            "i32"@,
            "u32"@,
            "i64"@,
            "u64"@,
        ].no_duplicates(),
{
    reveal_strlit("Address");
    reveal_strlit("i8");
    reveal_strlit("u8");
    reveal_strlit("i16");
    reveal_strlit("u16");
    reveal_strlit("i32");
    reveal_strlit("u32");
    reveal_strlit("i64");
    reveal_strlit("u64");
    assert("i8"@[0] == 'i' && "u8"@[0] == 'u' && "i16"@[0] == 'i' && "u16"@[0] == 'u');
    assert("i32"@[0] == 'i' && "u32"@[0] == 'u' && "i64"@[0] == 'i' && "u64"@[0] == 'u');
    assert("i16"@[1] == '1' && "u16"@[1] == '1' && "i32"@[1] == '3' && "u32"@[1] == '3');
    assert("i64"@[1] == '6' && "u64"@[1] == '6');
}

/// A copied integer travels as the integer type of the same sign whose bytes stand for
/// it, which has at least as many bits: every value of its type, cast to that type and
/// back, is the same value again. An address travels as the unsigned integer type of
/// its own four bytes.
pub proof fn copied_values_travel_whole(signed: bool, bits: nat, value: int)
    requires
        bits == 8 || bits == 16 || bits == 32 || bits == 64,
        fits(value, signed, bits),
    ensures
        ({
            let ty = integer(signed, bits);
            &&& copied(ty)
            &&& 8 * width(ty) >= bits
            &&& 8 * width(ty) == if bits < 32 { 32 } else { bits }
            &&& min_equivalent(ty) == integer(signed, 8 * width(ty))
            &&& fits(value, signed, 8 * width(ty))
            &&& cast(cast(value, signed, 8 * width(ty)), signed, bits) == value
        }),
        copied("Address"@),
        8 * width("Address"@) == u32::BITS,
        min_equivalent("Address"@) == integer(false, 8 * width("Address"@)),
{
    integer_names();
    type_names_differ();
    lemma2_to64();
    lemma2_to64_rest();
    let names = seq![
        "Address"@,
        "i8"@,
        "u8"@,
        "i16"@,
        "u16"@,
        "i32"@,
        "u32"@,
        "i64"@,
        "u64"@,
    ];
    assert(names[0] == "Address"@ && names[1] == "i8"@ && names[2] == "u8"@ && names[3] == "i16"@);
    assert(names[4] == "u16"@ && names[5] == "i32"@ && names[6] == "u32"@ && names[7] == "i64"@);
    assert(names[8] == "u64"@);
    let ty = integer(signed, bits);
    assert(8 * width(ty) == if bits < 32 { 32nat } else { bits });
    let wide = 8 * width(ty);
    cast_keeps(value, signed, wide);
    cast_keeps(value, signed, bits);
}

proof fn cast_keeps(value: int, signed: bool, bits: nat)
    requires
        bits == 8 || bits == 16 || bits == 32 || bits == 64,
        fits(value, signed, bits),
    ensures
        cast(value, signed, bits) == value,
{
    lemma2_to64();
    lemma2_to64_rest();
    let m = pow2(bits) as int;
    assert(m == 2 * pow2((bits - 1) as nat));
    if value >= 0 {
        assert(value % m == value) by (nonlinear_arith)
            requires
                0 <= value < m,
        ;
    } else {
        assert(value % m == value + m) by (nonlinear_arith)
            requires
                -m <= value < 0,
        ;
    }
}

/// A value of a type that is not copied takes the bytes of the address of its cell.
pub proof fn cells_take_an_address(ty: Seq<char>)
    requires
        ty != "Address"@,
        forall|signed: bool, bits: nat|
            (bits == 8 || bits == 16 || bits == 32 || bits == 64) ==> ty != #[trigger] integer(
                signed,
                bits,
            ),
    ensures
        !copied(ty),
        width(ty) == width("Address"@),
        8 * width(ty) == u32::BITS,
{
    integers_are_copied(ty);
    integer_names();
    type_names_differ();
    let names = seq![
        "Address"@,
        "i8"@,
        "u8"@,
        "i16"@,
        "u16"@,
        "i32"@,
        "u32"@,
        "i64"@,
        "u64"@,
    ];
    assert(names[0] == "Address"@ && names[7] == "i64"@ && names[8] == "u64"@);
    assert(integer(true, 64) == "i64"@ && integer(false, 64) == "u64"@);
}

/// An argument can be sent exactly if it is an identifier pattern whose type is a path
/// with a segment. It is known by the last of them, and by nothing else.
pub proof fn sent_types_are_last_segments(
    arg: PatTypeView,
    front: Seq<Seq<char>>,
    last: Seq<char>,
)
    ensures
        arg.pat.ident is None <==> sent_type(arg) == Err::<Seq<char>, _>(
            HandlerError::UnnamedArgument,
        ),
        arg.pat.ident is Some && arg.ty.path is None <==> sent_type(arg) == Err::<Seq<char>, _>(
            HandlerError::UntypedArgument,
        ),
        arg.pat.ident is Some && arg.ty.path == Some(Seq::<Seq<char>>::empty()) <==> sent_type(arg)
            == Err::<Seq<char>, _>(HandlerError::InvalidType),
        arg.pat.ident is Some && arg.ty.path == Some(front.push(last)) ==> sent_type(arg) == Ok::<
            _,
            HandlerError,
        >(last),
{
    if arg.ty.path is Some && arg.ty.path->Some_0.len() == 0 {
        assert(arg.ty.path->Some_0 =~= Seq::empty());
    }
}

} // verus!
