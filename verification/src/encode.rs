//! Argument values and their wire encoding: integers least significant byte
//! first, booleans as one byte, byte sequences and strings behind a four-byte
//! length, a public key as its 32 bytes; the fields of a bundle one after
//! another, in declaration order, with nothing in between.

use vstd::prelude::*;
use vstd::utf8::{decode_utf8, encode_utf8, valid_utf8};
use crate::arg_types::ArgType;

verus! {

/// The value of one argument. There is a value for every type of the table
/// but the floating-point and the 256-bit ones: an instruction that declares
/// one of those is called with a ready payload.
#[derive(Debug, Clone, PartialEq, Eq)]
pub enum ArgValue {
    Bytes(Vec<u8>),
    String(String),
    PublicKey([u8; 32]),
    Bool(bool),
    U8(u8),
    I8(i8),
    U16(u16),
    I16(i16),
    U32(u32),
    I32(i32),
    U64(u64),
    I64(i64),
    U128(u128),
    I128(i128),
}

/// An [`ArgValue`] with its contents as sequences.
pub enum ArgValueView {
    Bytes(Seq<u8>),
    String(Seq<char>),
    PublicKey([u8; 32]),
    Bool(bool),
    U8(u8),
    I8(i8),
    U16(u16),
    I16(i16),
    U32(u32),
    I32(i32),
    U64(u64),
    I64(i64),
    U128(u128),
    I128(i128),
}

impl View for ArgValue {
    type V = ArgValueView;

    open spec fn view(&self) -> ArgValueView {
        match self {
            ArgValue::Bytes(bytes) => ArgValueView::Bytes(bytes@),
            ArgValue::String(text) => ArgValueView::String(text@),
            ArgValue::PublicKey(key) => ArgValueView::PublicKey(*key),
            ArgValue::Bool(flag) => ArgValueView::Bool(*flag),
            ArgValue::U8(n) => ArgValueView::U8(*n),
            ArgValue::I8(n) => ArgValueView::I8(*n),
            ArgValue::U16(n) => ArgValueView::U16(*n),
            ArgValue::I16(n) => ArgValueView::I16(*n),
            ArgValue::U32(n) => ArgValueView::U32(*n),
            ArgValue::I32(n) => ArgValueView::I32(*n),
            ArgValue::U64(n) => ArgValueView::U64(*n),
            ArgValue::I64(n) => ArgValueView::I64(*n),
            ArgValue::U128(n) => ArgValueView::U128(*n),
            ArgValue::I128(n) => ArgValueView::I128(*n),
        }
    }
}

/// The views of a list of values.
pub open spec fn views_of(values: Seq<ArgValue>) -> Seq<ArgValueView> {
    values.map_values(|value: ArgValue| value@)
}

/// 256 to the power of `width`: the number of values that `width` bytes hold.
pub open spec fn radix(width: nat) -> nat
    decreases width,
{
    if width == 0 {
        1
    } else {
        256 * radix((width - 1) as nat)
    }
}

/// The `width` low bytes of a number, least significant first.
pub open spec fn le_bytes(value: nat, width: nat) -> Seq<u8>
    decreases width,
{
    if width == 0 {
        Seq::empty()
    } else {
        seq![(value % 256) as u8] + le_bytes(value / 256, (width - 1) as nat)
    }
}

/// The unsigned number with the bit pattern of a signed one of `width` bytes.
pub open spec fn twos_complement(value: int, width: nat) -> nat {
    if value >= 0 {
        value as nat
    } else {
        (value + radix(width)) as nat
    }
}

/// A sequence of bytes behind its length in four bytes.
pub open spec fn length_prefixed(bytes: Seq<u8>) -> Seq<u8> {
    le_bytes(bytes.len(), 4) + bytes
}

impl ArgValueView {
    /// The declared type that the value is of.
    pub open spec fn arg_type(self) -> ArgType {
        match self {
            ArgValueView::Bytes(_) => ArgType::Bytes,
            ArgValueView::String(_) => ArgType::String,
            ArgValueView::PublicKey(_) => ArgType::PublicKey,
            ArgValueView::Bool(_) => ArgType::Bool,
            ArgValueView::U8(_) => ArgType::U8,
            ArgValueView::I8(_) => ArgType::I8,
            ArgValueView::U16(_) => ArgType::U16,
            ArgValueView::I16(_) => ArgType::I16,
            ArgValueView::U32(_) => ArgType::U32,
            ArgValueView::I32(_) => ArgType::I32,
            ArgValueView::U64(_) => ArgType::U64,
            ArgValueView::I64(_) => ArgType::I64,
            ArgValueView::U128(_) => ArgType::U128,
            ArgValueView::I128(_) => ArgType::I128,
        }
    }

    /// Whether the value has an encoding: a length must fit in four bytes.
    pub open spec fn encodable(self) -> bool {
        match self {
            ArgValueView::Bytes(bytes) => bytes.len() <= u32::MAX,
            ArgValueView::String(text) => encode_utf8(text).len() <= u32::MAX,
            _ => true,
        }
    }

    /// The encoding of the value.
    pub open spec fn encoded(self) -> Seq<u8> {
        match self {
            ArgValueView::Bytes(bytes) => length_prefixed(bytes),
            ArgValueView::String(text) => length_prefixed(encode_utf8(text)),
            ArgValueView::PublicKey(key) => key@,
            ArgValueView::Bool(flag) => seq![if flag { 1u8 } else { 0u8 }],
            ArgValueView::U8(n) => le_bytes(n as nat, 1),
            ArgValueView::I8(n) => le_bytes(twos_complement(n as int, 1), 1),
            ArgValueView::U16(n) => le_bytes(n as nat, 2),
            ArgValueView::I16(n) => le_bytes(twos_complement(n as int, 2), 2),
            ArgValueView::U32(n) => le_bytes(n as nat, 4),
            ArgValueView::I32(n) => le_bytes(twos_complement(n as int, 4), 4),
            ArgValueView::U64(n) => le_bytes(n as nat, 8),
            ArgValueView::I64(n) => le_bytes(twos_complement(n as int, 8), 8),
            ArgValueView::U128(n) => le_bytes(n as nat, 16),
            ArgValueView::I128(n) => le_bytes(twos_complement(n as int, 16), 16),
        }
    }
}

/// Whether every value of a bundle has an encoding.
pub open spec fn bundle_encodable(values: Seq<ArgValueView>) -> bool {
    forall|i: int| 0 <= i < values.len() ==> (#[trigger] values[i]).encodable()
}

/// The encoding of a bundle: those of its values, in order.
pub open spec fn encoded_bundle(values: Seq<ArgValueView>) -> Seq<u8>
    decreases values.len(),
{
    if values.len() == 0 {
        Seq::empty()
    } else {
        encoded_bundle(values.drop_last()) + values.last().encoded()
    }
}

/// The number that a sequence of bytes holds, least significant byte first.
pub open spec fn le_value(bytes: Seq<u8>) -> nat
    decreases bytes.len(),
{
    if bytes.len() == 0 {
        0
    } else {
        bytes[0] as nat + 256 * le_value(bytes.drop_first())
    }
}

/// The signed number of `width` bytes with the bit pattern of an unsigned one.
pub open spec fn from_twos_complement(value: nat, width: nat) -> int {
    if 2 * value < radix(width) {
        value as int
    } else {
        value - radix(width)
    }
}

/// The key that holds the given 32 bytes.
pub open spec fn key_of(bytes: Seq<u8>) -> [u8; 32] {
    choose|key: [u8; 32]| key@ == bytes
}

/// What a reader finds at the front of `bytes` where a length-prefixed
/// sequence is due: the sequence, and how many bytes it took with its length.
pub open spec fn decoded_prefixed(bytes: Seq<u8>) -> Option<(Seq<u8>, int)> {
    if bytes.len() < 4 {
        None
    } else {
        let end = 4 + le_value(bytes.take(4)) as int;
        if bytes.len() < end {
            None
        } else {
            Some((bytes.subrange(4, end), end))
        }
    }
}

/// What a reader finds at the front of `bytes` where a number of `width`
/// bytes is due.
pub open spec fn decoded_number(bytes: Seq<u8>, width: nat) -> Option<nat> {
    if bytes.len() < width {
        None
    } else {
        Some(le_value(bytes.take(width as int)))
    }
}

/// What a reader finds at the front of `bytes` where a value of the given
/// type is due: the value, and how many bytes it took. This is the rule by
/// which the called program reads its arguments.
pub open spec fn decoded_value(arg_type: ArgType, bytes: Seq<u8>) -> Option<(ArgValueView, int)> {
    match arg_type {
        ArgType::Bytes => match decoded_prefixed(bytes) {
            Some((body, taken)) => Some((ArgValueView::Bytes(body), taken)),
            None => None,
        },
        ArgType::String => match decoded_prefixed(bytes) {
            Some((body, taken)) => if valid_utf8(body) {
                Some((ArgValueView::String(decode_utf8(body)), taken))
            } else {
                None
            },
            None => None,
        },
        ArgType::PublicKey => if bytes.len() < 32 {
            None
        } else {
            Some((ArgValueView::PublicKey(key_of(bytes.take(32))), 32))
        },
        ArgType::Bool => if bytes.len() < 1 {
            None
        } else if bytes[0] == 0 {
            Some((ArgValueView::Bool(false), 1))
        } else if bytes[0] == 1 {
            Some((ArgValueView::Bool(true), 1))
        } else {
            None
        },
        ArgType::U8 => match decoded_number(bytes, 1) {
            Some(n) => Some((ArgValueView::U8(n as u8), 1)),
            None => None,
        },
        ArgType::I8 => match decoded_number(bytes, 1) {
            Some(n) => Some((ArgValueView::I8(from_twos_complement(n, 1) as i8), 1)),
            None => None,
        },
        ArgType::U16 => match decoded_number(bytes, 2) {
            Some(n) => Some((ArgValueView::U16(n as u16), 2)),
            None => None,
        },
        ArgType::I16 => match decoded_number(bytes, 2) {
            Some(n) => Some((ArgValueView::I16(from_twos_complement(n, 2) as i16), 2)),
            None => None,
        },
        ArgType::U32 => match decoded_number(bytes, 4) {
            Some(n) => Some((ArgValueView::U32(n as u32), 4)),
            None => None,
        },
        ArgType::I32 => match decoded_number(bytes, 4) {
            Some(n) => Some((ArgValueView::I32(from_twos_complement(n, 4) as i32), 4)),
            None => None,
        },
        ArgType::U64 => match decoded_number(bytes, 8) {
            Some(n) => Some((ArgValueView::U64(n as u64), 8)),
            None => None,
        },
        ArgType::I64 => match decoded_number(bytes, 8) {
            Some(n) => Some((ArgValueView::I64(from_twos_complement(n, 8) as i64), 8)),
            None => None,
        },
        ArgType::U128 => match decoded_number(bytes, 16) {
            Some(n) => Some((ArgValueView::U128(n as u128), 16)),
            None => None,
        },
        ArgType::I128 => match decoded_number(bytes, 16) {
            Some(n) => Some((ArgValueView::I128(from_twos_complement(n, 16) as i128), 16)),
            None => None,
        },
        _ => None,
    }
}

/// What a reader makes of `bytes` where a bundle with fields of the given
/// types is due: the values, where the bytes hold exactly those and nothing
/// after them.
pub open spec fn decoded_bundle(types: Seq<ArgType>, bytes: Seq<u8>) -> Option<Seq<ArgValueView>>
    decreases types.len(),
{
    if types.len() == 0 {
        if bytes.len() == 0 {
            Some(Seq::empty())
        } else {
            None
        }
    } else {
        match decoded_value(types.first(), bytes) {
            None => None,
            Some((value, taken)) => match decoded_bundle(types.drop_first(), bytes.skip(taken)) {
                None => None,
                Some(values) => Some(seq![value] + values),
            },
        }
    }
}

/// The types of a list of values.
pub open spec fn types_of(values: Seq<ArgValueView>) -> Seq<ArgType> {
    values.map_values(|value: ArgValueView| value.arg_type())
}

/// The numbers of values that the widths in use hold.
pub proof fn lemma_radix_values()
    ensures
        radix(1) == 0x100,
        radix(2) == 0x1_0000,
        radix(4) == 0x1_0000_0000,
        radix(8) == 0x1_0000_0000_0000_0000,
        radix(16) == 0x1_0000_0000_0000_0000_0000_0000_0000_0000,
{
    reveal_with_fuel(radix, 17);
}

/// A number written in `width` bytes takes `width` bytes, and reads back as
/// itself where `width` bytes can hold it.
pub proof fn lemma_le_round_trip(value: nat, width: nat)
    ensures
        le_bytes(value, width).len() == width,
        value < radix(width) ==> le_value(le_bytes(value, width)) == value,
    decreases width,
{
    if width > 0 {
        let rest = le_bytes(value / 256, (width - 1) as nat);
        lemma_le_round_trip(value / 256, (width - 1) as nat);
        let bytes = le_bytes(value, width);
        assert(bytes.drop_first() =~= rest);
        assert(bytes[0] == (value % 256) as u8);
        if value < radix(width) {
            assert(value / 256 < radix((width - 1) as nat));
        }
    }
}

/// A signed number of `width` bytes reads back from its two's complement.
pub proof fn lemma_twos_complement_round_trip(value: int, width: nat)
    requires
        -(radix(width) as int) <= 2 * value < radix(width),
    ensures
        twos_complement(value, width) < radix(width),
        from_twos_complement(twos_complement(value, width), width) == value,
{
}

/// What stands at the front of a sequence is what was put there.
proof fn lemma_front(front: Seq<u8>, rest: Seq<u8>)
    ensures
        (front + rest).take(front.len() as int) == front,
        (front + rest).skip(front.len() as int) == rest,
{
    assert((front + rest).take(front.len() as int) =~= front);
    assert((front + rest).skip(front.len() as int) =~= rest);
}

/// A length-prefixed sequence reads back as itself, whatever follows it.
proof fn lemma_prefixed_round_trip(body: Seq<u8>, rest: Seq<u8>)
    requires
        body.len() <= u32::MAX,
    ensures
        decoded_prefixed(length_prefixed(body) + rest) == Some((body, 4 + body.len() as int)),
        length_prefixed(body).len() == 4 + body.len(),
{
    lemma_radix_values();
    lemma_le_round_trip(body.len(), 4);
    let bytes = length_prefixed(body) + rest;
    assert(bytes.take(4) =~= le_bytes(body.len(), 4));
    assert(bytes.subrange(4, 4 + body.len() as int) =~= body);
}

/// A number of `width` bytes reads back as itself, whatever follows it.
proof fn lemma_number_round_trip(value: nat, width: nat, rest: Seq<u8>)
    requires
        value < radix(width),
    ensures
        decoded_number(le_bytes(value, width) + rest, width) == Some(value),
        le_bytes(value, width).len() == width,
{
    lemma_le_round_trip(value, width);
    lemma_front(le_bytes(value, width), rest);
}

/// Reading a value back: an encoded value, whatever follows it, is read as
/// that value, and the reader takes exactly the bytes of its encoding.
pub proof fn lemma_value_round_trip(value: ArgValueView, rest: Seq<u8>)
    requires
        value.encodable(),
    ensures
        decoded_value(value.arg_type(), value.encoded() + rest) == Some(
            (value, value.encoded().len() as int),
        ),
{
    broadcast use
        vstd::utf8::encode_utf8_valid_utf8,
        vstd::utf8::encode_utf8_decode_utf8,
        vstd::array::array_len_matches_n,
        vstd::array::axiom_array_ext_equal,
    ;

    lemma_radix_values();
    let bytes = value.encoded() + rest;
    match value {
        ArgValueView::Bytes(body) => {
            lemma_prefixed_round_trip(body, rest);
        },
        ArgValueView::String(text) => {
            lemma_prefixed_round_trip(encode_utf8(text), rest);
        },
        ArgValueView::PublicKey(key) => {
            lemma_front(key@, rest);
            assert(key_of(key@)@ == key@);
            assert(key_of(key@) == key);
        },
        ArgValueView::Bool(flag) => {
            assert(bytes[0] == (if flag { 1u8 } else { 0u8 }));
        },
        ArgValueView::U8(n) => {
            lemma_number_round_trip(n as nat, 1, rest);
        },
        ArgValueView::I8(n) => {
            lemma_twos_complement_round_trip(n as int, 1);
            lemma_number_round_trip(twos_complement(n as int, 1), 1, rest);
        },
        ArgValueView::U16(n) => {
            lemma_number_round_trip(n as nat, 2, rest);
        },
        ArgValueView::I16(n) => {
            lemma_twos_complement_round_trip(n as int, 2);
            lemma_number_round_trip(twos_complement(n as int, 2), 2, rest);
        },
        ArgValueView::U32(n) => {
            lemma_number_round_trip(n as nat, 4, rest);
        },
        ArgValueView::I32(n) => {
            lemma_twos_complement_round_trip(n as int, 4);
            lemma_number_round_trip(twos_complement(n as int, 4), 4, rest);
        },
        ArgValueView::U64(n) => {
            lemma_number_round_trip(n as nat, 8, rest);
        },
        ArgValueView::I64(n) => {
            lemma_twos_complement_round_trip(n as int, 8);
            lemma_number_round_trip(twos_complement(n as int, 8), 8, rest);
        },
        ArgValueView::U128(n) => {
            lemma_number_round_trip(n as nat, 16, rest);
        },
        ArgValueView::I128(n) => {
            lemma_twos_complement_round_trip(n as int, 16);
            lemma_number_round_trip(twos_complement(n as int, 16), 16, rest);
        },
    }
}

/// The encoding of a bundle begins with that of its first value.
proof fn lemma_encoded_bundle_front(values: Seq<ArgValueView>)
    requires
        values.len() > 0,
    ensures
        encoded_bundle(values) == values.first().encoded() + encoded_bundle(values.drop_first()),
    decreases values.len(),
{
    if values.len() == 1 {
        assert(values.drop_last() =~= Seq::empty());
        assert(values.drop_first() =~= Seq::empty());
        assert(encoded_bundle(values) =~= values.first().encoded() + encoded_bundle(
            values.drop_first(),
        ));
    } else {
        lemma_encoded_bundle_front(values.drop_last());
        assert(values.drop_last().drop_first() =~= values.drop_first().drop_last());
        assert(values.drop_last().first() == values.first());
        assert(values.drop_first().last() == values.last());
        assert(encoded_bundle(values) =~= values.first().encoded() + encoded_bundle(
            values.drop_first(),
        ));
    }
}

/// Round trip: a bundle that is encoded and then read back by the rule of
/// [`decoded_bundle`], with the types of its values, gives the values that
/// went in: the same bytes in a byte sequence, the same characters in a
/// string, the same number in an integer.
pub proof fn lemma_bundle_round_trip(values: Seq<ArgValueView>)
    requires
        bundle_encodable(values),
    ensures
        decoded_bundle(types_of(values), encoded_bundle(values)) == Some(values),
    decreases values.len(),
{
    if values.len() == 0 {
        assert(values =~= Seq::empty());
    } else {
        let first = values.first();
        let others = values.drop_first();
        assert(first.encodable());
        assert forall|i: int| 0 <= i < others.len() implies (#[trigger] others[i]).encodable() by {
            assert(others[i] == values[i + 1]);
        }
        lemma_encoded_bundle_front(values);
        lemma_value_round_trip(first, encoded_bundle(others));
        lemma_front(first.encoded(), encoded_bundle(others));
        lemma_bundle_round_trip(others);
        assert(types_of(values).first() == first.arg_type());
        assert(types_of(values).drop_first() =~= types_of(others));
        assert(seq![first] + others =~= values);
    }
}

/// `borsh::to_vec` on a `Vec<u8>`: the length as a `u32`, least significant
/// byte first, then the bytes; an error where the length does not fit.
#[verifier::external_body]
fn borsh_bytes(value: &Vec<u8>) -> (out: Option<Vec<u8>>)
    ensures
        out is Some <==> value@.len() <= u32::MAX,
        out is Some ==> out.unwrap()@ == length_prefixed(value@),
{
    borsh::to_vec(value).ok()
}

/// `borsh::to_vec` on a `String`: its UTF-8 bytes, encoded as a byte sequence
/// is.
#[verifier::external_body]
fn borsh_string(value: &String) -> (out: Option<Vec<u8>>)
    ensures
        out is Some <==> encode_utf8(value@).len() <= u32::MAX,
        out is Some ==> out.unwrap()@ == length_prefixed(encode_utf8(value@)),
{
    borsh::to_vec(value).ok()
}

/// `borsh::to_vec` on a `[u8; 32]`: the 32 bytes, with no length before them.
/// A public key is encoded as the array it holds.
#[verifier::external_body]
fn borsh_key(value: &[u8; 32]) -> (out: Option<Vec<u8>>)
    ensures
        out is Some,
        out.unwrap()@ == value@,
{
    borsh::to_vec(value).ok()
}

/// `borsh::to_vec` on a `bool`: one byte, 1 for true and 0 for false.
#[verifier::external_body]
fn borsh_bool(value: bool) -> (out: Option<Vec<u8>>)
    ensures
        out is Some,
        out.unwrap()@ == seq![if value { 1u8 } else { 0u8 }],
{
    borsh::to_vec(&value).ok()
}

/// `borsh::to_vec` on a `u8`: the byte itself.
#[verifier::external_body]
fn borsh_u8(value: u8) -> (out: Option<Vec<u8>>)
    ensures
        out is Some,
        out.unwrap()@ == le_bytes(value as nat, 1),
{
    borsh::to_vec(&value).ok()
}

/// `borsh::to_vec` on an `i8`: the one byte of its two's complement.
#[verifier::external_body]
fn borsh_i8(value: i8) -> (out: Option<Vec<u8>>)
    ensures
        out is Some,
        out.unwrap()@ == le_bytes(twos_complement(value as int, 1), 1),
{
    borsh::to_vec(&value).ok()
}

/// `borsh::to_vec` on a `u16`: its two bytes, least significant first.
#[verifier::external_body]
fn borsh_u16(value: u16) -> (out: Option<Vec<u8>>)
    ensures
        out is Some,
        out.unwrap()@ == le_bytes(value as nat, 2),
{
    borsh::to_vec(&value).ok()
}

/// `borsh::to_vec` on an `i16`: the two bytes of its two's complement, least
/// significant first.
#[verifier::external_body]
fn borsh_i16(value: i16) -> (out: Option<Vec<u8>>)
    ensures
        out is Some,
        out.unwrap()@ == le_bytes(twos_complement(value as int, 2), 2),
{
    borsh::to_vec(&value).ok()
}

/// `borsh::to_vec` on a `u32`: its four bytes, least significant first.
#[verifier::external_body]
fn borsh_u32(value: u32) -> (out: Option<Vec<u8>>)
    ensures
        out is Some,
        out.unwrap()@ == le_bytes(value as nat, 4),
{
    borsh::to_vec(&value).ok()
}

/// `borsh::to_vec` on an `i32`: the four bytes of its two's complement, least
/// significant first.
#[verifier::external_body]
fn borsh_i32(value: i32) -> (out: Option<Vec<u8>>)
    ensures
        out is Some,
        out.unwrap()@ == le_bytes(twos_complement(value as int, 4), 4),
{
    borsh::to_vec(&value).ok()
}

/// `borsh::to_vec` on a `u64`: its eight bytes, least significant first.
#[verifier::external_body]
fn borsh_u64(value: u64) -> (out: Option<Vec<u8>>)
    ensures
        out is Some,
        out.unwrap()@ == le_bytes(value as nat, 8),
{
    borsh::to_vec(&value).ok()
}

/// `borsh::to_vec` on an `i64`: the eight bytes of its two's complement,
/// least significant first.
#[verifier::external_body]
fn borsh_i64(value: i64) -> (out: Option<Vec<u8>>)
    ensures
        out is Some,
        out.unwrap()@ == le_bytes(twos_complement(value as int, 8), 8),
{
    borsh::to_vec(&value).ok()
}

/// `borsh::to_vec` on a `u128`: its sixteen bytes, least significant first.
#[verifier::external_body]
fn borsh_u128(value: u128) -> (out: Option<Vec<u8>>)
    ensures
        out is Some,
        out.unwrap()@ == le_bytes(value as nat, 16),
{
    borsh::to_vec(&value).ok()
}

/// `borsh::to_vec` on an `i128`: the sixteen bytes of its two's complement,
/// least significant first.
#[verifier::external_body]
fn borsh_i128(value: i128) -> (out: Option<Vec<u8>>)
    ensures
        out is Some,
        out.unwrap()@ == le_bytes(twos_complement(value as int, 16), 16),
{
    borsh::to_vec(&value).ok()
}

impl ArgValue {
    /// The declared type that the value is of.
    pub fn arg_type(&self) -> (arg_type: ArgType)
        ensures
            arg_type == self@.arg_type(),
    {
        match self {
            ArgValue::Bytes(_) => ArgType::Bytes,
            ArgValue::String(_) => ArgType::String,
            ArgValue::PublicKey(_) => ArgType::PublicKey,
            ArgValue::Bool(_) => ArgType::Bool,
            ArgValue::U8(_) => ArgType::U8,
            ArgValue::I8(_) => ArgType::I8,
            ArgValue::U16(_) => ArgType::U16,
            ArgValue::I16(_) => ArgType::I16,
            ArgValue::U32(_) => ArgType::U32,
            ArgValue::I32(_) => ArgType::I32,
            ArgValue::U64(_) => ArgType::U64,
            ArgValue::I64(_) => ArgType::I64,
            ArgValue::U128(_) => ArgType::U128,
            ArgValue::I128(_) => ArgType::I128,
        }
    }
}

/// Encodes one value; `None` where it has no encoding.
pub fn encode_value(value: &ArgValue) -> (out: Option<Vec<u8>>)
    ensures
        out is Some <==> value@.encodable(),
        out is Some ==> out.unwrap()@ == value@.encoded(),
{
    match value {
        ArgValue::Bytes(bytes) => borsh_bytes(bytes),
        ArgValue::String(text) => borsh_string(text),
        ArgValue::PublicKey(key) => borsh_key(key),
        ArgValue::Bool(flag) => borsh_bool(*flag),
        ArgValue::U8(n) => borsh_u8(*n),
        ArgValue::I8(n) => borsh_i8(*n),
        ArgValue::U16(n) => borsh_u16(*n),
        ArgValue::I16(n) => borsh_i16(*n),
        ArgValue::U32(n) => borsh_u32(*n),
        ArgValue::I32(n) => borsh_i32(*n),
        ArgValue::U64(n) => borsh_u64(*n),
        ArgValue::I64(n) => borsh_i64(*n),
        ArgValue::U128(n) => borsh_u128(*n),
        ArgValue::I128(n) => borsh_i128(*n),
    }
}

/// Encodes a bundle: its values in order, with nothing in between; `None`
/// where one of them has no encoding.
pub fn encode_bundle(values: &[ArgValue]) -> (out: Option<Vec<u8>>)
    ensures
        out is Some <==> bundle_encodable(views_of(values@)),
        out is Some ==> out.unwrap()@ == encoded_bundle(views_of(values@)),
{
    let mut bytes: Vec<u8> = Vec::new();
    let mut i: usize = 0;
    while i < values.len()
        invariant
            i <= values@.len(),
            bundle_encodable(views_of(values@).take(i as int)),
            bytes@ == encoded_bundle(views_of(values@).take(i as int)),
        decreases values@.len() - i,
    {
        let ghost before = views_of(values@).take(i as int);
        let ghost after = views_of(values@).take(i + 1);
        proof {
            assert(after.drop_last() =~= before);
            assert(after.last() == values@[i as int]@);
        }
        match encode_value(&values[i]) {
            Some(mut field) => {
                bytes.append(&mut field);
            },
            None => {
                assert(!views_of(values@)[i as int].encodable());
                return None;
            },
        }
        assert forall|k: int| 0 <= k < after.len() implies (#[trigger] after[k]).encodable() by {
            if k < i {
                assert(after[k] == before[k]);
            }
        }
        i = i + 1;
    }
    assert(views_of(values@).take(i as int) =~= views_of(values@));
    Some(bytes)
}

} // verus!
