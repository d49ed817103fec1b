//! The interface between the host and an extension: what an extension
//! exports, and how the values that cross the boundary are lifted from and
//! lowered to the integers and bytes that travel.

use vstd::prelude::*;
use vstd::string::StrSliceExecFns;
use vstd::utf8::{
    decode_utf8, encode_utf8, encode_utf8_decode_utf8, encode_utf8_valid_utf8, valid_utf8,
};

verus! {

/// What an extension exports.
pub trait Guest {
    /// A schema that describes the command line of the extension.
    fn spec() -> String;

    /// Runs the extension on `args` and returns its exit status.
    fn run(args: Vec<String>) -> u8;
}

/// The integer `value` reduced to its low 32 bits, read as a signed number.
pub open spec fn wrap_i32(value: int) -> i32 {
    let low = value % 0x1_0000_0000;
    if low < 0x8000_0000 {
        low as i32
    } else {
        (low - 0x1_0000_0000) as i32
    }
}

/// Values that are lowered to a 32-bit integer when they cross the boundary.
pub trait AsI32 {
    /// The 32-bit integer that stands for the value.
    spec fn as_i32_spec(self) -> i32;

    /// Lowers the value to a 32-bit integer.
    fn as_i32(self) -> (value: i32)
        ensures
            value == self.as_i32_spec(),
    ;
}

impl<'a, T: Copy + AsI32> AsI32 for &'a T {
    open spec fn as_i32_spec(self) -> i32 {
        (*self).as_i32_spec()
    }

    fn as_i32(self) -> (value: i32) {
        (*self).as_i32()
    }
}

impl AsI32 for i32 {
    open spec fn as_i32_spec(self) -> i32 {
        self
    }

    fn as_i32(self) -> (value: i32) {
        self as i32
    }
}

impl AsI32 for u32 {
    open spec fn as_i32_spec(self) -> i32 {
        wrap_i32(self as int)
    }

    fn as_i32(self) -> (value: i32) {
        let value = self as i32;
        proof {
            assert(self < 0x8000_0000u32 ==> value == self) by (bit_vector)
                requires
                    value == self as i32,
            ;
            assert(self >= 0x8000_0000u32 ==> value == self - 0x1_0000_0000) by (bit_vector)
                requires
                    value == self as i32,
            ;
        }
        value
    }
}

impl AsI32 for i16 {
    open spec fn as_i32_spec(self) -> i32 {
        self as i32
    }

    fn as_i32(self) -> (value: i32)
        ensures
            value == self,
    {
        self as i32
    }
}

impl AsI32 for u16 {
    open spec fn as_i32_spec(self) -> i32 {
        self as i32
    }

    fn as_i32(self) -> (value: i32)
        ensures
            value == self,
    {
        self as i32
    }
}

impl AsI32 for i8 {
    open spec fn as_i32_spec(self) -> i32 {
        self as i32
    }

    fn as_i32(self) -> (value: i32)
        ensures
            value == self,
    {
        self as i32
    }
}

impl AsI32 for u8 {
    open spec fn as_i32_spec(self) -> i32 {
        self as i32
    }

    fn as_i32(self) -> (value: i32)
        ensures
            value == self,
    {
        self as i32
    }
}

/// The code point of `letter`.
fn code_point(letter: char) -> (value: i32)
    ensures
        value == letter as i32,
        value == letter as u32,
        0 <= value <= 0x10FFFF,
{
    letter as i32
}

impl AsI32 for char {
    open spec fn as_i32_spec(self) -> i32 {
        self as i32
    }

    fn as_i32(self) -> (value: i32)
        ensures
            value == self as u32,
            0 <= value <= 0x10FFFF,
    {
        code_point(self)
    }
}

impl AsI32 for usize {
    open spec fn as_i32_spec(self) -> i32 {
        wrap_i32(self as int)
    }

    fn as_i32(self) -> (value: i32) {
        let value = self as i32;
        proof {
            let wide = self as u64;
            let low = wide % 0x1_0000_0000;
            assert(value == wide as i32) by (bit_vector)
                requires
                    value == self as i32,
                    wide == self as u64,
            ;
            assert(low < 0x8000_0000u64 ==> value == low) by (bit_vector)
                requires
                    value == wide as i32,
                    low == wide % 0x1_0000_0000u64,
            ;
            assert(low >= 0x8000_0000u64 ==> value == low - 0x1_0000_0000) by (bit_vector)
                requires
                    value == wide as i32,
                    low == wide % 0x1_0000_0000u64,
            ;
        }
        value
    }
}

/// Lowers `t` to a 32-bit integer.
pub fn as_i32<T: AsI32>(t: T) -> (value: i32)
    ensures
        value == t.as_i32_spec(),
{
    t.as_i32()
}

/// Every integer is lowered to its own low 32 bits, read as a signed number.
pub proof fn lemma_lowering_wraps()
    ensures
        forall|value: i32| #[trigger] value.as_i32_spec() == wrap_i32(value as int),
        forall|value: u32| #[trigger] value.as_i32_spec() == wrap_i32(value as int),
        forall|value: i16| #[trigger] value.as_i32_spec() == wrap_i32(value as int),
        forall|value: u16| #[trigger] value.as_i32_spec() == wrap_i32(value as int),
        forall|value: i8| #[trigger] value.as_i32_spec() == wrap_i32(value as int),
        forall|value: u8| #[trigger] value.as_i32_spec() == wrap_i32(value as int),
        forall|value: usize| #[trigger] value.as_i32_spec() == wrap_i32(value as int),
{
}

/// A character is lowered to its code point.
pub proof fn lemma_lowering_of_char(letter: char)
    ensures
        letter.as_i32_spec() == letter as u32,
        letter.as_i32_spec() == wrap_i32(letter as u32 as int),
        0 <= letter.as_i32_spec() <= 0x10FFFF,
{
}

/// Lifts a byte from the 32-bit integer it travelled in: its low eight bits.
pub fn lift_u8(raw: i32) -> (byte: u8)
    ensures
        byte == raw % 0x100,
{
    let byte = raw as u8;
    assert(byte == raw % 0x100) by (bit_vector)
        requires
            byte == raw as u8,
    ;
    byte
}

/// Lifts an unsigned 64-bit integer from the signed one it travelled in: the
/// same 64 bits.
pub fn lift_u64(raw: i64) -> (value: u64)
    ensures
        raw >= 0 ==> value == raw,
        raw < 0 ==> value == raw + 0x1_0000_0000_0000_0000,
{
    let value = raw as u64;
    assert(raw >= 0 ==> value == raw) by (bit_vector)
        requires
            value == raw as u64,
    ;
    assert(raw < 0 ==> value == raw + 0x1_0000_0000_0000_0000) by (bit_vector)
        requires
            value == raw as u64,
    ;
    value
}

/// Calls `String::from_utf8` of the standard library. The contract is taken
/// from its documentation and is not proved here: the bytes become a string
/// exactly if they are valid UTF-8, and the string then consists of these
/// very bytes.
#[verifier::external_body]
fn from_utf8(bytes: Vec<u8>) -> (text: Option<String>)
    ensures
        match text {
            Some(text) => valid_utf8(bytes@) && encode_utf8(text@) == bytes@,
            None => !valid_utf8(bytes@),
        },
{
    match String::from_utf8(bytes) {
        Ok(text) => Some(text),
        Err(_) => None,
    }
}

/// Lifts a string from the bytes it travelled in.
pub fn string_lift(bytes: Vec<u8>) -> (text: String)
    requires
        valid_utf8(bytes@),
    ensures
        text@ == decode_utf8(bytes@),
        encode_utf8(text@) == bytes@,
{
    let text = from_utf8(bytes).unwrap();
    proof {
        encode_utf8_decode_utf8(text@);
    }
    text
}

/// The schema of the extension `T`, as the bytes in which it travels to the
/// host.
pub fn export_spec<T: Guest>() -> (bytes: Vec<u8>)
    ensures
        valid_utf8(bytes@),
        exists|schema: String| call_ensures(T::spec, (), schema) && bytes@ == encode_utf8(schema@),
{
    let schema = T::spec();
    let bytes = schema.as_str().as_bytes_vec();
    proof {
        encode_utf8_valid_utf8(schema@);
    }
    bytes
}

/// Runs the extension `T` on `args` and lowers its exit status to the integer
/// in which it travels to the host.
pub fn export_run<T: Guest>(args: Vec<String>) -> (status: i32)
    ensures
        0 <= status <= 255,
        exists|code: u8| call_ensures(T::run, (args,), code) && status == code,
{
    let code = T::run(args);
    as_i32(code)
}

} // verus!
