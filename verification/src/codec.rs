//! The Borsh encoding of event payloads.
//!
//! Integers are little-endian and fixed-width, byte vectors and strings carry
//! a 32-bit length prefix, and the fields of a record follow one another with
//! nothing in between. The `borsh` crate encodes and decodes the plain values;
//! everything that is built from them is put together here.
use vstd::prelude::*;

pub use vstd::view::View;

verus! {

/// The `width` low bytes of `n`, least significant byte first.
pub open spec fn le_bytes(n: nat, width: nat) -> Seq<u8>
    decreases width,
{
    if width == 0 {
        Seq::empty()
    } else {
        seq![(n % 256) as u8] + le_bytes(n / 256, (width - 1) as nat)
    }
}

/// The number of values that `width` bytes can tell apart.
pub open spec fn le_bound(width: nat) -> nat
    decreases width,
{
    if width == 0 {
        1
    } else {
        256 * le_bound((width - 1) as nat)
    }
}

/// The encoding of a byte vector: its length in four bytes, then the bytes.
pub open spec fn bytes_encoding(bytes: Seq<u8>) -> Seq<u8> {
    le_bytes(bytes.len(), 4) + bytes
}

/// An encoded integer takes exactly as many bytes as its type is wide.
pub proof fn le_bytes_len(n: nat, width: nat)
    ensures
        le_bytes(n, width).len() == width,
    decreases width,
{
    if width > 0 {
        le_bytes_len(n / 256, (width - 1) as nat);
    }
}

/// Two integers that fit in `width` bytes and are encoded alike are equal.
pub proof fn le_bytes_injective(a: nat, b: nat, width: nat)
    requires
        a < le_bound(width),
        b < le_bound(width),
        le_bytes(a, width) == le_bytes(b, width),
    ensures
        a == b,
    decreases width,
{
    if width > 0 {
        let rest = (width - 1) as nat;
        let x = le_bytes(a, width);
        let y = le_bytes(b, width);
        assert(x[0] == (a % 256) as u8);
        assert(y[0] == (b % 256) as u8);
        assert(x.skip(1) =~= le_bytes(a / 256, rest));
        assert(y.skip(1) =~= le_bytes(b / 256, rest));
        le_bytes_injective(a / 256, b / 256, rest);
    }
}

/// The bytes of an encoding, as contracts speak of them.
pub type EncodedBytes = Seq<u8>;

/// The words of a message, as contracts speak of them.
pub type MessageText = Seq<char>;

/// The error of an input that encodes no value of the wanted type. `message`
/// says in words what is wrong with the input.
#[derive(Debug, Clone, PartialEq, Eq)]
pub struct DecodeError {
    pub message: String,
}

/// A value that an event can carry.
///
/// `encoding` is the value's Borsh encoding. `encodable` leaves out the values
/// that have none, such as a vector whose length does not fit in 32 bits.
pub trait EncodePayload: Sized {
    spec fn encodable(&self) -> bool;

    spec fn encoding(&self) -> EncodedBytes;

    /// Encodes the value.
    fn to_borsh(&self) -> (bytes: Vec<u8>)
        requires
            self.encodable(),
        ensures
            bytes@ == self.encoding(),
    ;
}

/// What decoding the whole of `bytes` gives: a value with this encoding, or an
/// error exactly if no value has it.
pub open spec fn decodes_to<T: EncodePayload>(bytes: Seq<u8>, res: Result<T, DecodeError>) -> bool {
    match res {
        Ok(value) => value.encodable() && value.encoding() == bytes,
        Err(_) => forall|value: T| value.encodable() ==> #[trigger] value.encoding() != bytes,
    }
}

/// A value that can be read back from the payload of an event. Its view is the
/// data that is read back.
pub trait DecodePayload: EncodePayload + View {
    /// What is said of bytes that encode no value of this type.
    spec fn refusal(bytes: EncodedBytes) -> MessageText;

    /// Decodes a value from the whole of `bytes`.
    fn from_borsh(bytes: &[u8]) -> (res: Result<Self, DecodeError>)
        ensures
            decodes_to(bytes@, res),
            res matches Err(e) ==> e.message@ == Self::refusal(bytes@),
    ;

    /// Values that are encoded alike hold the same data.
    proof fn encoding_injective(a: Self, b: Self)
        requires
            a.encodable(),
            b.encodable(),
            a.encoding() == b.encoding(),
        ensures
            a@ == b@,
    ;
}

/// What encoding wrote, decoding reads back: it always succeeds, and the value
/// that comes back holds the data of the one that went in.
pub proof fn decoding_an_encoding_succeeds<T: DecodePayload>(value: T, res: Result<T, DecodeError>)
    requires
        value.encodable(),
        decodes_to(value.encoding(), res),
    ensures
        res is Ok,
        res->Ok_0.encodable(),
        res->Ok_0.encoding() == value.encoding(),
        res->Ok_0@ == value@,
{
    T::encoding_injective(value, res->Ok_0);
}

/// What `borsh::from_slice` says of bytes that it refuses to read as a value of
/// the wanted type, which is given by its name.
pub uninterp spec fn decoding_error(wanted: Seq<char>, bytes: Seq<u8>) -> Seq<char>;

/// Calls `borsh::to_vec` on a `u8`. The byte is written as it is; writing to a
/// vector does not fail.
#[verifier::external_body]
fn borsh_u8(value: u8) -> (bytes: Vec<u8>)
    ensures
        bytes@ == seq![value],
{
    borsh::to_vec(&value).unwrap()
}

/// Calls `borsh::from_slice` for a `u8`. The input is that one byte; an empty
/// input and bytes left over are errors. The error comes as its text, which
/// depends on the input alone.
#[verifier::external_body]
fn borsh_read_u8(bytes: &[u8]) -> (res: Result<u8, String>)
    ensures
        match res {
            Ok(value) => bytes@ == seq![value],
            Err(text) => bytes@.len() != 1 && text@ == decoding_error("u8"@, bytes@),
        },
{
    borsh::from_slice(bytes).map_err(|e| e.to_string())
}

impl EncodePayload for u8 {
    open spec fn encodable(&self) -> bool {
        true
    }

    open spec fn encoding(&self) -> Seq<u8> {
        seq![*self]
    }

    fn to_borsh(&self) -> (bytes: Vec<u8>) {
        borsh_u8(*self)
    }
}

impl DecodePayload for u8 {
    open spec fn refusal(bytes: Seq<u8>) -> Seq<char> {
        decoding_error("u8"@, bytes)
    }

    fn from_borsh(bytes: &[u8]) -> (res: Result<Self, DecodeError>)
        ensures
            res is Ok <==> bytes@.len() == 1,
    {
        match borsh_read_u8(bytes) {
            Ok(value) => Ok(value),
            Err(message) => {
                proof {
                    assert forall|value: u8| value.encodable() implies #[trigger] value.encoding()
                        != bytes@ by {
                        assert(value.encoding().len() == 1);
                    }
                }
                Err(DecodeError { message })
            },
        }
    }

    proof fn encoding_injective(a: Self, b: Self) {
        assert(a.encoding()[0] == a);
        assert(b.encoding()[0] == b);
    }
}

/// Calls `borsh::to_vec` on 32 bytes. They are written as they are, without a
/// length; writing to a vector does not fail.
#[verifier::external_body]
fn borsh_array(value: &[u8; 32]) -> (bytes: Vec<u8>)
    ensures
        bytes@ == value@,
{
    borsh::to_vec(value).unwrap()
}

/// Calls `borsh::from_slice` for 32 bytes. The input is those bytes; a shorter
/// input and bytes left over are errors. The error comes as its text, which
/// depends on the input alone.
#[verifier::external_body]
fn borsh_read_array(bytes: &[u8]) -> (res: Result<[u8; 32], String>)
    ensures
        match res {
            Ok(value) => bytes@ == value@,
            Err(text) => bytes@.len() != 32 && text@ == decoding_error("[u8; 32]"@, bytes@),
        },
{
    borsh::from_slice(bytes).map_err(|e| e.to_string())
}

impl EncodePayload for [u8; 32] {
    open spec fn encodable(&self) -> bool {
        true
    }

    open spec fn encoding(&self) -> Seq<u8> {
        self@
    }

    fn to_borsh(&self) -> (bytes: Vec<u8>) {
        borsh_array(self)
    }
}

impl DecodePayload for [u8; 32] {
    open spec fn refusal(bytes: Seq<u8>) -> Seq<char> {
        decoding_error("[u8; 32]"@, bytes)
    }

    fn from_borsh(bytes: &[u8]) -> (res: Result<Self, DecodeError>)
        ensures
            res is Ok <==> bytes@.len() == 32,
    {
        match borsh_read_array(bytes) {
            Ok(value) => Ok(value),
            Err(message) => {
                proof {
                    assert forall|value: [u8; 32]| value.encodable() implies
                        #[trigger] value.encoding() != bytes@ by {
                        assert(value@.len() == 32);
                    }
                }
                Err(DecodeError { message })
            },
        }
    }

    proof fn encoding_injective(a: Self, b: Self) {
    }
}

/// Calls `borsh::to_vec` on a `u32`. The integer is written as its four
/// little-endian bytes; writing to a vector does not fail.
#[verifier::external_body]
fn borsh_u32(value: u32) -> (bytes: Vec<u8>)
    ensures
        bytes@ == le_bytes(value as nat, 4),
{
    borsh::to_vec(&value).unwrap()
}

/// Calls `borsh::from_slice` for a `u32`. The four bytes of the input are read
/// in little-endian order; a shorter input and bytes left over are errors. The
/// error comes as its text, which depends on the input alone.
#[verifier::external_body]
fn borsh_read_u32(bytes: &[u8]) -> (res: Result<u32, String>)
    ensures
        match res {
            Ok(value) => bytes@ == le_bytes(value as nat, 4),
            Err(text) => bytes@.len() != 4 && text@ == decoding_error("u32"@, bytes@),
        },
{
    borsh::from_slice(bytes).map_err(|e| e.to_string())
}

impl EncodePayload for u32 {
    open spec fn encodable(&self) -> bool {
        true
    }

    open spec fn encoding(&self) -> Seq<u8> {
        le_bytes(*self as nat, 4)
    }

    fn to_borsh(&self) -> (bytes: Vec<u8>) {
        borsh_u32(*self)
    }
}

impl DecodePayload for u32 {
    open spec fn refusal(bytes: Seq<u8>) -> Seq<char> {
        decoding_error("u32"@, bytes)
    }

    fn from_borsh(bytes: &[u8]) -> (res: Result<Self, DecodeError>)
        ensures
            res is Ok <==> bytes@.len() == 4,
    {
        match borsh_read_u32(bytes) {
            Ok(value) => {
                proof {
                    le_bytes_len(value as nat, 4);
                }
                Ok(value)
            },
            Err(message) => {
                proof {
                    assert forall|value: u32| value.encodable() implies #[trigger] value.encoding()
                        != bytes@ by {
                        le_bytes_len(value as nat, 4);
                    }
                }
                Err(DecodeError { message })
            },
        }
    }

    proof fn encoding_injective(a: Self, b: Self) {
        reveal_with_fuel(le_bound, 5);
        le_bytes_injective(a as nat, b as nat, 4);
    }
}

/// Calls `borsh::to_vec` on a `u64`. The integer is written as its eight
/// little-endian bytes; writing to a vector does not fail.
#[verifier::external_body]
fn borsh_u64(value: u64) -> (bytes: Vec<u8>)
    ensures
        bytes@ == le_bytes(value as nat, 8),
{
    borsh::to_vec(&value).unwrap()
}

/// Calls `borsh::from_slice` for a `u64`. The eight bytes of the input are read
/// in little-endian order; a shorter input and bytes left over are errors. The
/// error comes as its text, which depends on the input alone.
#[verifier::external_body]
fn borsh_read_u64(bytes: &[u8]) -> (res: Result<u64, String>)
    ensures
        match res {
            Ok(value) => bytes@ == le_bytes(value as nat, 8),
            Err(text) => bytes@.len() != 8 && text@ == decoding_error("u64"@, bytes@),
        },
{
    borsh::from_slice(bytes).map_err(|e| e.to_string())
}

impl EncodePayload for u64 {
    open spec fn encodable(&self) -> bool {
        true
    }

    open spec fn encoding(&self) -> Seq<u8> {
        le_bytes(*self as nat, 8)
    }

    fn to_borsh(&self) -> (bytes: Vec<u8>) {
        borsh_u64(*self)
    }
}

impl DecodePayload for u64 {
    open spec fn refusal(bytes: Seq<u8>) -> Seq<char> {
        decoding_error("u64"@, bytes)
    }

    fn from_borsh(bytes: &[u8]) -> (res: Result<Self, DecodeError>)
        ensures
            res is Ok <==> bytes@.len() == 8,
    {
        match borsh_read_u64(bytes) {
            Ok(value) => {
                proof {
                    le_bytes_len(value as nat, 8);
                }
                Ok(value)
            },
            Err(message) => {
                proof {
                    assert forall|value: u64| value.encodable() implies #[trigger] value.encoding()
                        != bytes@ by {
                        le_bytes_len(value as nat, 8);
                    }
                }
                Err(DecodeError { message })
            },
        }
    }

    proof fn encoding_injective(a: Self, b: Self) {
        reveal_with_fuel(le_bound, 9);
        le_bytes_injective(a as nat, b as nat, 8);
    }
}

/// Calls `borsh::to_vec` on a `u128`. The integer is written as its sixteen
/// little-endian bytes; writing to a vector does not fail.
#[verifier::external_body]
fn borsh_u128(value: u128) -> (bytes: Vec<u8>)
    ensures
        bytes@ == le_bytes(value as nat, 16),
{
    borsh::to_vec(&value).unwrap()
}

/// Calls `borsh::from_slice` for a `u128`. The sixteen bytes of the input are read
/// in little-endian order; a shorter input and bytes left over are errors. The
/// error comes as its text, which depends on the input alone.
#[verifier::external_body]
fn borsh_read_u128(bytes: &[u8]) -> (res: Result<u128, String>)
    ensures
        match res {
            Ok(value) => bytes@ == le_bytes(value as nat, 16),
            Err(text) => bytes@.len() != 16 && text@ == decoding_error("u128"@, bytes@),
        },
{
    borsh::from_slice(bytes).map_err(|e| e.to_string())
}

impl EncodePayload for u128 {
    open spec fn encodable(&self) -> bool {
        true
    }

    open spec fn encoding(&self) -> Seq<u8> {
        le_bytes(*self as nat, 16)
    }

    fn to_borsh(&self) -> (bytes: Vec<u8>) {
        borsh_u128(*self)
    }
}

impl DecodePayload for u128 {
    open spec fn refusal(bytes: Seq<u8>) -> Seq<char> {
        decoding_error("u128"@, bytes)
    }

    fn from_borsh(bytes: &[u8]) -> (res: Result<Self, DecodeError>)
        ensures
            res is Ok <==> bytes@.len() == 16,
    {
        match borsh_read_u128(bytes) {
            Ok(value) => {
                proof {
                    le_bytes_len(value as nat, 16);
                }
                Ok(value)
            },
            Err(message) => {
                proof {
                    assert forall|value: u128| value.encodable() implies #[trigger] value.encoding()
                        != bytes@ by {
                        le_bytes_len(value as nat, 16);
                    }
                }
                Err(DecodeError { message })
            },
        }
    }

    proof fn encoding_injective(a: Self, b: Self) {
        reveal_with_fuel(le_bound, 17);
        le_bytes_injective(a as nat, b as nat, 16);
    }
}

/// Calls `borsh::to_vec` on a slice of bytes. The length is written as four
/// little-endian bytes and the bytes follow unchanged. A length that does not
/// fit in 32 bits would be an error and is left out.
#[verifier::external_body]
fn borsh_bytes(value: &[u8]) -> (bytes: Vec<u8>)
    requires
        value@.len() <= u32::MAX,
    ensures
        bytes@ == bytes_encoding(value@),
{
    borsh::to_vec(value).unwrap()
}

/// Calls `borsh::from_slice` for a `Vec<u8>`. The input is a length in four
/// little-endian bytes and that many bytes; anything else is an error. The error
/// comes as its text, which depends on the input alone.
#[verifier::external_body]
fn borsh_read_bytes(bytes: &[u8]) -> (res: Result<Vec<u8>, String>)
    ensures
        match res {
            Ok(value) => value@.len() <= u32::MAX && bytes@ == bytes_encoding(value@),
            Err(text) => {
                &&& forall|value: Seq<u8>|
                    value.len() <= u32::MAX ==> #[trigger] bytes_encoding(value) != bytes@
                &&& text@ == decoding_error("Vec<u8>"@, bytes@)
            },
        },
{
    borsh::from_slice(bytes).map_err(|e| e.to_string())
}

impl EncodePayload for Vec<u8> {
    open spec fn encodable(&self) -> bool {
        self@.len() <= u32::MAX
    }

    open spec fn encoding(&self) -> Seq<u8> {
        bytes_encoding(self@)
    }

    fn to_borsh(&self) -> (bytes: Vec<u8>) {
        borsh_bytes(self.as_slice())
    }
}

impl DecodePayload for Vec<u8> {
    open spec fn refusal(bytes: Seq<u8>) -> Seq<char> {
        decoding_error("Vec<u8>"@, bytes)
    }

    fn from_borsh(bytes: &[u8]) -> (res: Result<Self, DecodeError>) {
        match borsh_read_bytes(bytes) {
            Ok(value) => Ok(value),
            Err(message) => Err(DecodeError { message }),
        }
    }

    proof fn encoding_injective(a: Self, b: Self) {
        bytes_encoding_injective(a@, b@);
    }
}

/// Calls `borsh::to_vec` on a string slice. A string is written as the vector
/// of its UTF-8 bytes. A string of more bytes than 32 bits can count would be
/// an error and is left out.
#[verifier::external_body]
fn borsh_str(value: &str) -> (bytes: Vec<u8>)
    requires
        vstd::utf8::encode_utf8(value@).len() <= u32::MAX,
    ensures
        bytes@ == bytes_encoding(vstd::utf8::encode_utf8(value@)),
{
    borsh::to_vec(value).unwrap()
}

/// Calls `borsh::from_slice` for a `String`. The input is the encoding of a
/// byte vector that holds valid UTF-8; anything else is an error. The error comes
/// as its text, which depends on the input alone.
#[verifier::external_body]
fn borsh_read_string(bytes: &[u8]) -> (res: Result<String, String>)
    ensures
        match res {
            Ok(value) => {
                &&& vstd::utf8::encode_utf8(value@).len() <= u32::MAX
                &&& bytes@ == bytes_encoding(vstd::utf8::encode_utf8(value@))
            },
            Err(text) => {
                &&& forall|value: Seq<char>|
                    vstd::utf8::encode_utf8(value).len() <= u32::MAX ==> bytes_encoding(
                        #[trigger] vstd::utf8::encode_utf8(value),
                    ) != bytes@
                &&& text@ == decoding_error("String"@, bytes@)
            },
        },
{
    borsh::from_slice(bytes).map_err(|e| e.to_string())
}

impl EncodePayload for String {
    open spec fn encodable(&self) -> bool {
        vstd::utf8::encode_utf8(self@).len() <= u32::MAX
    }

    open spec fn encoding(&self) -> Seq<u8> {
        bytes_encoding(vstd::utf8::encode_utf8(self@))
    }

    fn to_borsh(&self) -> (bytes: Vec<u8>) {
        borsh_str(self.as_str())
    }
}

impl DecodePayload for String {
    open spec fn refusal(bytes: Seq<u8>) -> Seq<char> {
        decoding_error("String"@, bytes)
    }

    fn from_borsh(bytes: &[u8]) -> (res: Result<Self, DecodeError>) {
        match borsh_read_string(bytes) {
            Ok(value) => Ok(value),
            Err(message) => Err(DecodeError { message }),
        }
    }

    proof fn encoding_injective(a: Self, b: Self) {
        bytes_encoding_injective(vstd::utf8::encode_utf8(a@), vstd::utf8::encode_utf8(b@));
        vstd::utf8::encode_utf8_decode_utf8(a@);
        vstd::utf8::encode_utf8_decode_utf8(b@);
    }
}

/// A `u32` is read back as it was written.
pub proof fn u32_roundtrip(value: u32, res: Result<u32, DecodeError>)
    requires
        decodes_to(value.encoding(), res),
    ensures
        res == Ok::<u32, DecodeError>(value),
{
    decoding_an_encoding_succeeds(value, res);
}

/// A `u64` is read back as it was written.
pub proof fn u64_roundtrip(value: u64, res: Result<u64, DecodeError>)
    requires
        decodes_to(value.encoding(), res),
    ensures
        res == Ok::<u64, DecodeError>(value),
{
    decoding_an_encoding_succeeds(value, res);
}

/// A `u128` is read back as it was written.
pub proof fn u128_roundtrip(value: u128, res: Result<u128, DecodeError>)
    requires
        decodes_to(value.encoding(), res),
    ensures
        res == Ok::<u128, DecodeError>(value),
{
    decoding_an_encoding_succeeds(value, res);
}

/// Two byte vectors that are encoded alike hold the same bytes.
pub proof fn bytes_encoding_injective(a: Seq<u8>, b: Seq<u8>)
    requires
        bytes_encoding(a) == bytes_encoding(b),
    ensures
        a == b,
{
    le_bytes_len(a.len(), 4);
    le_bytes_len(b.len(), 4);
    assert(bytes_encoding(a).skip(4) =~= a);
    assert(bytes_encoding(b).skip(4) =~= b);
}

/// A byte vector is read back as it was written.
pub proof fn bytes_roundtrip(value: Vec<u8>, res: Result<Vec<u8>, DecodeError>)
    requires
        value.encodable(),
        decodes_to(value.encoding(), res),
    ensures
        res is Ok,
        res->Ok_0@ == value@,
{
    decoding_an_encoding_succeeds(value, res);
}

/// A string is read back as it was written.
pub proof fn string_roundtrip(value: String, res: Result<String, DecodeError>)
    requires
        value.encodable(),
        decodes_to(value.encoding(), res),
    ensures
        res is Ok,
        res->Ok_0@ == value@,
{
    decoding_an_encoding_succeeds(value, res);
}

/// The first byte of an encoded integer is its remainder by 256, and the bytes
/// behind it encode its quotient.
pub proof fn low_byte_comes_first(n: nat, width: nat)
    requires
        width > 0,
    ensures
        le_bytes(n, width).len() == width,
        le_bytes(n, width)[0] == n % 256,
        le_bytes(n, width).skip(1) == le_bytes(n / 256, (width - 1) as nat),
{
    le_bytes_len(n, width);
    assert(le_bytes(n, width).skip(1) =~= le_bytes(n / 256, (width - 1) as nat));
}

/// A byte vector is encoded as its length in four bytes and then its bytes,
/// unchanged.
pub proof fn length_comes_first(bytes: Seq<u8>)
    ensures
        bytes_encoding(bytes).len() == 4 + bytes.len(),
        bytes_encoding(bytes).take(4) == le_bytes(bytes.len(), 4),
        bytes_encoding(bytes).skip(4) == bytes,
{
    le_bytes_len(bytes.len(), 4);
    assert(bytes_encoding(bytes).take(4) =~= le_bytes(bytes.len(), 4));
    assert(bytes_encoding(bytes).skip(4) =~= bytes);
}

} // verus!
