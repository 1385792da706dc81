//! Git object ids.
use vstd::prelude::*;
use vstd::utf8::encode_utf8;

use crate::text::decimal_text;

verus! {

/// Whether `b` is a hexadecimal digit in ASCII, in either case.
pub open spec fn is_hex_digit(b: u8) -> bool {
    0x30 <= b <= 0x39 || 0x41 <= b <= 0x46 || 0x61 <= b <= 0x66
}

/// The value of the hexadecimal digit `b`.
pub open spec fn hex_value(b: u8) -> int {
    if b <= 0x39 {
        b - 0x30
    } else if b <= 0x46 {
        b - 0x41 + 10
    } else {
        b - 0x61 + 10
    }
}

/// Whether `hex` spells an object id: forty hexadecimal digits.
pub open spec fn is_object_hex(hex: Seq<u8>) -> bool {
    hex.len() == 40 && forall|i: int| 0 <= i < 40 ==> is_hex_digit(#[trigger] hex[i])
}

/// The bytes that pairs of hexadecimal digits spell, the higher digit first.
pub open spec fn decoded(hex: Seq<u8>) -> Seq<u8> {
    Seq::new(
        hex.len() / 2,
        |i: int| (16 * hex_value(hex[2 * i]) + hex_value(hex[2 * i + 1])) as u8,
    )
}

/// What is reported of a `hex` that spells no object id.
pub open spec fn hex_error_text(hex: Seq<u8>) -> Seq<char> {
    if hex.len() != 40 {
        "A hash sized "@ + decimal_text(hex.len()) + " hexadecimal characters is invalid"@
    } else {
        "Invalid character encountered"@
    }
}

/// The small hexadecimal digit of value `v`, for `v` below sixteen.
pub open spec fn hex_char(v: int) -> char {
    if v < 10 {
        (0x30 + v) as char
    } else {
        (0x61 + v - 10) as char
    }
}

/// `bytes` in small hexadecimal digits, two for each byte.
pub open spec fn hex_text(bytes: Seq<u8>) -> Seq<char> {
    Seq::new(
        2 * bytes.len(),
        |i: int|
            if i % 2 == 0 {
                hex_char(bytes[i / 2] as int / 16)
            } else {
                hex_char(bytes[i / 2] as int % 16)
            },
    )
}

/// Reads an object id from its hexadecimal form, as `gix_hash::ObjectId::from_hex` does
/// with SHA-1 as the one kind of hash. Claimed of it: it accepts forty hexadecimal digits
/// in either case and nothing else, gives the bytes that they spell, and says of anything
/// else whether its length or its characters are wrong.
#[verifier::external_body]
fn gix_from_hex(hex: &[u8]) -> (r: Result<[u8; 20], String>)
    ensures
        r is Ok <==> is_object_hex(hex@),
        r matches Ok(bytes) ==> bytes@ == decoded(hex@),
        r matches Err(e) ==> e@ == hex_error_text(hex@),
{
    match gix_hash::ObjectId::from_hex(hex) {
        Ok(id) => Ok(id.as_slice().try_into().expect("a SHA-1 digest")),
        Err(e) => Err(e.to_string()),
    }
}

/// The id of a git object.
#[derive(Clone, Copy, PartialEq, Eq, Debug)]
pub struct ObjectId {
    /// The SHA-1 digest that the id is.
    pub bytes: [u8; 20],
}

impl View for ObjectId {
    type V = Seq<u8>;

    open spec fn view(&self) -> Seq<u8> {
        self.bytes@
    }
}

impl ObjectId {
    /// The id whose hexadecimal form is `hex`.
    pub fn from_hex(hex: &[u8]) -> (r: Result<ObjectId, String>)
        ensures
            r is Ok <==> is_object_hex(hex@),
            r matches Ok(id) ==> id@ == decoded(hex@),
            r matches Err(e) ==> e@ == hex_error_text(hex@),
    {
        match gix_from_hex(hex) {
            Ok(bytes) => Ok(ObjectId { bytes }),
            Err(e) => Err(e),
        }
    }

    /// The id of twenty zero bytes.
    pub fn null() -> (r: ObjectId)
        ensures
            r@ == Seq::new(20, |i: int| 0u8),
    {
        let r: ObjectId = ObjectId { bytes: [0u8; 20] };
        assert(r@ =~= Seq::new(20, |i: int| 0u8));
        r
    }

    /// Whether two ids are equal.
    pub fn same(&self, other: &ObjectId) -> (r: bool)
        ensures
            r == (self@ == other@),
    {
        let mut i: usize = 0;
        while i < 20
            invariant
                i <= 20,
                forall|j: int| 0 <= j < i ==> self@[j] == other@[j],
            decreases 20 - i,
        {
            if self.bytes[i] != other.bytes[i] {
                return false;
            }
            i += 1;
        }
        assert(self@ =~= other@);
        true
    }

    /// The small hexadecimal form of the id.
    pub fn to_hex(&self) -> (r: String)
        ensures
            r@ == hex_text(self@),
    {
        let mut out: String = String::new();
        let mut i: usize = 0;
        while i < 20
            invariant
                i <= 20,
                out@ == hex_text(self@.take(i as int)),
            decreases 20 - i,
        {
            let b: u8 = self.bytes[i];
            out.append(hex_digit(b / 16));
            out.append(hex_digit(b % 16));
            proof {
                let prefix = self@.take(i as int);
                let longer = self@.take(i + 1);
                assert(longer == prefix.push(b));
                assert(hex_text(longer) =~= hex_text(prefix) + seq![hex_char(b as int / 16)]
                    + seq![hex_char(b as int % 16)]);
            }
            i += 1;
        }
        proof {
            assert(self@.take(20) =~= self@);
        }
        out
    }
}

/// The small hexadecimal digit of value `v`.
fn hex_digit(v: u8) -> (r: &'static str)
    requires
        v < 16,
    ensures
        r@ == seq![hex_char(v as int)],
{
    proof {
        reveal_strlit("0");
        reveal_strlit("1");
        reveal_strlit("2");
        reveal_strlit("3");
        reveal_strlit("4");
        reveal_strlit("5");
        reveal_strlit("6");
        reveal_strlit("7");
        reveal_strlit("8");
        reveal_strlit("9");
        reveal_strlit("a");
        reveal_strlit("b");
        reveal_strlit("c");
        reveal_strlit("d");
        reveal_strlit("e");
        reveal_strlit("f");
    }
    match v {
        0 => "0",
        1 => "1",
        2 => "2",
        3 => "3",
        4 => "4",
        5 => "5",
        6 => "6",
        7 => "7",
        8 => "8",
        9 => "9",
        10 => "a",
        11 => "b",
        12 => "c",
        13 => "d",
        14 => "e",
        _ => "f",
    }
}

/// The hexadecimal form of an id reads back as that id.
pub proof fn hex_reads_back(id: Seq<u8>)
    requires
        id.len() == 20,
    ensures
        is_object_hex(encode_utf8(hex_text(id))),
        decoded(encode_utf8(hex_text(id))) == id,
{
    let text = hex_text(id);
    let hex = encode_utf8(text);
    assert forall|i: int| 0 <= i < text.len() implies (text[i] as u32) < 128 by {
        assert(0 <= id[i / 2] as int / 16 < 16);
        assert(0 <= id[i / 2] as int % 16 < 16);
    }
    assert(vstd::utf8::is_ascii_chars(text));
    vstd::utf8::is_ascii_chars_encode_utf8(text);
    assert(hex.len() == 40);
    assert forall|i: int| 0 <= i < 40 implies {
        &&& is_hex_digit(#[trigger] hex[i])
        &&& hex_value(hex[i]) == (if i % 2 == 0 {
            id[i / 2] as int / 16
        } else {
            id[i / 2] as int % 16
        })
    } by {
        assert(hex[i] == text[i] as u8);
    }
    assert forall|i: int| 0 <= i < 20 implies decoded(hex)[i] == id[i] by {
        assert(hex_value(hex[2 * i]) == id[i] as int / 16);
        assert(hex_value(hex[2 * i + 1]) == id[i] as int % 16);
    }
    assert(decoded(hex) =~= id);
}

/// Each byte of an id is written as two digits of sixteen, the higher one first.
pub proof fn bytes_are_written_as_two_digits(id: Seq<u8>, i: int)
    requires
        0 <= i < id.len(),
    ensures
        hex_text(id).len() == 2 * id.len(),
        hex_text(id)[2 * i] == "0123456789abcdef"@[id[i] as int / 16],
        hex_text(id)[2 * i + 1] == "0123456789abcdef"@[id[i] as int % 16],
{
    reveal_strlit("0123456789abcdef");
    assert((2 * i) / 2 == i);
    assert((2 * i + 1) / 2 == i);
}

/// Forty digits of sixteen, in either case, spell an id, and nothing else does; capital and small
/// digits spell the same.
pub proof fn ids_are_spelled_by_forty_digits(hex: Seq<u8>, other: Seq<u8>)
    ensures
        is_object_hex(hex) <==> hex.len() == 40 && forall|i: int|
            0 <= i < 40 ==> ('0' as u8 <= (#[trigger] hex[i]) <= '9' as u8) || ('a' as u8 <= hex[i]
                <= 'f' as u8) || ('A' as u8 <= hex[i] <= 'F' as u8),
        is_object_hex(hex) && other.len() == 40 && (forall|i: int|
            0 <= i < 40 ==> (#[trigger] other[i]) == hex[i] || ('a' as u8 <= hex[i] <= 'f' as u8
                && other[i] + 32 == hex[i])) ==> is_object_hex(other) && decoded(other) == decoded(
            hex,
        ),
        is_object_hex(hex) ==> decoded(hex).len() == 20,
{
    if is_object_hex(hex) && other.len() == 40 && (forall|i: int|
        0 <= i < 40 ==> (#[trigger] other[i]) == hex[i] || ('a' as u8 <= hex[i] <= 'f' as u8
            && other[i] + 32 == hex[i])) {
        assert forall|i: int| 0 <= i < 40 implies is_hex_digit(#[trigger] other[i]) && hex_value(
            other[i],
        ) == hex_value(hex[i]) by {
            assert(is_hex_digit(hex[i]));
        }
        assert(decoded(other) =~= decoded(hex));
    }
}

/// Forty digits of sixteen are read as the id that they spell, two for each byte; of anything else
/// it is said whether its length or its characters are wrong. What is written is read back.
pub proof fn ids_are_read_as_they_are_written(
    id: ObjectId,
    written: String,
    hex: &[u8],
    r: Result<ObjectId, String>,
)
    requires
        call_ensures(ObjectId::to_hex, (&id,), written),
        call_ensures(ObjectId::from_hex, (hex,), r),
    ensures
        written@.len() == 40,
        hex@ == encode_utf8(written@) ==> r is Ok && r->Ok_0.bytes@ == id.bytes@,
        r is Ok <==> hex@.len() == 40 && forall|i: int|
            0 <= i < 40 ==> ('0' as u8 <= (#[trigger] hex@[i]) <= '9' as u8) || ('a' as u8
                <= hex@[i] <= 'f' as u8) || ('A' as u8 <= hex@[i] <= 'F' as u8),
        r is Err && hex@.len() != 40 ==> r->Err_0@ == "A hash sized "@ + decimal_text(hex@.len())
            + " hexadecimal characters is invalid"@,
        r is Err && hex@.len() == 40 ==> r->Err_0@ == "Invalid character encountered"@,
{
    hex_reads_back(id.bytes@);
    ids_are_spelled_by_forty_digits(hex@, hex@);
}

/// An id is written two digits for each byte, the higher one first.
pub proof fn ids_are_written_byte_by_byte(id: ObjectId, r: String, i: int)
    requires
        call_ensures(ObjectId::to_hex, (&id,), r),
        0 <= i < 20,
    ensures
        r@.len() == 40,
        r@[2 * i] == "0123456789abcdef"@[id.bytes@[i] as int / 16],
        r@[2 * i + 1] == "0123456789abcdef"@[id.bytes@[i] as int % 16],
{
    bytes_are_written_as_two_digits(id.bytes@, i);
}

/// Ids are the same just where no byte differs, and the id of no object is all zeros.
pub proof fn ids_are_the_same_byte_by_byte(a: ObjectId, b: ObjectId, same: bool, null: ObjectId)
    requires
        call_ensures(ObjectId::same, (&a, &b), same),
        call_ensures(ObjectId::null, (), null),
    ensures
        same <==> forall|i: int| 0 <= i < 20 ==> (#[trigger] a.bytes@[i]) == b.bytes@[i],
        forall|i: int| 0 <= i < 20 ==> #[trigger] null.bytes@[i] == 0,
{
    if forall|i: int| 0 <= i < 20 ==> (#[trigger] a.bytes@[i]) == b.bytes@[i] {
        assert(a.bytes@ =~= b.bytes@);
    }
    assert(null@ == null.bytes@);
}

} // verus!
