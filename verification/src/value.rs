//! Value decoding: from a raw entry's type code, count, and bytes to a
//! typed `TagValue`.
//!
//! A value whose byte length is at most four is stored inline in the
//! entry; a longer one sits elsewhere in the buffer, behind the offset
//! stored in those four bytes. Unknown type codes are kept as raw bytes
//! rather than rejected.

use vstd::prelude::*;

use crate::bytes::spec_u16_at;
use crate::bytes::spec_u32_at;
use crate::bytes::spec_i32_at;
use crate::bytes::i32_of_u32;
use crate::bytes::read_u16;
use crate::bytes::read_u32;
use crate::bytes::subvec;
use crate::error::ExifError;
use crate::model::ByteOrder;
use crate::model::Rational;
use crate::model::SRational;
use crate::model::TagValue;
use crate::model::TagValueModel;

verus! {

/// What `String::from_utf8_lossy` makes of a byte sequence.
pub uninterp spec fn lossy_utf8(b: Seq<u8>) -> Seq<char>;

/// Relies on `String::from_utf8_lossy`: the decoding depends on the
/// bytes alone, and bytes below 0x80 are valid UTF-8 that decodes to
/// the scalar values of the bytes themselves.
#[verifier::external_body]
fn decode_text(b: &Vec<u8>) -> (r: String)
    ensures
        r@ == lossy_utf8(b@),
        (forall|i: int| 0 <= i < b@.len() ==> b@[i] < 0x80) ==> (r@.len() == b@.len() && forall|
            i: int,
        | 0 <= i < b@.len() ==> r@[i] == b@[i] as char),
{
    String::from_utf8_lossy(b.as_slice()).into_owned()
}

/// Index of the first NUL byte, or the length if there is none.
pub open spec fn first_nul(b: Seq<u8>) -> int
    decreases b.len(),
{
    if b.len() == 0 {
        0
    } else if b[0] == 0 {
        0
    } else {
        1 + first_nul(b.subrange(1, b.len() as int))
    }
}

/// `first_nul` is the unique position with no NUL before it and either
/// a NUL or the end of the sequence at it.
pub proof fn lemma_first_nul_at(b: Seq<u8>, i: int)
    requires
        0 <= i <= b.len(),
        forall|j: int| 0 <= j < i ==> b[j] != 0,
        i == b.len() || b[i] == 0,
    ensures
        first_nul(b) == i,
    decreases b.len(),
{
    if b.len() == 0 {
    } else if b[0] == 0 {
        assert(i == 0);
    } else {
        let t = b.subrange(1, b.len() as int);
        assert(forall|j: int| 0 <= j < i - 1 ==> t[j] == b[j + 1] && t[j] != 0);
        lemma_first_nul_at(t, i - 1);
    }
}

/// Size in bytes of one element of the given type code; unknown codes
/// count as single bytes.
pub open spec fn type_size(t: u16) -> nat {
    if t == 3 {
        2
    } else if t == 4 || t == 9 {
        4
    } else if t == 5 || t == 10 {
        8
    } else {
        1
    }
}

/// Total byte length a raw entry's value occupies.
pub open spec fn byte_len(t: u16, count: u32) -> nat {
    (count * type_size(t)) as nat
}

/// The typed reading of `bytes` under a type code and byte order.
pub open spec fn spec_decode(t: u16, bytes: Seq<u8>, order: ByteOrder) -> TagValueModel {
    if t == 1 {
        TagValueModel::Bytes(bytes)
    } else if t == 2 {
        TagValueModel::Ascii(lossy_utf8(bytes.take(first_nul(bytes))))
    } else if t == 3 {
        TagValueModel::UnsignedInt(
            Seq::new((bytes.len() / 2) as nat, |i: int| spec_u16_at(bytes, 2 * i, order) as u32),
        )
    } else if t == 4 {
        TagValueModel::UnsignedInt(
            Seq::new((bytes.len() / 4) as nat, |i: int| spec_u32_at(bytes, 4 * i, order)),
        )
    } else if t == 5 {
        TagValueModel::Rational(
            Seq::new(
                (bytes.len() / 8) as nat,
                |i: int|
                    Rational {
                        num: spec_u32_at(bytes, 8 * i, order),
                        den: spec_u32_at(bytes, 8 * i + 4, order),
                    },
            ),
        )
    } else if t == 9 {
        TagValueModel::SignedInt(
            Seq::new((bytes.len() / 4) as nat, |i: int| spec_i32_at(bytes, 4 * i, order)),
        )
    } else if t == 10 {
        TagValueModel::SRational(
            Seq::new(
                (bytes.len() / 8) as nat,
                |i: int|
                    SRational {
                        num: spec_i32_at(bytes, 8 * i, order),
                        den: spec_i32_at(bytes, 8 * i + 4, order),
                    },
            ),
        )
    } else {
        TagValueModel::Undefined(bytes)
    }
}

/// Decode `bytes` as the value of an entry with type code `t`.
pub fn decode_value(t: u16, bytes: &Vec<u8>, order: ByteOrder) -> (r: TagValue)
    ensures
        r@ == spec_decode(t, bytes@, order),
{
    if t == 1 {
        TagValue::Bytes(bytes.clone())
    } else if t == 2 {
        decode_ascii(bytes)
    } else if t == 3 {
        TagValue::UnsignedInt(decode_u16s(bytes, order))
    } else if t == 4 {
        TagValue::UnsignedInt(decode_u32s(bytes, order))
    } else if t == 5 {
        TagValue::Rational(decode_rationals(bytes, order))
    } else if t == 9 {
        TagValue::SignedInt(decode_i32s(bytes, order))
    } else if t == 10 {
        TagValue::SRational(decode_srationals(bytes, order))
    } else {
        TagValue::Undefined(bytes.clone())
    }
}

/// Cut at the first NUL, then decode leniently.
fn decode_ascii(bytes: &Vec<u8>) -> (r: TagValue)
    ensures
        r@ == TagValueModel::Ascii(lossy_utf8(bytes@.take(first_nul(bytes@)))),
{
    let mut i: usize = 0;
    while i < bytes.len() && bytes[i] != 0
        invariant
            0 <= i <= bytes@.len(),
            forall|j: int| 0 <= j < i ==> bytes@[j] != 0,
        decreases bytes@.len() - i,
    {
        i = i + 1;
    }
    proof {
        lemma_first_nul_at(bytes@, i as int);
    }
    let head = match subvec(bytes, 0, i) {
        Ok(v) => v,
        Err(_) => Vec::new(),
    };
    proof {
        assert(head@ =~= bytes@.take(first_nul(bytes@)));
    }
    TagValue::Ascii(decode_text(&head))
}

/// Successive 16-bit values, widened to 32 bits.
fn decode_u16s(bytes: &Vec<u8>, order: ByteOrder) -> (r: Vec<u32>)
    ensures
        r@ == Seq::new((bytes@.len() / 2) as nat, |i: int| spec_u16_at(bytes@, 2 * i, order) as u32),
{
    let n = bytes.len() / 2;
    proof {
        vstd::arithmetic::div_mod::lemma_remainder_lower(bytes@.len() as int, 2);
    }
    let mut out: Vec<u32> = Vec::new();
    let mut i: usize = 0;
    while i < n
        invariant
            n == bytes@.len() / 2,
            2 * n <= bytes@.len(),
            bytes@.len() <= usize::MAX,
            0 <= i <= n,
            out@.len() == i,
            forall|j: int| 0 <= j < i ==> out@[j] == spec_u16_at(bytes@, 2 * j, order) as u32,
        decreases n - i,
    {
        let v = match read_u16(bytes, 2 * i, order) {
            Ok(v) => v,
            Err(_) => 0,
        };
        out.push(v as u32);
        i = i + 1;
    }
    proof {
        assert(out@ =~= Seq::new(
            (bytes@.len() / 2) as nat,
            |i: int| spec_u16_at(bytes@, 2 * i, order) as u32,
        ));
    }
    out
}

/// Successive 32-bit values.
fn decode_u32s(bytes: &Vec<u8>, order: ByteOrder) -> (r: Vec<u32>)
    ensures
        r@ == Seq::new((bytes@.len() / 4) as nat, |i: int| spec_u32_at(bytes@, 4 * i, order)),
{
    let n = bytes.len() / 4;
    proof {
        vstd::arithmetic::div_mod::lemma_remainder_lower(bytes@.len() as int, 4);
    }
    let mut out: Vec<u32> = Vec::new();
    let mut i: usize = 0;
    while i < n
        invariant
            n == bytes@.len() / 4,
            4 * n <= bytes@.len(),
            bytes@.len() <= usize::MAX,
            0 <= i <= n,
            out@.len() == i,
            forall|j: int| 0 <= j < i ==> out@[j] == spec_u32_at(bytes@, 4 * j, order),
        decreases n - i,
    {
        let v = match read_u32(bytes, 4 * i, order) {
            Ok(v) => v,
            Err(_) => 0,
        };
        out.push(v);
        i = i + 1;
    }
    proof {
        assert(out@ =~= Seq::new(
            (bytes@.len() / 4) as nat,
            |i: int| spec_u32_at(bytes@, 4 * i, order),
        ));
    }
    out
}

/// Successive signed 32-bit values, two's complement.
fn decode_i32s(bytes: &Vec<u8>, order: ByteOrder) -> (r: Vec<i32>)
    ensures
        r@ == Seq::new((bytes@.len() / 4) as nat, |i: int| spec_i32_at(bytes@, 4 * i, order)),
{
    let n = bytes.len() / 4;
    proof {
        vstd::arithmetic::div_mod::lemma_remainder_lower(bytes@.len() as int, 4);
    }
    let mut out: Vec<i32> = Vec::new();
    let mut i: usize = 0;
    while i < n
        invariant
            n == bytes@.len() / 4,
            4 * n <= bytes@.len(),
            bytes@.len() <= usize::MAX,
            0 <= i <= n,
            out@.len() == i,
            forall|j: int| 0 <= j < i ==> out@[j] == spec_i32_at(bytes@, 4 * j, order),
        decreases n - i,
    {
        let v = match read_u32(bytes, 4 * i, order) {
            Ok(v) => v,
            Err(_) => 0,
        };
        out.push(i32_of_u32(v));
        i = i + 1;
    }
    proof {
        assert(out@ =~= Seq::new(
            (bytes@.len() / 4) as nat,
            |i: int| spec_i32_at(bytes@, 4 * i, order),
        ));
    }
    out
}

/// Successive pairs of unsigned 32-bit values.
fn decode_rationals(bytes: &Vec<u8>, order: ByteOrder) -> (r: Vec<Rational>)
    ensures
        r@ == Seq::new(
            (bytes@.len() / 8) as nat,
            |i: int|
                Rational {
                    num: spec_u32_at(bytes@, 8 * i, order),
                    den: spec_u32_at(bytes@, 8 * i + 4, order),
                },
        ),
{
    let n = bytes.len() / 8;
    proof {
        vstd::arithmetic::div_mod::lemma_remainder_lower(bytes@.len() as int, 8);
    }
    let mut out: Vec<Rational> = Vec::new();
    let mut i: usize = 0;
    while i < n
        invariant
            n == bytes@.len() / 8,
            8 * n <= bytes@.len(),
            bytes@.len() <= usize::MAX,
            0 <= i <= n,
            out@.len() == i,
            forall|j: int| 0 <= j < i ==> out@[j] == (Rational {
                num: spec_u32_at(bytes@, 8 * j, order),
                den: spec_u32_at(bytes@, 8 * j + 4, order),
            }),
        decreases n - i,
    {
        let num = match read_u32(bytes, 8 * i, order) {
            Ok(v) => v,
            Err(_) => 0,
        };
        let den = match read_u32(bytes, 8 * i + 4, order) {
            Ok(v) => v,
            Err(_) => 0,
        };
        out.push(Rational { num, den });
        i = i + 1;
    }
    proof {
        assert(out@ =~= Seq::new(
            (bytes@.len() / 8) as nat,
            |i: int|
                Rational {
                    num: spec_u32_at(bytes@, 8 * i, order),
                    den: spec_u32_at(bytes@, 8 * i + 4, order),
                },
        ));
    }
    out
}

/// Successive pairs of signed 32-bit values.
fn decode_srationals(bytes: &Vec<u8>, order: ByteOrder) -> (r: Vec<SRational>)
    ensures
        r@ == Seq::new(
            (bytes@.len() / 8) as nat,
            |i: int|
                SRational {
                    num: spec_i32_at(bytes@, 8 * i, order),
                    den: spec_i32_at(bytes@, 8 * i + 4, order),
                },
        ),
{
    let n = bytes.len() / 8;
    proof {
        vstd::arithmetic::div_mod::lemma_remainder_lower(bytes@.len() as int, 8);
    }
    let mut out: Vec<SRational> = Vec::new();
    let mut i: usize = 0;
    while i < n
        invariant
            n == bytes@.len() / 8,
            8 * n <= bytes@.len(),
            bytes@.len() <= usize::MAX,
            0 <= i <= n,
            out@.len() == i,
            forall|j: int| 0 <= j < i ==> out@[j] == (SRational {
                num: spec_i32_at(bytes@, 8 * j, order),
                den: spec_i32_at(bytes@, 8 * j + 4, order),
            }),
        decreases n - i,
    {
        let num = match read_u32(bytes, 8 * i, order) {
            Ok(v) => v,
            Err(_) => 0,
        };
        let den = match read_u32(bytes, 8 * i + 4, order) {
            Ok(v) => v,
            Err(_) => 0,
        };
        out.push(SRational { num: i32_of_u32(num), den: i32_of_u32(den) });
        i = i + 1;
    }
    proof {
        assert(out@ =~= Seq::new(
            (bytes@.len() / 8) as nat,
            |i: int|
                SRational {
                    num: spec_i32_at(bytes@, 8 * i, order),
                    den: spec_i32_at(bytes@, 8 * i + 4, order),
                },
        ));
    }
    out
}

} // verus!
