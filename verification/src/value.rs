//! The value codec: a total, pure mapping from the database engine's native
//! value representation to a uniform generic value (null, string, or number).

use vstd::prelude::*;
use vstd::utf8::{decode_utf8, valid_utf8};
use crate::text::{append_dec_u64, append_padded_dec, dec_digits, padded_dec};

verus! {

/// A native database value, as the driver hands it over.
///
/// Floating-point column values never pass through this codec: they have no
/// place in verified code, so the surrounding application maps them straight
/// to its presentation type.
#[derive(Debug, Clone, PartialEq)]
pub enum NativeValue {
    /// SQL NULL.
    Null,
    /// A binary or text payload.
    Bytes(Vec<u8>),
    /// A signed integer.
    Int(i64),
    /// An unsigned integer.
    UInt(u64),
    /// A calendar timestamp: year, month, day, hour, minute, second,
    /// microsecond.
    Date(u16, u8, u8, u8, u8, u8, u32),
    /// A time of day with a day offset: negative flag, days, hours, minutes,
    /// seconds, microseconds.
    Time(bool, u32, u8, u8, u8, u32),
}

/// The uniform generic value handed to the presentation layer.
#[derive(Debug, Clone, PartialEq)]
pub enum GenericValue {
    Null,
    Str(String),
    Num(i64),
}

/// The mathematical model of a generic value.
pub enum SpecValue {
    Null,
    Str(Seq<char>),
    Num(int),
}

impl View for GenericValue {
    type V = SpecValue;

    open spec fn view(&self) -> SpecValue {
        match self {
            GenericValue::Null => SpecValue::Null,
            GenericValue::Str(s) => SpecValue::Str(s@),
            GenericValue::Num(n) => SpecValue::Num(*n as int),
        }
    }
}

/// The placeholder string reported for a payload that is not valid text.
pub open spec fn binary_placeholder_chars(len: nat) -> Seq<char> {
    "<binary data: "@ + dec_digits(len) + " bytes>"@
}

/// The fixed-format rendering of a calendar timestamp:
/// `YYYY-MM-DD HH:MM:SS.UUUUUU`.
pub open spec fn date_chars(y: nat, mo: nat, d: nat, h: nat, mi: nat, s: nat, us: nat) -> Seq<
    char,
> {
    padded_dec(y, 4) + "-"@ + padded_dec(mo, 2) + "-"@ + padded_dec(d, 2) + " "@ + padded_dec(h, 2)
        + ":"@ + padded_dec(mi, 2) + ":"@ + padded_dec(s, 2) + "."@ + padded_dec(us, 6)
}

/// The rendering of a time of day: `[-]HH:MM:SS.UUUUUU`, with the hours
/// inflated by `days * 24` and a trailing day-count annotation whenever the
/// day count is nonzero.
pub open spec fn time_chars(neg: bool, days: nat, h: nat, mi: nat, s: nat, us: nat) -> Seq<char> {
    (if neg {
        "-"@
    } else {
        Seq::<char>::empty()
    }) + padded_dec(days * 24 + h, 2) + ":"@ + padded_dec(mi, 2) + ":"@ + padded_dec(s, 2) + "."@
        + padded_dec(us, 6) + (if days != 0 {
        " ("@ + dec_digits(days) + " days)"@
    } else {
        Seq::<char>::empty()
    })
}

/// What the codec yields for each native value.
pub open spec fn spec_encode(v: NativeValue) -> SpecValue {
    match v {
        NativeValue::Null => SpecValue::Null,
        NativeValue::Bytes(b) => if valid_utf8(b@) {
            SpecValue::Str(decode_utf8(b@))
        } else {
            SpecValue::Str(binary_placeholder_chars(b@.len()))
        },
        NativeValue::Int(i) => SpecValue::Num(i as int),
        NativeValue::UInt(u) => if u <= i64::MAX as u64 {
            SpecValue::Num(u as int)
        } else {
            SpecValue::Str(dec_digits(u as nat))
        },
        NativeValue::Date(y, mo, d, h, mi, s, us) => SpecValue::Str(
            date_chars(y as nat, mo as nat, d as nat, h as nat, mi as nat, s as nat, us as nat),
        ),
        NativeValue::Time(neg, days, h, mi, s, us) => SpecValue::Str(
            time_chars(neg, days as nat, h as nat, mi as nat, s as nat, us as nat),
        ),
    }
}

/// Relies on `std::str::from_utf8`: it returns `Ok` exactly when the bytes
/// are valid UTF-8, and then decodes them.
#[verifier::external_body]
fn bytes_to_utf8_string(bytes: &Vec<u8>) -> (r: Option<String>)
    ensures
        match r {
            Some(s) => valid_utf8(bytes@) && s@ == decode_utf8(bytes@),
            None => !valid_utf8(bytes@),
        },
{
    match std::str::from_utf8(bytes.as_slice()) {
        Ok(s) => Some(s.to_string()),
        Err(_) => None,
    }
}

/// Convert one native value into its generic representation.
///
/// The codec is total: every supported native value yields a generic value,
/// and never an error.
pub fn encode_value(v: &NativeValue) -> (r: GenericValue)
    ensures
        r@ == spec_encode(*v),
{
    match v {
        NativeValue::Null => GenericValue::Null,
        NativeValue::Bytes(b) => {
            match bytes_to_utf8_string(b) {
                Some(s) => GenericValue::Str(s),
                None => {
                    let mut t = String::from_str("<binary data: ");
                    append_dec_u64(&mut t, b.len() as u64);
                    t.append(" bytes>");
                    GenericValue::Str(t)
                },
            }
        },
        NativeValue::Int(i) => GenericValue::Num(*i),
        NativeValue::UInt(u) => {
            if *u <= i64::MAX as u64 {
                GenericValue::Num(*u as i64)
            } else {
                let mut t = String::new();
                append_dec_u64(&mut t, *u);
                GenericValue::Str(t)
            }
        },
        NativeValue::Date(y, mo, d, h, mi, s, us) => {
            let mut t = String::new();
            append_padded_dec(&mut t, *y as u64, 4);
            t.append("-");
            append_padded_dec(&mut t, *mo as u64, 2);
            t.append("-");
            append_padded_dec(&mut t, *d as u64, 2);
            t.append(" ");
            append_padded_dec(&mut t, *h as u64, 2);
            t.append(":");
            append_padded_dec(&mut t, *mi as u64, 2);
            t.append(":");
            append_padded_dec(&mut t, *s as u64, 2);
            t.append(".");
            append_padded_dec(&mut t, *us as u64, 6);
            proof {
                assert(t@ =~= date_chars(
                    *y as nat,
                    *mo as nat,
                    *d as nat,
                    *h as nat,
                    *mi as nat,
                    *s as nat,
                    *us as nat,
                ));
            }
            GenericValue::Str(t)
        },
        NativeValue::Time(neg, days, h, mi, s, us) => {
            let mut t = String::new();
            if *neg {
                t.append("-");
            }
            let total_hours: u64 = (*days as u64) * 24 + (*h as u64);
            append_padded_dec(&mut t, total_hours, 2);
            t.append(":");
            append_padded_dec(&mut t, *mi as u64, 2);
            t.append(":");
            append_padded_dec(&mut t, *s as u64, 2);
            t.append(".");
            append_padded_dec(&mut t, *us as u64, 6);
            if *days != 0 {
                t.append(" (");
                append_dec_u64(&mut t, *days as u64);
                t.append(" days)");
            }
            proof {
                assert(t@ =~= time_chars(
                    *neg,
                    *days as nat,
                    *h as nat,
                    *mi as nat,
                    *s as nat,
                    *us as nat,
                ));
            }
            GenericValue::Str(t)
        },
    }
}

/// Law: the codec sends null to null; an unsigned integer within the signed
/// 64-bit range to the equal number; and a larger one to its decimal string.
pub proof fn lemma_codec_unsigned_round_trip(u: u64)
    ensures
        spec_encode(NativeValue::Null) == SpecValue::Null,
        u <= i64::MAX as u64 ==> spec_encode(NativeValue::UInt(u)) == SpecValue::Num(u as int),
        u > i64::MAX as u64 ==> spec_encode(NativeValue::UInt(u)) == SpecValue::Str(
            dec_digits(u as nat),
        ),
{
}

} // verus!
