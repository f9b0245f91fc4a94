//! Sizes in bytes as short text.

use vstd::prelude::*;
use vstd::string::{StrSliceExecFns, StringExecFns};
use crate::text::{decimal, push_decimal};

verus! {

pub const KB: u64 = 1024;

pub const MB: u64 = 1024 * 1024;

pub const GB: u64 = 1024 * 1024 * 1024;

/// `bytes` in tenths of `unit`, rounded to the nearest tenth, and to the even
/// one where two are equally near.
pub open spec fn rounded_tenths(bytes: nat, unit: nat) -> nat {
    let scaled = bytes * 10;
    let low = scaled / unit;
    let rest = scaled % unit;
    if 2 * rest > unit || (2 * rest == unit && low % 2 == 1) {
        low + 1
    } else {
        low
    }
}

/// A number of tenths as a decimal fraction with one digit after the point.
pub open spec fn tenths_text(tenths: nat) -> Seq<char> {
    decimal(tenths / 10) + "."@ + decimal(tenths % 10)
}

/// A size as text: in bytes below 1024, otherwise in the largest of KB, MB
/// and GB that it reaches, with one digit after the point.
pub open spec fn bytes_text(bytes: u64) -> Seq<char> {
    if bytes >= GB {
        tenths_text(rounded_tenths(bytes as nat, GB as nat)) + " GB"@
    } else if bytes >= MB {
        tenths_text(rounded_tenths(bytes as nat, MB as nat)) + " MB"@
    } else if bytes >= KB {
        tenths_text(rounded_tenths(bytes as nat, KB as nat)) + " KB"@
    } else {
        decimal(bytes as nat) + " B"@
    }
}

/// The size of a signed difference, without its sign.
pub open spec fn magnitude(bytes: i64) -> u64 {
    if bytes < 0 {
        (-(bytes as int)) as u64
    } else {
        bytes as u64
    }
}

/// A signed difference of sizes as text: `0 B` for none, otherwise the size
/// after a plus or minus sign.
pub open spec fn signed_bytes_text(bytes: i64) -> Seq<char> {
    if bytes == 0 {
        "0 B"@
    } else if bytes < 0 {
        "-"@ + bytes_text(magnitude(bytes))
    } else {
        "+"@ + bytes_text(magnitude(bytes))
    }
}

fn push_scaled(out: &mut String, bytes: u64, unit: u64)
    requires
        unit == KB || unit == MB || unit == GB,
    ensures
        final(out)@ == old(out)@ + tenths_text(rounded_tenths(bytes as nat, unit as nat)),
{
    let scaled: u128 = (bytes as u128) * 10;
    let wide: u128 = unit as u128;
    let low: u128 = scaled / wide;
    let rest: u128 = scaled % wide;
    let tenths: u128 = if 2 * rest > wide || (2 * rest == wide && low % 2 == 1) {
        low + 1
    } else {
        low
    };
    assert(tenths == rounded_tenths(bytes as nat, unit as nat));
    assert(tenths / 10 <= u64::MAX);
    let ghost start = out@;
    push_decimal(out, (tenths / 10) as u64);
    out.append(".");
    push_decimal(out, (tenths % 10) as u64);
    assert(out@ =~= start + tenths_text(tenths as nat));
}

/// A size as text.
pub fn format_bytes(bytes: u64) -> (r: String)
    ensures
        r@ == bytes_text(bytes),
{
    let mut out = String::new();
    if bytes >= GB {
        push_scaled(&mut out, bytes, GB);
        out.append(" GB");
    } else if bytes >= MB {
        push_scaled(&mut out, bytes, MB);
        out.append(" MB");
    } else if bytes >= KB {
        push_scaled(&mut out, bytes, KB);
        out.append(" KB");
    } else {
        push_decimal(&mut out, bytes);
        out.append(" B");
    }
    assert(out@ =~= bytes_text(bytes));
    out
}

/// The size of a signed difference, without its sign.
pub fn unsigned_abs(bytes: i64) -> (r: u64)
    ensures
        r == magnitude(bytes),
{
    if bytes >= 0 {
        bytes as u64
    } else if bytes == i64::MIN {
        0x8000_0000_0000_0000u64
    } else {
        (-bytes) as u64
    }
}

/// A signed difference of sizes as text.
pub fn format_bytes_signed(bytes: i64) -> (r: String)
    ensures
        r@ == signed_bytes_text(bytes),
{
    if bytes == 0 {
        return "0 B".to_owned();
    }
    let mut out = if bytes < 0 {
        "-".to_owned()
    } else {
        "+".to_owned()
    };
    let size = format_bytes(unsigned_abs(bytes));
    out.append(size.as_str());
    out
}

/// A text cut to at most `width` characters by dropping its beginning: a text
/// that fits stays as it is; of a longer one the end is kept, after three
/// dots where `width` leaves room for more than those.
pub open spec fn truncated_left(text: Seq<char>, width: nat) -> Seq<char> {
    if text.len() <= width {
        text
    } else if width <= 3 {
        text.subrange(text.len() - width, text.len() as int)
    } else {
        "..."@ + text.subrange(text.len() - (width - 3), text.len() as int)
    }
}

/// Cuts a text to at most `width` characters, keeping its end.
pub fn truncate_left(text: &str, width: usize) -> (r: String)
    ensures
        r@ == truncated_left(text@, width as nat),
        r@.len() <= width || r@.len() == text@.len(),
{
    proof {
        reveal_strlit("...");
    }
    let len = text.unicode_len();
    if len <= width {
        text.to_owned()
    } else if width <= 3 {
        text.substring_char(len - width, len).to_owned()
    } else {
        let mut out = "...".to_owned();
        out.append(text.substring_char(len - (width - 3), len));
        out
    }
}

} // verus!
