//! The line that identifies an image: its UUID, architecture and path.

use crate::context::Context;
use crate::error::Error;
use crate::image::File;
use crate::text::{center, centered};
use vstd::prelude::*;
use vstd::string::*;

verus! {

/// The character that stands for the hexadecimal digit `d`, upper case.
pub open spec fn upper_digit_char(d: int) -> char {
    if d == 0 {
        '0'
    } else if d == 1 {
        '1'
    } else if d == 2 {
        '2'
    } else if d == 3 {
        '3'
    } else if d == 4 {
        '4'
    } else if d == 5 {
        '5'
    } else if d == 6 {
        '6'
    } else if d == 7 {
        '7'
    } else if d == 8 {
        '8'
    } else if d == 9 {
        '9'
    } else if d == 10 {
        'A'
    } else if d == 11 {
        'B'
    } else if d == 12 {
        'C'
    } else if d == 13 {
        'D'
    } else if d == 14 {
        'E'
    } else {
        'F'
    }
}

/// Two upper-case hexadecimal digits for each of `bytes`, in order.
pub open spec fn hex_pairs(bytes: Seq<u8>) -> Seq<char>
    decreases bytes.len(),
{
    if bytes.len() == 0 {
        Seq::empty()
    } else {
        hex_pairs(bytes.drop_last()) + seq![
            upper_digit_char(bytes.last() as int / 16),
            upper_digit_char(bytes.last() as int % 16),
        ]
    }
}

/// The sixteen bytes of a UUID as text: upper-case hexadecimal digits in
/// groups of 8, 4, 4, 4 and 12, with hyphens between the groups.
pub open spec fn hyphenated_upper(bytes: Seq<u8>) -> Seq<char> {
    hex_pairs(bytes.subrange(0, 4)) + seq!['-'] + hex_pairs(bytes.subrange(4, 6)) + seq!['-']
        + hex_pairs(bytes.subrange(6, 8)) + seq!['-'] + hex_pairs(bytes.subrange(8, 10)) + seq![
        '-',
    ] + hex_pairs(bytes.subrange(10, 16))
}

/// The line that identifies an image: four spaces, the UUID, the
/// architecture centred in eight characters, and the path, two spaces
/// before and behind the architecture.
pub open spec fn header_text(uuid: Seq<u8>, arch: Seq<char>, path: Seq<char>) -> Seq<char> {
    "    "@ + hyphenated_upper(uuid) + "  "@ + centered(arch, 8) + "  "@ + path
}

/// The text of a UUID, by `uuid::fmt::Hyphenated::encode_upper` on the
/// UUID that `uuid::Uuid::from_bytes` makes of `bytes`. Not proved: that
/// the text is the bytes in order as upper-case hexadecimal digits, two
/// for each, with hyphens behind the fourth, sixth, eighth and tenth byte.
#[verifier::external_body]
fn uuid_text(bytes: &[u8; 16]) -> (r: String)
    ensures
        r@ == hyphenated_upper(bytes@),
{
    let id = uuid::Uuid::from_bytes(*bytes);
    let mut buffer = uuid::Uuid::encode_buffer();
    String::from(&*id.hyphenated().encode_upper(&mut buffer))
}

/// The line that identifies an image with the UUID `uuid`.
pub fn print_header(uuid: &[u8; 16], arch: &str, path: &str) -> (r: String)
    ensures
        r@ == header_text(uuid@, arch@, path@),
{
    let mut out = String::new();
    out.append("    ");
    out.append(uuid_text(uuid).as_str());
    out.append("  ");
    out.append(center(arch, 8).as_str());
    out.append("  ");
    out.append(path);
    assert(out@ =~= header_text(uuid@, arch@, path@));
    out
}

/// The line that identifies the image of a run; an image without a UUID
/// has none.
pub fn header_line(obj: &File, ctx: &Context) -> (r: Result<String, Error>)
    ensures
        match r {
            Ok(line) => obj.uuid is Some && line@ == header_text(
                obj.uuid.unwrap()@,
                obj.architecture@,
                ctx.obj_path@,
            ),
            Err(e) => obj.uuid is None && e == Error::ObjectHasNoUuid,
        },
{
    match obj.mach_uuid() {
        Ok(id) => Ok(print_header(&id, obj.architecture.as_str(), ctx.obj_path.as_str())),
        Err(e) => Err(e),
    }
}

} // verus!
