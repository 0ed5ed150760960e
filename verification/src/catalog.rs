//! The catalog of images: which files of the picture directory belong to
//! it, and under which address each is served.

use vstd::prelude::*;
use vstd::string::StringSliceAdditionalSpecFns;
use vstd::utf8::{decode_utf8, encode_utf8_decode_utf8, is_char_boundary};

verus! {

/// The number of bytes that the path of a file has before the address
/// under which the file is served: the length of `./static`.
pub const SERVED_FROM: usize = 8;

/// The bytes of `.jpg`, the ending of the files that are images.
pub open spec fn jpg_ending() -> Seq<u8> {
    seq![0x2e, 0x6a, 0x70, 0x67]
}

/// Whether `bytes` end in `.jpg`.
pub open spec fn ends_in_jpg(bytes: Seq<u8>) -> bool {
    bytes.len() >= 4 && bytes.skip(bytes.len() - 4) == jpg_ending()
}

/// Whether the address can be cut out of the path with these bytes: the
/// path reaches up to the address, and the address starts at a character.
pub open spec fn has_address(path: Seq<u8>) -> bool {
    path.len() >= SERVED_FROM && is_char_boundary(path, SERVED_FROM as int)
}

/// The bytes of the address in the path with these bytes.
pub open spec fn address_bytes(path: Seq<u8>) -> Seq<u8> {
    path.skip(SERVED_FROM as int)
}

/// The address under which the file at `path` is served, if the file is an
/// image: the path without its first eight bytes, where that ends in
/// `.jpg`.
pub fn image_url(path: &str) -> (url: Option<String>)
    requires
        has_address(path.spec_bytes()),
    ensures
        url is Some <==> ends_in_jpg(address_bytes(path.spec_bytes())),
        url matches Some(address) ==> address@ == decode_utf8(address_bytes(path.spec_bytes())),
{
    let (_, address) = path.split_at(SERVED_FROM);
    let bytes = address.as_bytes();
    let length = bytes.len();
    if length >= 4 && bytes[length - 4] == 0x2e && bytes[length - 3] == 0x6a && bytes[length - 2]
        == 0x70 && bytes[length - 1] == 0x67 {
        proof {
            encode_utf8_decode_utf8(address@);
            assert(bytes@.skip(bytes@.len() - 4) =~= jpg_ending());
        }
        Some(address.to_owned())
    } else {
        None
    }
}

} // verus!
