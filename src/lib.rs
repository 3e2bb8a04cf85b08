pub mod ble;
pub mod steam_controller;
pub mod text;

use crate::text::string_from_utf8;
use vstd::prelude::*;
use vstd::utf8::{decode_utf8, valid_utf8};

verus! {

/// The bytes of a C character buffer, each `i8` read as the `u8` of the same bits.
pub open spec fn bytes_of(buffer: Seq<i8>) -> Seq<u8> {
    buffer.map_values(|c: i8| #[verifier::truncate] (c as u8))
}

/// `s` without the NUL characters at its end.
pub open spec fn trim_trailing_nuls(s: Seq<char>) -> Seq<char>
    decreases s.len(),
{
    if s.len() > 0 && s.last() == '\0' {
        trim_trailing_nuls(s.drop_last())
    } else {
        s
    }
}

/// Reads each `i8` as the `u8` of the same bits.
pub fn vec_i8_into_u8(v: Vec<i8>) -> (r: Vec<u8>)
    ensures
        r@ == bytes_of(v@),
{
    let mut r: Vec<u8> = Vec::new();
    let mut i: usize = 0;
    while i < v.len()
        invariant
            i <= v@.len(),
            r@ =~= bytes_of(v@).subrange(0, i as int),
        decreases v@.len() - i,
    {
        r.push(#[verifier::truncate] (v[i] as u8));
        i = i + 1;
    }
    r
}

/// The text of a C character buffer, as UTF-8, without the NUL padding at
/// its end; an error when the bytes are not UTF-8.
pub fn c_i8_to_string(buffer: &[i8]) -> (r: Result<String, std::string::FromUtf8Error>)
    ensures
        r is Ok <==> valid_utf8(bytes_of(buffer@)),
        r matches Ok(s) ==> s@ == trim_trailing_nuls(decode_utf8(bytes_of(buffer@))),
{
    let mut bytes: Vec<u8> = Vec::new();
    let mut i: usize = 0;
    while i < buffer.len()
        invariant
            i <= buffer@.len(),
            bytes@ =~= bytes_of(buffer@).subrange(0, i as int),
        decreases buffer@.len() - i,
    {
        bytes.push(#[verifier::truncate] (buffer[i] as u8));
        i = i + 1;
    }
    assert(bytes@ =~= bytes_of(buffer@));
    match string_from_utf8(bytes) {
        Ok(txt) => {
            let t = txt.as_str();
            let mut k = t.unicode_len();
            assert(t@.subrange(0, k as int) =~= t@);
            while k > 0 && t.get_char(k - 1) == '\0'
                invariant
                    k <= t@.len(),
                    trim_trailing_nuls(t@) == trim_trailing_nuls(t@.subrange(0, k as int)),
                decreases k,
            {
                assert(t@.subrange(0, k as int).drop_last() =~= t@.subrange(0, k - 1));
                k = k - 1;
            }
            Ok(t.substring_char(0, k).to_owned())
        },
        Err(e) => Err(e),
    }
}

} // verus!
