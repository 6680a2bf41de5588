//! Reading bytes as UTF-8 text.

use vstd::prelude::*;
use vstd::utf8::{encode_utf8, valid_utf8};

verus! {

/// Calls `String::from_utf8`: the text the bytes encode, when they are UTF-8.
#[verifier::external_body]
pub(crate) fn utf8_text(bytes: &[u8]) -> (res: Option<String>)
    ensures
        res is Some <==> valid_utf8(bytes@),
        res matches Some(s) ==> encode_utf8(s@) == bytes@,
{
    String::from_utf8(bytes.to_vec()).ok()
}

} // verus!
