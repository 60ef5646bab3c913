//! The format of a GST number.

use vstd::prelude::*;
use vstd::string::*;
use crate::text::{is_ascii_alnum, is_ascii_alnum_char, trim, trimmed};

verus! {

/// The text is 15 characters long and each of them is an ASCII letter or
/// digit.
pub open spec fn gst_shape(t: Seq<char>) -> bool {
    t.len() == 15 && forall|i: int| 0 <= i < t.len() ==> is_ascii_alnum(#[trigger] t[i])
}

/// Once trimmed, the text has the shape of a GST number. Nothing inside the
/// number is decoded.
pub open spec fn gst_format_ok(s: Seq<char>) -> bool {
    gst_shape(trimmed(s))
}

/// Every character of the text is an ASCII letter or digit.
pub fn all_ascii_alnum(s: &str) -> (r: bool)
    ensures
        r == (forall|i: int| 0 <= i < s@.len() ==> is_ascii_alnum(#[trigger] s@[i])),
{
    let n: usize = s.unicode_len();
    let mut i: usize = 0;
    while i < n
        invariant
            i <= n,
            n == s@.len(),
            forall|k: int| 0 <= k < i ==> is_ascii_alnum(#[trigger] s@[k]),
        decreases n - i,
    {
        if !is_ascii_alnum_char(s.get_char(i)) {
            return false;
        }
        i += 1;
    }
    true
}

/// Whether a text has the format of a GST number.
pub fn is_valid_gst_format(gst_no: &str) -> (r: bool)
    ensures
        r == gst_format_ok(gst_no@),
{
    let t = trim(gst_no);
    t.as_str().unicode_len() == 15 && all_ascii_alnum(t.as_str())
}

} // verus!
