//! Functions that hand back one of the references they were given.

use vstd::prelude::*;
use vstd::string::StringSliceAdditionalSpecFns;
use vstd::utf8::encode_utf8;

verus! {

/// The length of a text in bytes, as UTF-8 encodes it.
pub open spec fn byte_len(text: Seq<char>) -> nat {
    encode_utf8(text).len()
}

/// The longer of two texts, counted in bytes; the second where they are
/// level.
pub fn longest<'a>(x: &'a str, y: &'a str) -> (r: &'a str)
    ensures
        r@ == (if byte_len(x@) > byte_len(y@) {
            x@
        } else {
            y@
        }),
{
    if x.as_bytes().len() > y.as_bytes().len() {
        x
    } else {
        y
    }
}

/// The first number where it is even, else the second.
pub fn return_same<'a>(x: &'a u32, y: &'a u32) -> (r: &'a u32)
    ensures
        *r == (if *x % 2 == 0 {
            *x
        } else {
            *y
        }),
{
    if *x % 2 == 0 {
        x
    } else {
        y
    }
}

/// The text it was given.
pub fn same(s: &str) -> (r: &str)
    ensures
        r@ == s@,
{
    s
}

} // verus!
