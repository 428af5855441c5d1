//! The engine's encoding of special JS values (booleans, null, undefined,
//! exceptions) in a `JSValue` word: the low `JS_TAG_SPECIAL_BITS` bits hold
//! the tag and the bits above hold the payload.

use vstd::prelude::*;

verus! {

/// A JS value as the engine stores it: one machine word.
pub type JSValue = u64;

/// The number of low bits that hold the tag of a special value.
pub const JS_TAG_SPECIAL_BITS: u32 = 5;

/// Tag of booleans.
pub const JS_TAG_BOOL: u32 = 3;

/// Tag of `null`.
pub const JS_TAG_NULL: u32 = 7;

/// Tag of `undefined`.
pub const JS_TAG_UNDEFINED: u32 = 11;

/// Tag of the exception marker.
pub const JS_TAG_EXCEPTION: u32 = 15;

/// `null`: the null tag with payload 0.
pub const JS_NULL: JSValue = 7;

/// `undefined`: the undefined tag with payload 0.
pub const JS_UNDEFINED: JSValue = 11;

/// `false`: the boolean tag with payload 0.
pub const JS_FALSE: JSValue = 3;

/// `true`: the boolean tag with payload 1.
pub const JS_TRUE: JSValue = 35;

/// The special value with tag `tag` and payload `v`, in 32-bit arithmetic.
pub open spec fn spec_make_special(tag: u32, v: u32) -> JSValue {
    (tag | (v << JS_TAG_SPECIAL_BITS)) as JSValue
}

/// The tag bits of a value.
pub open spec fn spec_special_tag(v: JSValue) -> u32 {
    (v as u32) & 31u32
}

/// Builds the special value with tag `tag` and payload `v`.
#[allow(non_snake_case)]
pub fn JS_VALUE_MAKE_SPECIAL(tag: u32, v: u32) -> (r: JSValue)
    ensures
        r == spec_make_special(tag, v),
{
    (tag | (v << JS_TAG_SPECIAL_BITS)) as JSValue
}

/// The JS boolean `v`.
pub fn js_mkbool(v: bool) -> (r: JSValue)
    ensures
        r == (if v { JS_TRUE } else { JS_FALSE }),
{
    if v {
        JS_TRUE
    } else {
        JS_FALSE
    }
}

/// The tag bits of a value.
pub fn js_value_special_tag(v: JSValue) -> (r: u32)
    ensures
        r == spec_special_tag(v),
        r < 32,
{
    let r = (v as u32) & 31u32;
    assert((v as u32) & 31u32 < 32) by (bit_vector);
    r
}

/// Whether a value is a JS boolean.
pub fn js_is_bool(v: JSValue) -> (r: bool)
    ensures
        r == (spec_special_tag(v) == JS_TAG_BOOL),
{
    js_value_special_tag(v) == JS_TAG_BOOL
}

/// The named constants are the special values they name.
pub proof fn lemma_special_constants()
    ensures
        JS_NULL == spec_make_special(JS_TAG_NULL, 0),
        JS_UNDEFINED == spec_make_special(JS_TAG_UNDEFINED, 0),
        JS_FALSE == spec_make_special(JS_TAG_BOOL, 0),
        JS_TRUE == spec_make_special(JS_TAG_BOOL, 1),
{
    assert((7u32 | (0u32 << 5u32)) as u64 == 7u64) by (bit_vector);
    assert((11u32 | (0u32 << 5u32)) as u64 == 11u64) by (bit_vector);
    assert((3u32 | (0u32 << 5u32)) as u64 == 3u64) by (bit_vector);
    assert((3u32 | (1u32 << 5u32)) as u64 == 35u64) by (bit_vector);
}

/// Reading the tag back from a special value gives the tag it was built
/// with, for every tag that fits in the tag bits and every payload.
pub proof fn lemma_tag_of_special(tag: u32, v: u32)
    requires
        tag < 32,
    ensures
        spec_special_tag(spec_make_special(tag, v)) == tag,
{
    assert(((tag | (v << 5u32)) as u64) as u32 & 31u32 == tag) by (bit_vector)
        requires
            tag < 32u32,
    ;
}

/// Every JS boolean is recognised as a boolean, and null, undefined and the
/// exception marker are not.
pub proof fn lemma_bool_recognition(b: bool)
    ensures
        spec_special_tag(if b { JS_TRUE } else { JS_FALSE }) == JS_TAG_BOOL,
        spec_special_tag(JS_NULL) != JS_TAG_BOOL,
        spec_special_tag(JS_UNDEFINED) != JS_TAG_BOOL,
        spec_special_tag(15) != JS_TAG_BOOL,
{
    assert((35u64 as u32) & 31u32 == 3u32) by (bit_vector);
    assert((3u64 as u32) & 31u32 == 3u32) by (bit_vector);
    assert((7u64 as u32) & 31u32 == 7u32) by (bit_vector);
    assert((11u64 as u32) & 31u32 == 11u32) by (bit_vector);
    assert((15u64 as u32) & 31u32 == 15u32) by (bit_vector);
}

/// Keeps the registration entry point; the engine links its extensions at
/// build time, so there is nothing to register at run time.
pub fn register_extensions() {
}

/// Former name of `register_extensions`.
pub fn register_all_ridl_modules() {
    register_extensions();
}

} // verus!
