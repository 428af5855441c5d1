//! The sizing rules of a JS context's memory block.

use crate::ridl::text::{nat_text, push_nat_wide, push_str};
use crate::js_value::JSValue;
use crate::ridl_glue::string_from_chars;
use vstd::prelude::*;

verus! {

/// The least number of bytes left to the engine's heap and stack beside the
/// context header and the class tables.
pub const MIN_HEAP_BYTES: usize = 8192;

/// The number of bytes a context needs: its header, two tables of
/// `class_count` JS values, and `MIN_HEAP_BYTES`.
pub open spec fn spec_min_context_memory(header_size: usize, class_count: usize) -> int {
    header_size + 2 * class_count * vstd::layout::size_of::<JSValue>() + MIN_HEAP_BYTES
}

/// The number of bytes a context needs, or `None` when that number does not
/// fit in a `usize`.
pub fn min_context_memory(header_size: usize, class_count: usize) -> (r: Option<usize>)
    ensures
        r matches Some(n) ==> n == spec_min_context_memory(header_size, class_count),
        r is None <==> spec_min_context_memory(header_size, class_count) > usize::MAX,
{
    broadcast use vstd::layout::layout_of_primitives;

    let table_entry = 2 * std::mem::size_of::<JSValue>();
    if class_count > (usize::MAX - MIN_HEAP_BYTES) / table_entry {
        return None;
    }
    let tables = table_entry * class_count;
    assert(tables == 2 * class_count * vstd::layout::size_of::<JSValue>()) by (nonlinear_arith)
        requires
            table_entry == 2 * vstd::layout::size_of::<JSValue>(),
            tables == table_entry * class_count,
    ;
    if header_size > usize::MAX - MIN_HEAP_BYTES - tables {
        return None;
    }
    Some(header_size + tables + MIN_HEAP_BYTES)
}

/// Whether `memory_capacity` bytes are enough for a context with the given
/// header size and class count.
pub fn memory_capacity_suffices(memory_capacity: usize, header_size: usize, class_count: usize) -> (r:
    bool)
    ensures
        r == (memory_capacity >= spec_min_context_memory(header_size, class_count)),
{
    match min_context_memory(header_size, class_count) {
        Some(n) => memory_capacity >= n,
        None => false,
    }
}

/// The message of a refused memory size: the size, the least size, and
/// what that least size is made of.
pub open spec fn too_small_text(memory_capacity: nat, min_required: nat, class_count: nat) -> Seq<char> {
    "memory_capacity too small: "@ + nat_text(memory_capacity) + " bytes, need at least "@ + nat_text(
        min_required,
    ) + " bytes (context header + class tables for "@ + nat_text(class_count) + " classes + "@ + nat_text(
        MIN_HEAP_BYTES as nat,
    ) + " bytes heap)"@
}

/// Accepts a memory size that holds a context, and refuses a smaller one
/// with a message that gives the least size. The engine itself does not
/// check this: a smaller block would corrupt memory.
pub fn check_context_memory(memory_capacity: usize, header_size: usize, class_count: usize) -> (r: Result<
    (),
    String,
>)
    ensures
        r is Ok <==> memory_capacity >= spec_min_context_memory(header_size, class_count),
        r matches Err(m) ==> m@ == too_small_text(
            memory_capacity as nat,
            spec_min_context_memory(header_size, class_count) as nat,
            class_count as nat,
        ),
{
    if memory_capacity_suffices(memory_capacity, header_size, class_count) {
        return Ok(());
    }
    broadcast use vstd::layout::layout_of_primitives;

    let table_entry = 2 * std::mem::size_of::<JSValue>();
    let min_required: u128 = header_size as u128 + (table_entry as u128) * (class_count as u128)
        + MIN_HEAP_BYTES as u128;
    let mut out: Vec<char> = Vec::new();
    push_str(&mut out, "memory_capacity too small: ");
    push_nat_wide(&mut out, memory_capacity as u128);
    push_str(&mut out, " bytes, need at least ");
    push_nat_wide(&mut out, min_required);
    push_str(&mut out, " bytes (context header + class tables for ");
    push_nat_wide(&mut out, class_count as u128);
    push_str(&mut out, " classes + ");
    push_nat_wide(&mut out, MIN_HEAP_BYTES as u128);
    push_str(&mut out, " bytes heap)");
    assert(out@ =~= too_small_text(
        memory_capacity as nat,
        spec_min_context_memory(header_size, class_count) as nat,
        class_count as nat,
    ));
    Err(string_from_chars(out))
}

/// The memory block handed to the engine for a context: whole eight-byte
/// words, so that the block is eight-byte aligned.
pub(crate) struct AlignedHeap {
    words: Vec<u64>,
}

impl AlignedHeap {
    pub(crate) closed spec fn spec_len(&self) -> int {
        (self.words@.len() * 8) as int
    }

    /// Every byte of the block is zero.
    pub(crate) closed spec fn spec_zeroed(&self) -> bool {
        forall|i: int| 0 <= i < self.words@.len() ==> self.words@[i] == 0
    }

    /// At least `bytes` zeroed bytes, rounded up to whole words.
    pub(crate) fn new(bytes: usize) -> (h: Self)
        ensures
            h.spec_len() == (bytes + 7) / 8 * 8,
            h.spec_zeroed(),
    {
        let words = bytes / 8 + if bytes % 8 != 0 { 1 } else { 0 };
        assert(words == (bytes + 7) / 8);
        let v = vec![0u64; words];
        AlignedHeap { words: v }
    }

    /// The block's size in bytes.
    pub(crate) fn len(&self) -> (r: usize)
        requires
            self.spec_len() <= usize::MAX,
        ensures
            r == self.spec_len(),
    {
        self.words.len() * 8
    }
}

} // verus!
