//! Small general-purpose helpers shared by the toolkit.

use vstd::prelude::*;
use crate::text_util::str_eq;

verus! {

/// Increments `*value` by one and returns the value it had before.
pub fn post_inc(value: &mut usize) -> (prev: usize)
    requires
        *old(value) < usize::MAX,
    ensures
        prev == *old(value),
        *final(value) == *old(value) + 1,
{
    let prev = *value;
    *value = *value + 1;
    prev
}

/// Consecutive increments of one counter hand out consecutive values: if
/// each of `k` calls of [`post_inc`] meets its contract (call `i` returns
/// `values[i]` and leaves `values[i + 1]`), call `i` returns the starting
/// value plus `i`, and the counter ends `k` higher than it started.
pub proof fn lemma_post_inc_sequence(values: Seq<int>, returned: Seq<int>)
    requires
        values.len() == returned.len() + 1,
        forall|i: int| 0 <= i < returned.len() ==> #[trigger] returned[i] == values[i] && values[i + 1] == values[i] + 1,
    ensures
        forall|i: int| 0 <= i < returned.len() ==> #[trigger] returned[i] == values[0] + i,
        values[returned.len() as int] == values[0] + returned.len(),
    decreases returned.len(),
{
    if returned.len() > 0 {
        let k = returned.len() - 1;
        lemma_post_inc_sequence(values.take(k + 1), returned.take(k));
        assert(returned[k] == values[k] && values[k + 1] == values[k] + 1);
        assert(values.take(k + 1)[k] == values[k]);
        assert forall|i: int| 0 <= i < returned.len() implies #[trigger] returned[i] == values[0] + i by {
            if i < k {
                assert(returned.take(k)[i] == returned[i]);
            }
        }
    }
}

/// The 128-bit product of `a` and `b`, folded into 64 bits by xor-ing its
/// low and high halves.
pub open spec fn spec_mix_hashes(a: u64, b: u64) -> u64 {
    let r = (a as int) * (b as int);
    ((r % 0x1_0000_0000_0000_0000) as u64) ^ ((r / 0x1_0000_0000_0000_0000) as u64)
}

/// Mixes two hashes into one.
pub fn mix_hashes(a: u64, b: u64) -> (r: u64)
    ensures
        r == spec_mix_hashes(a, b),
{
    let wa = a as u128;
    let wb = b as u128;
    assert(wa * wb <= 0xffff_ffff_ffff_ffffu128 * 0xffff_ffff_ffff_ffffu128) by (nonlinear_arith)
        requires
            wa <= 0xffff_ffff_ffff_ffffu128,
            wb <= 0xffff_ffff_ffff_ffffu128,
    ;
    let r: u128 = wa * wb;
    let lo: u64 = r as u64;
    let hi: u64 = (r >> 64u32) as u64;
    assert(lo == r % 0x1_0000_0000_0000_0000) by (bit_vector)
        requires
            lo == r as u64,
    ;
    assert(hi == r / 0x1_0000_0000_0000_0000) by (bit_vector)
        requires
            hi == (r >> 64u32) as u64,
    ;
    lo ^ hi
}

/// Mixing is symmetric: the order of the two hashes does not matter.
pub proof fn lemma_mix_hashes_commutative(a: u64, b: u64)
    ensures
        spec_mix_hashes(a, b) == spec_mix_hashes(b, a),
{
    assert((a as int) * (b as int) == (b as int) * (a as int)) by (nonlinear_arith);
}

/// Marker that is present while an element styled to debug everything below
/// it is being painted.
pub struct DebugBelow;

/// Runs `block` immediately and returns what it returns; a function form of
/// a `try` block, so that `?` inside the closure leaves only the closure.
pub fn trys<T, F: FnOnce() -> T>(block: F) -> (r: T)
    requires
        block.requires(()),
    ensures
        block.ensures((), r),
{
    block()
}

/// Whether a value of the measurement switch turns measuring on: `1`,
/// `true`, `yes` or `y`.
pub open spec fn measure_value_enabled(value: Seq<char>) -> bool {
    ||| value == seq!['1']
    ||| value == seq!['t', 'r', 'u', 'e']
    ||| value == seq!['y', 'e', 's']
    ||| value == seq!['y']
}

/// Whether timing measurements are on, given the value of the measurement
/// switch (`None` when it is unset or unreadable, which means off).
pub fn measure_enabled(value: Option<&str>) -> (on: bool)
    ensures
        on == match value {
            Some(v) => measure_value_enabled(v@),
            None => false,
        },
{
    proof {
        reveal_strlit("1");
        reveal_strlit("true");
        reveal_strlit("yes");
        reveal_strlit("y");
        assert("1"@ =~= seq!['1']);
        assert("true"@ =~= seq!['t', 'r', 'u', 'e']);
        assert("yes"@ =~= seq!['y', 'e', 's']);
        assert("y"@ =~= seq!['y']);
    }
    match value {
        Some(v) => str_eq(v, "1") || str_eq(v, "true") || str_eq(v, "yes") || str_eq(v, "y"),
        None => false,
    }
}

} // verus!
