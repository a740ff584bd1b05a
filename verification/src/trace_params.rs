//! The parameter block of the engine's `LineTraceSingle` and how its answer is read.
//!
//! Layout (offsets in bytes, little-endian):
//! `0x00` world context object, `0x08` start vector, `0x14` end vector,
//! `0x20` trace channel, `0x21` trace-complex flag, `0x28` data pointer of the
//! actors to ignore, `0x30` their number, `0x34` their capacity, `0x38` debug
//! draw type, `0x3C..0xC4` hit result, `0xC4` ignore-self flag, `0xC8..0xE8`
//! trace colours, `0xE8` draw time, `0xEC` return value.

use vstd::prelude::*;

verus! {

/// Size of the parameter block.
pub const TRACE_PARAMS_SIZE: usize = 0xF0;

/// Index of `ProcessEvent` in the object's virtual table.
pub const PROCESS_EVENT_VTABLE_IDX: usize = 0x44;

/// Trace channel 1, visibility in the default engine setup.
pub const TRACE_CHANNEL_VISIBILITY: u8 = 0;

/// Offset of the return value: non-zero where something blocked the line.
pub const RETURN_VALUE_OFFSET: usize = 0xEC;

/// Offset of the ignore-self flag.
pub const IGNORE_SELF_OFFSET: usize = 0xC4;

/// The `n` low bytes of `v`, least significant first.
pub open spec fn le_bytes(v: u64, n: nat) -> Seq<u8> {
    Seq::new(n, |k: int| ((v >> ((8 * k) as u64)) & 0xff) as u8)
}

/// `n` zero bytes.
pub open spec fn zeros(n: nat) -> Seq<u8> {
    Seq::new(n, |k: int| 0u8)
}

/// The number of ignored actors as the engine's 32-bit count holds it.
pub open spec fn ignore_count_bits(ignore_len: usize) -> u64 {
    ((ignore_len as i32) as u32) as u64
}

/// The bytes of three 32-bit values, one after the other.
pub open spec fn vector_bytes(v: [u32; 3]) -> Seq<u8> {
    le_bytes(v[0] as u64, 4) + le_bytes(v[1] as u64, 4) + le_bytes(v[2] as u64, 4)
}

/// The parameter block for a trace in `world` from `start` to `end` (the bit
/// patterns of the vectors' components) that ignores the `ignore_len` actors
/// whose pointers start at `ignore_data`.
pub open spec fn spec_trace_params(
    world: u64,
    start: [u32; 3],
    end: [u32; 3],
    ignore_data: u64,
    ignore_len: usize,
) -> Seq<u8> {
    le_bytes(world, 8) + vector_bytes(start) + vector_bytes(end) + seq![TRACE_CHANNEL_VISIBILITY, 0u8]
        + zeros(6) + le_bytes(ignore_data, 8) + le_bytes(ignore_count_bits(ignore_len), 4) + le_bytes(
        ignore_count_bits(ignore_len),
        4,
    ) + seq![0u8] + zeros((0xC4 - 0x39) as nat) + seq![1u8] + zeros((0xF0 - 0xC5) as nat)
}

fn push_le(out: &mut Vec<u8>, v: u64, n: usize)
    requires
        n <= 8,
    ensures
        final(out)@ == old(out)@ + le_bytes(v, n as nat),
{
    let ghost before = out@;
    for k in 0..n
        invariant
            n <= 8,
            out@ == before + le_bytes(v, k as nat),
    {
        out.push(((v >> ((8 * k) as u64)) & 0xff) as u8);
        assert(out@ =~= before + le_bytes(v, (k + 1) as nat));
    }
}

fn push_zeros(out: &mut Vec<u8>, n: usize)
    ensures
        final(out)@ == old(out)@ + zeros(n as nat),
{
    let ghost before = out@;
    for k in 0..n
        invariant
            out@ == before + zeros(k as nat),
    {
        out.push(0u8);
        assert(out@ =~= before + zeros((k + 1) as nat));
    }
}

fn push_vector(out: &mut Vec<u8>, v: [u32; 3])
    ensures
        final(out)@ == old(out)@ + vector_bytes(v),
{
    let ghost before = out@;
    push_le(out, v[0] as u64, 4);
    push_le(out, v[1] as u64, 4);
    push_le(out, v[2] as u64, 4);
    assert(out@ =~= before + vector_bytes(v));
}

/// Builds the parameter block of a line trace in `world` from `start` to `end`
/// (the bit patterns of the vectors' components), ignoring the `ignore_len`
/// actors whose pointers start at `ignore_data`; the return value is zero.
pub fn trace_params(world: u64, start: [u32; 3], end: [u32; 3], ignore_data: u64, ignore_len: usize) -> (r: Vec<u8>)
    ensures
        r@ == spec_trace_params(world, start, end, ignore_data, ignore_len),
        r@.len() == TRACE_PARAMS_SIZE,
        forall|k: int| 0 <= k < 8 ==> #[trigger] r@[k] as int == (world as int / byte_scale(k)) % 256,
        forall|k: int|
            0 <= k < 4 ==> #[trigger] r@[0x30 + k] as int == ((ignore_len as int % 0x1_0000_0000)
                / byte_scale(k)) % 256,
        forall|k: int|
            0 <= k < 4 ==> #[trigger] r@[0x34 + k] as int == ((ignore_len as int % 0x1_0000_0000)
                / byte_scale(k)) % 256,
        r@[0xC4] == 1,
        r@[0xEC] == 0,
{
    let mut out: Vec<u8> = Vec::new();
    push_le(&mut out, world, 8);
    push_vector(&mut out, start);
    push_vector(&mut out, end);
    out.push(TRACE_CHANNEL_VISIBILITY);
    out.push(0u8);
    push_zeros(&mut out, 6);
    push_le(&mut out, ignore_data, 8);
    let count: i32 = ignore_len as i32;
    let count_bits: u64 = (count as u32) as u64;
    push_le(&mut out, count_bits, 4);
    push_le(&mut out, count_bits, 4);
    out.push(0u8);
    push_zeros(&mut out, 0xC4 - 0x39);
    out.push(1u8);
    push_zeros(&mut out, 0xF0 - 0xC5);
    assert(out@ =~= spec_trace_params(world, start, end, ignore_data, ignore_len));
    proof {
        lemma_trace_params_bytes(world, start, end, ignore_data, ignore_len);
    }
    out
}

/// Whether a trace can be asked at all: it needs a world and a known line-trace
/// function. Where it cannot, the target counts as visible.
pub fn can_trace(world: usize, func: usize) -> (r: bool)
    ensures
        r == (world != 0 && func != 0),
{
    world != 0 && func != 0
}

/// Where the `ProcessEvent` entry of a virtual table at `vtable` is read:
/// nowhere for a null table.
pub fn process_event_slot(vtable: usize) -> (r: Option<usize>)
    requires
        vtable == 0 || vtable + PROCESS_EVENT_VTABLE_IDX * 8 <= usize::MAX,
    ensures
        r == (if vtable == 0 {
            None
        } else {
            Some((vtable + 0x220) as usize)
        }),
{
    if vtable == 0 {
        return None;
    }
    Some(vtable + PROCESS_EVENT_VTABLE_IDX * 8)
}

/// Whether a completed trace reports the line unobstructed: its return value is zero.
pub fn trace_reports_visible(params: &[u8]) -> (r: bool)
    requires
        params@.len() == TRACE_PARAMS_SIZE,
    ensures
        r == (params@[0xEC] == 0),
{
    params[RETURN_VALUE_OFFSET] == 0
}

/// Every field of the parameter block sits at its offset in the engine's layout,
/// the block is `TRACE_PARAMS_SIZE` bytes long, and its return value starts at zero.
pub proof fn lemma_trace_params_layout(
    world: u64,
    start: [u32; 3],
    end: [u32; 3],
    ignore_data: u64,
    ignore_len: usize,
)
    ensures
        ({
            let p = spec_trace_params(world, start, end, ignore_data, ignore_len);
            &&& p.len() == TRACE_PARAMS_SIZE
            &&& p.subrange(0x00, 0x08) == le_bytes(world, 8)
            &&& p.subrange(0x08, 0x14) == vector_bytes(start)
            &&& p.subrange(0x14, 0x20) == vector_bytes(end)
            &&& p[0x20] == TRACE_CHANNEL_VISIBILITY
            &&& p[0x21] == 0
            &&& p.subrange(0x28, 0x30) == le_bytes(ignore_data, 8)
            &&& p.subrange(0x30, 0x34) == le_bytes(ignore_count_bits(ignore_len), 4)
            &&& p.subrange(0x34, 0x38) == le_bytes(ignore_count_bits(ignore_len), 4)
            &&& p[0x38] == 0
            &&& p.subrange(0x22, 0x28) == zeros(6)
            &&& p.subrange(0x39, 0xC4) == zeros((0xC4 - 0x39) as nat)
            &&& p.subrange(0x3C, 0xC4) == zeros((0xC4 - 0x3C) as nat)
            &&& p[IGNORE_SELF_OFFSET as int] == 1
            &&& p.subrange(0xC5, 0xF0) == zeros((0xF0 - 0xC5) as nat)
            &&& p[RETURN_VALUE_OFFSET as int] == 0
        }),
{
    let p = spec_trace_params(world, start, end, ignore_data, ignore_len);
    assert(p.subrange(0x00, 0x08) =~= le_bytes(world, 8));
    assert(p.subrange(0x08, 0x14) =~= vector_bytes(start));
    assert(p.subrange(0x14, 0x20) =~= vector_bytes(end));
    assert(p.subrange(0x28, 0x30) =~= le_bytes(ignore_data, 8));
    assert(p.subrange(0x30, 0x34) =~= le_bytes(ignore_count_bits(ignore_len), 4));
    assert(p.subrange(0x34, 0x38) =~= le_bytes(ignore_count_bits(ignore_len), 4));
    assert(p.subrange(0x22, 0x28) =~= zeros(6));
    assert(p.subrange(0x39, 0xC4) =~= zeros((0xC4 - 0x39) as nat));
    assert(p.subrange(0x3C, 0xC4) =~= zeros((0xC4 - 0x3C) as nat));
    assert(p.subrange(0xC5, 0xF0) =~= zeros((0xF0 - 0xC5) as nat));
}

/// 256 to the power `k`, for `k` in `0..8`.
pub open spec fn byte_scale(k: int) -> int {
    if k == 0 {
        1
    } else if k == 1 {
        0x100
    } else if k == 2 {
        0x1_0000
    } else if k == 3 {
        0x100_0000
    } else if k == 4 {
        0x1_0000_0000
    } else if k == 5 {
        0x100_0000_0000
    } else if k == 6 {
        0x1_0000_0000_0000
    } else {
        0x100_0000_0000_0000
    }
}

/// Byte `k` of the little-endian encoding of `v` is digit `k` of `v` in base 256.
pub proof fn lemma_le_byte(v: u64, n: nat, k: int)
    requires
        0 <= k < n <= 8,
    ensures
        le_bytes(v, n)[k] as int == (v as int / byte_scale(k)) % 256,
{
    let b = le_bytes(v, n)[k];
    if k == 0 {
        assert(((v >> 0u64) & 0xff) as u8 == (v % 256) as u8) by (bit_vector);
    } else if k == 1 {
        assert(((v >> 8u64) & 0xff) as u8 == ((v / 0x100) % 256) as u8) by (bit_vector);
    } else if k == 2 {
        assert(((v >> 16u64) & 0xff) as u8 == ((v / 0x1_0000) % 256) as u8) by (bit_vector);
    } else if k == 3 {
        assert(((v >> 24u64) & 0xff) as u8 == ((v / 0x100_0000) % 256) as u8) by (bit_vector);
    } else if k == 4 {
        assert(((v >> 32u64) & 0xff) as u8 == ((v / 0x1_0000_0000) % 256) as u8) by (bit_vector);
    } else if k == 5 {
        assert(((v >> 40u64) & 0xff) as u8 == ((v / 0x100_0000_0000) % 256) as u8) by (bit_vector);
    } else if k == 6 {
        assert(((v >> 48u64) & 0xff) as u8 == ((v / 0x1_0000_0000_0000) % 256) as u8) by (bit_vector);
    } else {
        assert(((v >> 56u64) & 0xff) as u8 == ((v / 0x100_0000_0000_0000) % 256) as u8) by (bit_vector);
    }
}

/// The ignored-actor count as the block holds it is the number of actors taken
/// modulo 2^32.
pub proof fn lemma_ignore_count_bits(ignore_len: usize)
    ensures
        ignore_count_bits(ignore_len) as int == ignore_len as int % 0x1_0000_0000,
{
    let x = ignore_len;
    assert((((x as i32) as u32) as u64) == (x as u64) % 0x1_0000_0000u64) by (bit_vector);
}

/// Every byte of the parameter block, in base-256 digits: the world pointer at
/// 0x00, the start and end vectors at 0x08 and 0x14, the ignore data pointer at
/// 0x28, the ignore count (the number of actors modulo 2^32) at 0x30 and again
/// at 0x34, trace channel 0 at 0x20, ignore-self 1 at 0xC4, and zero everywhere
/// else; the block is 0xF0 bytes.
pub proof fn lemma_trace_params_bytes(
    world: u64,
    start: [u32; 3],
    end: [u32; 3],
    ignore_data: u64,
    ignore_len: usize,
)
    ensures
        ({
            let p = spec_trace_params(world, start, end, ignore_data, ignore_len);
            &&& p.len() == 0xF0
            &&& forall|k: int| 0 <= k < 8 ==> #[trigger] p[k] as int == (world as int / byte_scale(k)) % 256
            &&& forall|f: int, b: int|
                0 <= f < 3 && 0 <= b < 4 ==> #[trigger] p[0x08 + 4 * f + b] as int == (start[f] as int
                    / byte_scale(b)) % 256
            &&& forall|f: int, b: int|
                0 <= f < 3 && 0 <= b < 4 ==> #[trigger] p[0x14 + 4 * f + b] as int == (end[f] as int
                    / byte_scale(b)) % 256
            &&& p[0x20] == 0 && p[0x21] == 0
            &&& forall|k: int|
                0 <= k < 8 ==> #[trigger] p[0x28 + k] as int == (ignore_data as int / byte_scale(k)) % 256
            &&& forall|k: int|
                0 <= k < 4 ==> #[trigger] p[0x30 + k] as int == ((ignore_len as int % 0x1_0000_0000)
                    / byte_scale(k)) % 256
            &&& forall|k: int|
                0 <= k < 4 ==> #[trigger] p[0x34 + k] as int == ((ignore_len as int % 0x1_0000_0000)
                    / byte_scale(k)) % 256
            &&& p[0x38] == 0
            &&& p[0xC4] == 1
            &&& p[0xEC] == 0
            &&& forall|k: int|
                (0x22 <= k < 0x28 || 0x39 <= k < 0xC4 || 0xC5 <= k < 0xF0) ==> #[trigger] p[k] == 0
        }),
{
    let p = spec_trace_params(world, start, end, ignore_data, ignore_len);
    lemma_trace_params_layout(world, start, end, ignore_data, ignore_len);
    lemma_ignore_count_bits(ignore_len);
    let n = ignore_count_bits(ignore_len);
    assert forall|k: int| 0 <= k < 8 implies #[trigger] p[k] as int == (world as int / byte_scale(k))
        % 256 by {
        assert(p[k] == p.subrange(0x00, 0x08)[k]);
        lemma_le_byte(world, 8, k);
    }
    assert forall|k: int| 0 <= k < 8 implies #[trigger] p[0x28 + k] as int == (ignore_data as int
        / byte_scale(k)) % 256 by {
        assert(p[0x28 + k] == p.subrange(0x28, 0x30)[k]);
        lemma_le_byte(ignore_data, 8, k);
    }
    assert forall|k: int| 0 <= k < 4 implies #[trigger] p[0x30 + k] as int == ((ignore_len as int
        % 0x1_0000_0000) / byte_scale(k)) % 256 by {
        assert(p[0x30 + k] == p.subrange(0x30, 0x34)[k]);
        lemma_le_byte(n, 4, k);
    }
    assert forall|k: int| 0 <= k < 4 implies #[trigger] p[0x34 + k] as int == ((ignore_len as int
        % 0x1_0000_0000) / byte_scale(k)) % 256 by {
        assert(p[0x34 + k] == p.subrange(0x34, 0x38)[k]);
        lemma_le_byte(n, 4, k);
    }
    assert forall|f: int, b: int| 0 <= f < 3 && 0 <= b < 4 implies #[trigger] p[0x08 + 4 * f + b] as int
        == (start[f] as int / byte_scale(b)) % 256 by {
        assert(p[0x08 + 4 * f + b] == p.subrange(0x08, 0x14)[4 * f + b]);
        assert(vector_bytes(start)[4 * f + b] == le_bytes(start[f] as u64, 4)[b]);
        lemma_le_byte(start[f] as u64, 4, b);
    }
    assert forall|f: int, b: int| 0 <= f < 3 && 0 <= b < 4 implies #[trigger] p[0x14 + 4 * f + b] as int
        == (end[f] as int / byte_scale(b)) % 256 by {
        assert(p[0x14 + 4 * f + b] == p.subrange(0x14, 0x20)[4 * f + b]);
        assert(vector_bytes(end)[4 * f + b] == le_bytes(end[f] as u64, 4)[b]);
        lemma_le_byte(end[f] as u64, 4, b);
    }
    assert forall|k: int| (0x22 <= k < 0x28 || 0x39 <= k < 0xC4 || 0xC5 <= k < 0xF0) implies #[trigger] p[k]
        == 0 by {
        if k < 0x28 {
            assert(p[k] == p.subrange(0x22, 0x28)[k - 0x22]);
        } else if k < 0xC4 {
            assert(p[k] == p.subrange(0x39, 0xC4)[k - 0x39]);
        } else {
            assert(p[k] == p.subrange(0xC5, 0xF0)[k - 0xC5]);
        }
    }
}

} // verus!
