//! Fixed-width little-endian fields, the building blocks of every datagram.

use vstd::prelude::*;

verus! {

/// The size of every datagram, in bytes.
pub const CAPACITY: usize = 1000;

/// 256 to the power `width`: the number of values that `width` bytes can hold.
pub open spec fn span(width: nat) -> nat
    decreases width,
{
    if width == 0 {
        1
    } else {
        256 * span((width - 1) as nat)
    }
}

/// The `width` low bytes of `v`, least significant first.
pub open spec fn le_bytes(v: nat, width: nat) -> Seq<u8>
    decreases width,
{
    if width == 0 {
        Seq::empty()
    } else {
        seq![(v % 256) as u8] + le_bytes(v / 256, (width - 1) as nat)
    }
}

/// The number that `bytes` spell, least significant byte first.
pub open spec fn le_value(bytes: Seq<u8>) -> nat
    decreases bytes.len(),
{
    if bytes.len() == 0 {
        0
    } else {
        bytes[0] as nat + 256 * le_value(bytes.drop_first())
    }
}

/// `count` zero bytes.
pub open spec fn zeros(count: nat) -> Seq<u8> {
    Seq::new(count, |i: int| 0u8)
}

/// The spans of the field widths in use, as plain numbers.
pub proof fn lemma_span_values()
    ensures
        span(0) == 1,
        span(1) == 0x100,
        span(2) == 0x1_0000,
        span(4) == 0x1_0000_0000,
        span(8) == 0x1_0000_0000_0000_0000,
        span(16) == 0x1_0000_0000_0000_0000_0000_0000_0000_0000,
{
    reveal_with_fuel(span, 17);
}

/// A wider field holds at least as many values.
pub proof fn lemma_span_monotonic(narrow: nat, wide: nat)
    requires
        narrow <= wide,
    ensures
        0 < span(narrow) <= span(wide),
    decreases wide,
{
    if wide == 0 {
    } else if narrow == wide {
        lemma_span_monotonic((narrow - 1) as nat, (wide - 1) as nat);
    } else {
        lemma_span_monotonic(narrow, (wide - 1) as nat);
    }
}

/// A field of `width` bytes is `width` bytes long.
pub proof fn lemma_le_bytes_len(v: nat, width: nat)
    ensures
        le_bytes(v, width).len() == width,
    decreases width,
{
    if width > 0 {
        lemma_le_bytes_len(v / 256, (width - 1) as nat);
    }
}

/// What `bytes` spell fits in as many bytes.
pub proof fn lemma_le_value_bound(bytes: Seq<u8>)
    ensures
        le_value(bytes) < span(bytes.len()),
    decreases bytes.len(),
{
    if bytes.len() > 0 {
        lemma_le_value_bound(bytes.drop_first());
    }
}

/// Reading a field back gives the number that was written, provided the
/// number fits in the field.
pub proof fn lemma_le_value_of_bytes(v: nat, width: nat)
    requires
        v < span(width),
    ensures
        le_value(le_bytes(v, width)) == v,
    decreases width,
{
    if width > 0 {
        let rest = le_bytes(v / 256, (width - 1) as nat);
        lemma_le_value_of_bytes(v / 256, (width - 1) as nat);
        lemma_le_bytes_len(v / 256, (width - 1) as nat);
        assert(le_bytes(v, width).drop_first() =~= rest);
    }
}

/// Appends `v` to `out` as a little-endian field of `width` bytes.
pub fn put_le(out: &mut Vec<u8>, v: u128, width: usize)
    requires
        width <= 16,
    ensures
        final(out)@ == old(out)@ + le_bytes(v as nat, width as nat),
{
    let mut rest: u128 = v;
    let mut done: usize = 0;
    while done < width
        invariant
            done <= width,
            out@ + le_bytes(rest as nat, (width - done) as nat) == old(out)@ + le_bytes(
                v as nat,
                width as nat,
            ),
        decreases width - done,
    {
        let ghost before = out@;
        out.push((rest % 256) as u8);
        proof {
            let tail = le_bytes((rest / 256) as nat, (width - done - 1) as nat);
            assert(le_bytes(rest as nat, (width - done) as nat) == seq![(rest % 256) as u8] + tail);
            assert(out@ + tail =~= before + (seq![(rest % 256) as u8] + tail));
        }
        rest = rest / 256;
        done = done + 1;
    }
    assert(out@ + le_bytes(rest as nat, 0) =~= out@);
}

/// Reads the little-endian field of `width` bytes that starts at `at`.
pub fn get_le(bytes: &[u8], at: usize, width: usize) -> (v: u128)
    requires
        width <= 16,
        at + width <= bytes.len(),
    ensures
        v == le_value(bytes@.subrange(at as int, at + width)),
{
    let mut v: u128 = 0;
    let mut left: usize = width;
    proof {
        lemma_span_values();
    }
    while left > 0
        invariant
            left <= width <= 16,
            at + width <= bytes.len(),
            v == le_value(bytes@.subrange(at + left, at + width)),
            v < span((width - left) as nat),
        decreases left,
    {
        left = left - 1;
        let byte: u8 = bytes[at + left];
        proof {
            let field = bytes@.subrange(at + left, at + width);
            assert(field.drop_first() =~= bytes@.subrange(at + left + 1, at + width));
            assert(field[0] == byte);
            lemma_span_values();
            lemma_span_monotonic((width - left) as nat, 16);
            assert(span((width - left) as nat) == 256 * span((width - left - 1) as nat));
        }
        v = v * 256 + byte as u128;
    }
    v
}

} // verus!
