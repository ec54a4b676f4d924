use vstd::prelude::*;

verus! {

/// Data bit `i` of `v` (bit 0 is the least significant), as a line level.
pub open spec fn data_bit(v: u8, i: u32) -> bool {
    (v >> i) & 1 == 1
}

/// Level of slot `k` of the 8-N-1 frame of `v`: slot 0 is the start bit
/// (low), slots 1 to 8 are the data bits least significant first, slot 9 is
/// the stop bit (high).
pub open spec fn frame_level(v: u8, k: int) -> bool {
    if k == 0 {
        false
    } else if k <= 8 {
        data_bit(v, (k - 1) as u32)
    } else {
        true
    }
}

/// The ten levels that carry the byte `v` on the wire.
pub open spec fn frame_levels(v: u8) -> Seq<bool> {
    Seq::new(10, |k: int| frame_level(v, k))
}

/// The levels that carry a whole payload: the frames of its bytes, in order.
pub open spec fn payload_levels(p: Seq<u8>) -> Seq<bool> {
    Seq::new((10 * p.len()) as nat, |k: int| frame_levels(p[k / 10])[k % 10])
}

/// The frame of a byte is a low start bit, the eight data bits from the least
/// significant to the most significant, and a high stop bit.
pub proof fn lemma_frame_shape(v: u8)
    ensures
        frame_levels(v) == seq![
            false,
            (v >> 0u32) & 1 == 1,
            (v >> 1u32) & 1 == 1,
            (v >> 2u32) & 1 == 1,
            (v >> 3u32) & 1 == 1,
            (v >> 4u32) & 1 == 1,
            (v >> 5u32) & 1 == 1,
            (v >> 6u32) & 1 == 1,
            (v >> 7u32) & 1 == 1,
            true,
        ],
{
    assert(frame_levels(v) =~= seq![
        false,
        (v >> 0u32) & 1 == 1,
        (v >> 1u32) & 1 == 1,
        (v >> 2u32) & 1 == 1,
        (v >> 3u32) & 1 == 1,
        (v >> 4u32) & 1 == 1,
        (v >> 5u32) & 1 == 1,
        (v >> 6u32) & 1 == 1,
        (v >> 7u32) & 1 == 1,
        true,
    ]);
}

/// A payload of `n` bytes is carried by exactly `10 * n` levels, and the
/// levels from `10 * j` to `10 * j + 10` are the frame of byte `j`.
pub proof fn lemma_payload_framing(p: Seq<u8>, j: int)
    requires
        0 <= j < p.len(),
    ensures
        payload_levels(p).len() == 10 * p.len(),
        payload_levels(p).subrange(10 * j, 10 * j + 10) == frame_levels(p[j]),
{
    let w = payload_levels(p);
    assert forall|k: int| 0 <= k < 10 implies #[trigger] w.subrange(10 * j, 10 * j + 10)[k]
        == frame_levels(p[j])[k] by {
        vstd::arithmetic::div_mod::lemma_fundamental_div_mod_converse(10 * j + k, 10, j, k);
    }
    assert(w.subrange(10 * j, 10 * j + 10) =~= frame_levels(p[j]));
}

/// An empty payload puts no bit on the wire.
pub proof fn lemma_empty_payload_is_silent()
    ensures
        payload_levels(Seq::<u8>::empty()) == Seq::<bool>::empty(),
{
    assert(payload_levels(Seq::<u8>::empty()) =~= Seq::<bool>::empty());
}

/// Level of slot `k` of the frame of `byte`.
pub fn frame_bit(byte: u8, k: usize) -> (r: bool)
    requires
        k < 10,
    ensures
        r == frame_levels(byte)[k as int],
{
    if k == 0 {
        false
    } else if k <= 8 {
        let i: u32 = (k - 1) as u32;
        (byte >> i) & 1 == 1
    } else {
        true
    }
}

/// The ten levels of the frame of `byte`, in the order they are sent.
pub fn frame_bits(byte: u8) -> (r: Vec<bool>)
    ensures
        r@ == frame_levels(byte),
{
    let mut r: Vec<bool> = Vec::new();
    let mut k: usize = 0;
    while k < 10
        invariant
            k <= 10,
            r@ == frame_levels(byte).take(k as int),
        decreases 10 - k,
    {
        r.push(frame_bit(byte, k));
        k += 1;
        assert(r@ =~= frame_levels(byte).take(k as int));
    }
    assert(r@ =~= frame_levels(byte));
    r
}

/// Every level that a payload puts on the wire, in the order they are sent.
pub fn wire_levels(data: &[u8]) -> (r: Vec<bool>)
    requires
        10 * data@.len() <= usize::MAX,
    ensures
        r@ == payload_levels(data@),
{
    let mut r: Vec<bool> = Vec::new();
    let mut j: usize = 0;
    while j < data.len()
        invariant
            j <= data@.len(),
            10 * data@.len() <= usize::MAX,
            r@ == payload_levels(data@).take(10 * j as int),
        decreases data@.len() - j,
    {
        let f = frame_bits(data[j]);
        proof {
            lemma_payload_framing(data@, j as int);
        }
        let mut k: usize = 0;
        while k < 10
            invariant
                k <= 10,
                j < data@.len(),
                10 * data@.len() <= usize::MAX,
                f@ == frame_levels(data@[j as int]),
                payload_levels(data@).subrange(10 * j as int, 10 * j + 10) == frame_levels(data@[j as int]),
                r@ == payload_levels(data@).take(10 * j + k),
            decreases 10 - k,
        {
            r.push(f[k]);
            proof {
                let w = payload_levels(data@);
                assert(w.subrange(10 * j as int, 10 * j + 10)[k as int] == w[10 * j + k]);
            }
            k += 1;
            assert(r@ =~= payload_levels(data@).take(10 * j + k));
        }
        j += 1;
    }
    assert(r@ =~= payload_levels(data@));
    r
}

} // verus!
