//! Framing of outbound sample packets: raw little-endian 16-bit samples, no
//! header; the packet length alone delimits them.

use vstd::prelude::*;

verus! {

/// The largest transfer on the bulk endpoints, in bytes.
pub const MAX_PACKET_SIZE: usize = 64;

/// Samples carried by one full packet, two bytes each.
pub const SAMPLES_PER_PACKET: usize = MAX_PACKET_SIZE / 2;

/// The bytes of a run of samples, each low byte first.
pub open spec fn sample_bytes(s: Seq<u16>) -> Seq<u8> {
    Seq::new(
        2 * s.len(),
        |i: int|
            if i % 2 == 0 {
                (s[i / 2] & 0xff) as u8
            } else {
                (s[i / 2] >> 8u16) as u8
            },
    )
}

/// The samples that a run of bytes holds; an odd byte at the end is dropped.
pub open spec fn samples_of(b: Seq<u8>) -> Seq<u16> {
    Seq::new(b.len() / 2, |i: int| ((b[2 * i] as u16) | ((b[2 * i + 1] as u16) << 8u16)))
}

/// Lays out samples for the wire.
pub fn encode_samples(samples: &[u16]) -> (r: Vec<u8>)
    requires
        2 * samples@.len() <= usize::MAX,
    ensures
        r@ == sample_bytes(samples@),
{
    let mut out: Vec<u8> = Vec::new();
    let mut i: usize = 0;
    while i < samples.len()
        invariant
            i <= samples@.len(),
            2 * samples@.len() <= usize::MAX,
            out@ =~= sample_bytes(samples@.take(i as int)),
        decreases samples@.len() - i,
    {
        let s = samples[i];
        out.push((s & 0xff) as u8);
        out.push((s >> 8u16) as u8);
        i = i + 1;
        assert(out@ =~= sample_bytes(samples@.take(i as int)));
    }
    assert(samples@.take(samples@.len() as int) =~= samples@);
    out
}

/// Reads samples off the wire, two bytes each, low byte first.
pub fn decode_samples(bytes: &[u8]) -> (r: Vec<u16>)
    ensures
        r@ == samples_of(bytes@),
{
    let mut out: Vec<u16> = Vec::new();
    let len = bytes.len();
    let n = len / 2;
    let mut i: usize = 0;
    while i < n
        invariant
            i <= n,
            n == bytes@.len() / 2,
            bytes@.len() <= usize::MAX,
            out@ =~= samples_of(bytes@).take(i as int),
        decreases n - i,
    {
        let lo = bytes[2 * i];
        let hi = bytes[2 * i + 1];
        out.push((lo as u16) | ((hi as u16) << 8u16));
        i = i + 1;
        assert(out@ =~= samples_of(bytes@).take(i as int));
    }
    out
}

/// Reading back the bytes of any run of samples gives the samples.
pub proof fn lemma_samples_round_trip(s: Seq<u16>)
    ensures
        samples_of(sample_bytes(s)) == s,
{
    let b = sample_bytes(s);
    assert forall|i: int| 0 <= i < s.len() implies #[trigger] samples_of(b)[i] == s[i] by {
        let x = s[i];
        assert(b[2 * i] == (x & 0xff) as u8);
        assert(b[2 * i + 1] == (x >> 8u16) as u8);
        assert((((x & 0xff) as u8) as u16) | ((((x >> 8u16) as u8) as u16) << 8u16) == x)
            by (bit_vector);
    }
    assert(samples_of(b) =~= s);
}

} // verus!
