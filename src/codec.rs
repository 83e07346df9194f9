//! Wire format of host commands: a varint discriminant (written and read by
//! postcard) followed by the variant's fields in little-endian order.

use vstd::prelude::*;

verus! {

/// postcard's error type, carried opaquely out of the varint wrappers.
#[verifier::external_type_specification]
#[verifier::external_body]
pub struct ExPostcardError(postcard::Error);

/// A command sent by the host. The frequency (in kHz) is carried as the
/// IEEE-754 bit pattern of a 64-bit float, so equality is bitwise.
#[derive(Clone, Copy, Debug, PartialEq, Eq, Structural)]
pub enum Command {
    SetFrequency { frequency_khz_bits: u64 },
}

/// Why a command could not be written.
#[derive(Clone, Copy, Debug, PartialEq, Eq, Structural)]
pub enum CodecError {
    BufferFull,
}

/// The length of a command frame: one tag byte and eight field bytes.
pub const FRAME_LEN: usize = 9;

/// LEB128 encoding of an unsigned value, least significant group first.
pub open spec fn varint_bytes(v: u32) -> Seq<u8>
    decreases v,
{
    if v < 128 {
        seq![v as u8]
    } else {
        seq![((v % 128) + 128) as u8] + varint_bytes(v / 128)
    }
}

/// Reading a `u32` varint from `s` starting at index `i` (at most five bytes,
/// the fifth holding at most four data bits): the value and the index just
/// past it. Non-minimal encodings are accepted.
pub open spec fn varint_take_from(s: Seq<u8>, i: nat) -> Option<(int, nat)>
    decreases 5 - i,
{
    if i >= 5 || i >= s.len() {
        None
    } else if s[i as int] < 128 {
        if i == 4 && s[i as int] > 15 {
            None
        } else {
            Some((s[i as int] as int, i + 1))
        }
    } else {
        match varint_take_from(s, i + 1) {
            Some((v, n)) => Some(((s[i as int] - 128) + 128 * v, n)),
            None => None,
        }
    }
}

/// The varint at the start of `s`, with the number of bytes it takes.
pub open spec fn varint_take(s: Seq<u8>) -> Option<(int, nat)> {
    varint_take_from(s, 0)
}

/// The eight little-endian bytes of `x`.
pub open spec fn le_bytes(x: u64) -> Seq<u8> {
    seq![
        (x & 0xff) as u8,
        ((x >> 8u64) & 0xff) as u8,
        ((x >> 16u64) & 0xff) as u8,
        ((x >> 24u64) & 0xff) as u8,
        ((x >> 32u64) & 0xff) as u8,
        ((x >> 40u64) & 0xff) as u8,
        ((x >> 48u64) & 0xff) as u8,
        ((x >> 56u64) & 0xff) as u8,
    ]
}

/// The value of eight little-endian bytes.
pub open spec fn le_value(s: Seq<u8>) -> u64
    recommends
        s.len() == 8,
{
    (s[0] as u64) | ((s[1] as u64) << 8u64) | ((s[2] as u64) << 16u64) | ((s[3] as u64)
        << 24u64) | ((s[4] as u64) << 32u64) | ((s[5] as u64) << 40u64) | ((s[6] as u64)
        << 48u64) | ((s[7] as u64) << 56u64)
}

impl Command {
    /// The discriminant of the variant, by declaration order.
    pub open spec fn tag(self) -> u32 {
        match self {
            Command::SetFrequency { .. } => 0,
        }
    }

    /// The frame of a command: its discriminant, then its fields.
    pub open spec fn encoding(self) -> Seq<u8> {
        match self {
            Command::SetFrequency { frequency_khz_bits } => varint_bytes(self.tag()) + le_bytes(
                frequency_khz_bits,
            ),
        }
    }
}

/// What a byte sequence decodes to: a known discriminant in its one-byte
/// form followed by exactly the bytes of that variant's fields.
pub open spec fn parse(s: Seq<u8>) -> Option<Command> {
    if s.len() == 9 && s[0] == 0 {
        Some(Command::SetFrequency { frequency_khz_bits: le_value(s.skip(1)) })
    } else {
        None
    }
}

/// Relies on postcard::to_slice for a `u32`: it writes the value's varint at
/// the start of `buf` and fails, leaving `buf` as it was, when it does not fit.
#[verifier::external_body]
fn put_varint(v: u32, buf: &mut [u8]) -> (r: Result<usize, postcard::Error>)
    ensures
        match r {
            Ok(n) => n == varint_bytes(v).len() && final(buf)@ == varint_bytes(v) + old(
                buf,
            )@.skip(n as int),
            Err(_) => final(buf)@ == old(buf)@ && old(buf)@.len() < varint_bytes(v).len(),
        },
{
    postcard::to_slice(&v, buf).map(|s| s.len())
}

/// Relies on postcard::take_from_bytes for a `u32`: it reads one varint from
/// the start of `bs` and hands back the rest.
#[verifier::external_body]
fn take_varint(bs: &[u8]) -> (r: Result<(u32, &[u8]), postcard::Error>)
    ensures
        match r {
            Ok((v, rest)) => match varint_take(bs@) {
                Some((w, n)) => w == v && rest@ == bs@.skip(n as int),
                None => false,
            },
            Err(_) => varint_take(bs@) is None,
        },
{
    postcard::take_from_bytes::<u32>(bs)
}

/// A varint read from `s` ends within `s`.
proof fn lemma_varint_within(s: Seq<u8>, i: nat)
    ensures
        varint_take_from(s, i) matches Some((v, n)) ==> i < n <= s.len(),
    decreases 5 - i,
{
    if i < 5 && i < s.len() && s[i as int] >= 128 {
        lemma_varint_within(s, i + 1);
    }
}

/// Reading back the bytes of a value gives the value.
pub proof fn lemma_le_round_trip(x: u64)
    ensures
        le_bytes(x).len() == 8,
        le_value(le_bytes(x)) == x,
{
    let b = le_bytes(x);
    let (b0, b1, b2, b3) = (b[0], b[1], b[2], b[3]);
    let (b4, b5, b6, b7) = (b[4], b[5], b[6], b[7]);
    assert(b0 == (x & 0xff) as u8 && b1 == ((x >> 8u64) & 0xff) as u8 && b2 == ((x >> 16u64)
        & 0xff) as u8 && b3 == ((x >> 24u64) & 0xff) as u8);
    assert(b4 == ((x >> 32u64) & 0xff) as u8 && b5 == ((x >> 40u64) & 0xff) as u8 && b6 == ((x
        >> 48u64) & 0xff) as u8 && b7 == ((x >> 56u64) & 0xff) as u8);
    assert(x == (b0 as u64) | ((b1 as u64) << 8u64) | ((b2 as u64) << 16u64) | ((b3 as u64)
        << 24u64) | ((b4 as u64) << 32u64) | ((b5 as u64) << 40u64) | ((b6 as u64) << 48u64) | ((
    b7 as u64) << 56u64)) by (bit_vector)
        requires
            b0 == (x & 0xff) as u8,
            b1 == ((x >> 8u64) & 0xff) as u8,
            b2 == ((x >> 16u64) & 0xff) as u8,
            b3 == ((x >> 24u64) & 0xff) as u8,
            b4 == ((x >> 32u64) & 0xff) as u8,
            b5 == ((x >> 40u64) & 0xff) as u8,
            b6 == ((x >> 48u64) & 0xff) as u8,
            b7 == ((x >> 56u64) & 0xff) as u8,
    ;
}

impl Command {
    /// Writes the command's frame at the start of `buf` and returns its
    /// length; fails, leaving `buf` untouched, when `buf` is too short.
    pub fn serialize(&self, buf: &mut [u8]) -> (r: Result<usize, CodecError>)
        ensures
            r is Ok <==> old(buf)@.len() >= self.encoding().len(),
            match r {
                Ok(n) => n == self.encoding().len() && final(buf)@ == self.encoding() + old(
                    buf,
                )@.skip(n as int),
                Err(e) => e == CodecError::BufferFull && final(buf)@ == old(buf)@,
            },
    {
        let ghost start = buf@;
        if buf.len() < FRAME_LEN {
            return Err(CodecError::BufferFull);
        }
        match self {
            Command::SetFrequency { frequency_khz_bits } => {
                let x = *frequency_khz_bits;
                let n = match put_varint(0, buf) {
                    Ok(n) => n,
                    Err(_) => {
                        return Err(CodecError::BufferFull);
                    },
                };
                assert(n == 1);
                buf[1] = (x & 0xff) as u8;
                buf[2] = ((x >> 8u64) & 0xff) as u8;
                buf[3] = ((x >> 16u64) & 0xff) as u8;
                buf[4] = ((x >> 24u64) & 0xff) as u8;
                buf[5] = ((x >> 32u64) & 0xff) as u8;
                buf[6] = ((x >> 40u64) & 0xff) as u8;
                buf[7] = ((x >> 48u64) & 0xff) as u8;
                buf[8] = ((x >> 56u64) & 0xff) as u8;
                assert(buf@ =~= self.encoding() + start.skip(9));
                Ok(FRAME_LEN)
            },
        }
    }

    /// Reads a command from a whole frame: `None` unless the bytes hold a
    /// known discriminant followed by exactly that variant's fields.
    pub fn deserialize(bs: &[u8]) -> (r: Option<Command>)
        ensures
            r == parse(bs@),
    {
        match take_varint(bs) {
            Ok((tag, rest)) => {
                proof {
                    lemma_varint_within(bs@, 0);
                }
                if tag == 0 && rest.len() == 8 && bs.len() == FRAME_LEN {
                    let x = (rest[0] as u64) | ((rest[1] as u64) << 8u64) | ((rest[2] as u64)
                        << 16u64) | ((rest[3] as u64) << 24u64) | ((rest[4] as u64) << 32u64) | ((
                    rest[5] as u64) << 40u64) | ((rest[6] as u64) << 48u64) | ((rest[7] as u64)
                        << 56u64);
                    proof {
                        let n = varint_take(bs@)->Some_0.1;
                        assert(n == 1);
                        lemma_varint_within(bs@, 1);
                        assert(bs@[0] == 0);
                        assert(bs@.skip(n as int) =~= rest@);
                    }
                    Some(Command::SetFrequency { frequency_khz_bits: x })
                } else {
                    proof {
                        if bs@.len() == 9 && bs@[0] == 0 {
                            assert(varint_take(bs@) == Some((0int, 1nat)));
                            assert(rest@ =~= bs@.skip(1));
                        }
                    }
                    None
                }
            },
            Err(_) => {
                proof {
                    if bs@.len() == 9 && bs@[0] == 0 {
                        assert(varint_take(bs@) == Some((0int, 1nat)));
                    }
                }
                None
            },
        }
    }
}

/// Decoding the frame of any command gives that command back.
pub proof fn lemma_round_trip(c: Command)
    ensures
        parse(c.encoding()) == Some(c),
{
    match c {
        Command::SetFrequency { frequency_khz_bits } => {
            lemma_le_round_trip(frequency_khz_bits);
            let e = c.encoding();
            assert(varint_bytes(0) == seq![0u8]);
            assert(e[0] == 0u8);
            assert(e.skip(1) =~= le_bytes(frequency_khz_bits));
        },
    }
}

/// Nothing decodes from an empty input, from a frame cut short, from an
/// unknown discriminant, or from a frame followed by further bytes.
pub proof fn lemma_rejects(c: Command, k: nat, s: Seq<u8>, extra: Seq<u8>)
    ensures
        parse(Seq::<u8>::empty()) is None,
        k < c.encoding().len() ==> parse(c.encoding().take(k as int)) is None,
        (s.len() > 0 && s[0] != 0) ==> parse(s) is None,
        extra.len() > 0 ==> parse(c.encoding() + extra) is None,
{
    let e = c.encoding();
    assert(varint_bytes(0) == seq![0u8]);
    assert(e.len() == 9);
    assert(e[0] == 0u8);
}

/// Every frame that decodes is exactly the encoding of what it decodes to.
pub proof fn lemma_decoded_is_canonical(s: Seq<u8>)
    ensures
        parse(s) matches Some(c) ==> s == c.encoding(),
{
    if let Some(c) = parse(s) {
        let x = le_value(s.skip(1));
        let t = s.skip(1);
        let b = le_bytes(x);
        assert(varint_bytes(0) == seq![0u8]);
        let (t0, t1, t2, t3) = (t[0], t[1], t[2], t[3]);
        let (t4, t5, t6, t7) = (t[4], t[5], t[6], t[7]);
        assert(x == (t0 as u64) | ((t1 as u64) << 8u64) | ((t2 as u64) << 16u64) | ((t3 as u64)
            << 24u64) | ((t4 as u64) << 32u64) | ((t5 as u64) << 40u64) | ((t6 as u64) << 48u64)
            | ((t7 as u64) << 56u64));
        assert(t0 == (x & 0xff) as u8 && t1 == ((x >> 8u64) & 0xff) as u8 && t2 == ((x >> 16u64)
            & 0xff) as u8 && t3 == ((x >> 24u64) & 0xff) as u8 && t4 == ((x >> 32u64) & 0xff) as u8
            && t5 == ((x >> 40u64) & 0xff) as u8 && t6 == ((x >> 48u64) & 0xff) as u8 && t7 == ((x
            >> 56u64) & 0xff) as u8) by (bit_vector)
            requires
                x == (t0 as u64) | ((t1 as u64) << 8u64) | ((t2 as u64) << 16u64) | ((t3 as u64)
                    << 24u64) | ((t4 as u64) << 32u64) | ((t5 as u64) << 40u64) | ((t6 as u64)
                    << 48u64) | ((t7 as u64) << 56u64),
        ;
        assert(s =~= c.encoding());
    }
}

} // verus!
