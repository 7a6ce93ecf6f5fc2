use super::Steganography;
use crate::error::CliError;
use vstd::prelude::*;

verus! {

/// Width in bits of the length header that precedes the payload.
pub const HEADER_SIZE: usize = 8;

/// The eight bits of a byte, most significant first.
pub open spec fn byte_bits(b: u8) -> Seq<bool> {
    seq![
        b / 128 % 2 == 1,
        b / 64 % 2 == 1,
        b / 32 % 2 == 1,
        b / 16 % 2 == 1,
        b / 8 % 2 == 1,
        b / 4 % 2 == 1,
        b / 2 % 2 == 1,
        b % 2 == 1,
    ]
}

pub open spec fn bit_value(b: bool) -> int {
    if b { 1 } else { 0 }
}

/// The unsigned number that eight bits spell, most significant first.
pub open spec fn load8(bits: Seq<bool>) -> int {
    128 * bit_value(bits[0]) + 64 * bit_value(bits[1]) + 32 * bit_value(bits[2]) + 16
        * bit_value(bits[3]) + 8 * bit_value(bits[4]) + 4 * bit_value(bits[5]) + 2 * bit_value(
        bits[6],
    ) + bit_value(bits[7])
}

pub proof fn lemma_load8_byte_bits(b: u8)
    ensures
        load8(byte_bits(b)) == b as int,
{
    let x = b as int;
    assert(x / 4 == x / 2 / 2);
    assert(x / 8 == x / 4 / 2);
    assert(x / 16 == x / 8 / 2);
    assert(x / 32 == x / 16 / 2);
    assert(x / 64 == x / 32 / 2);
    assert(x / 128 == x / 64 / 2);
    assert(x / 128 < 2);
}

/// The bits of a byte sequence, eight per byte, each byte most significant
/// bit first.
pub open spec fn bits_of(bytes: Seq<u8>) -> Seq<bool>
    decreases bytes.len(),
{
    if bytes.len() == 0 {
        Seq::empty()
    } else {
        bits_of(bytes.drop_last()) + byte_bits(bytes.last())
    }
}

/// What is hidden in a carrier: a one-byte length header, then the secret.
pub open spec fn frame_bytes(secret: Seq<u8>) -> Seq<u8> {
    seq![secret.len() as u8] + secret
}

/// The bit sequence written into the carrier's least significant bits.
pub open spec fn frame_bits(secret: Seq<u8>) -> Seq<bool> {
    bits_of(frame_bytes(secret))
}

/// A secret of `secret_len` bytes can be hidden in a carrier of
/// `carrier_len` bytes: its length fits the header, and the carrier has a
/// byte for each bit of header and payload.
pub open spec fn fits(carrier_len: nat, secret_len: nat) -> bool {
    secret_len <= 255 && HEADER_SIZE + 8 * secret_len <= carrier_len
}

pub open spec fn lsb(b: u8) -> bool {
    b % 2 == 1
}

/// `b` with its least significant bit replaced by `bit`.
pub open spec fn with_lsb(b: u8, bit: bool) -> u8 {
    (b / 2 * 2 + bit_value(bit)) as u8
}

/// The least significant bit of each carrier byte, in carrier order.
pub open spec fn lsbs(carrier: Seq<u8>) -> Seq<bool> {
    carrier.map_values(|b: u8| lsb(b))
}

/// The carrier after bit `i` of `bits` has replaced the least significant
/// bit of byte `i`, for each `i` below the length of `bits`.
pub open spec fn written(carrier: Seq<u8>, bits: Seq<bool>) -> Seq<u8> {
    Seq::new(
        carrier.len(),
        |i: int|
            if i < bits.len() {
                with_lsb(carrier[i], bits[i])
            } else {
                carrier[i]
            },
    )
}

/// The carrier with `secret` hidden in it.
pub open spec fn embedded(carrier: Seq<u8>, secret: Seq<u8>) -> Seq<u8> {
    written(carrier, frame_bits(secret))
}

/// The payload length that the first eight least significant bits declare.
pub open spec fn declared_len(carrier: Seq<u8>) -> nat {
    load8(lsbs(carrier).subrange(0, 8)) as nat
}

/// The `n` bytes spelled by the least significant bits after the header.
pub open spec fn payload(carrier: Seq<u8>, n: nat) -> Seq<u8> {
    Seq::new(n, |j: int| load8(lsbs(carrier).subrange(8 + 8 * j, 16 + 8 * j)) as u8)
}

/// The secret hidden in a carrier, or `None` where the carrier is too short
/// for its header or for the length that the header declares.
pub open spec fn extracted(carrier: Seq<u8>) -> Option<Seq<u8>> {
    if carrier.len() < HEADER_SIZE {
        None
    } else if carrier.len() < HEADER_SIZE + 8 * declared_len(carrier) {
        None
    } else {
        Some(payload(carrier, declared_len(carrier)))
    }
}

pub proof fn lemma_bits_of_len(bytes: Seq<u8>)
    ensures
        bits_of(bytes).len() == 8 * bytes.len(),
    decreases bytes.len(),
{
    if bytes.len() > 0 {
        lemma_bits_of_len(bytes.drop_last());
    }
}

/// Bits `8 * j` to `8 * j + 7` of the sequence are the bits of byte `j`.
pub proof fn lemma_bits_of_index(bytes: Seq<u8>, j: int)
    requires
        0 <= j < bytes.len(),
    ensures
        bits_of(bytes).subrange(8 * j, 8 * j + 8) == byte_bits(bytes[j]),
    decreases bytes.len(),
{
    let init = bytes.drop_last();
    lemma_bits_of_len(init);
    if j == bytes.len() - 1 {
        assert(bits_of(bytes).subrange(8 * j, 8 * j + 8) =~= byte_bits(bytes[j]));
    } else {
        lemma_bits_of_index(init, j);
        assert(bits_of(bytes).subrange(8 * j, 8 * j + 8) =~= bits_of(init).subrange(
            8 * j,
            8 * j + 8,
        ));
    }
}

/// Whatever fits is recovered: extracting from a carrier with a secret
/// embedded in it gives back exactly that secret.
pub proof fn lemma_round_trip(carrier: Seq<u8>, secret: Seq<u8>)
    requires
        fits(carrier.len(), secret.len()),
    ensures
        extracted(embedded(carrier, secret)) == Some(secret),
{
    let fb = frame_bytes(secret);
    let fbits = frame_bits(secret);
    let e = embedded(carrier, secret);
    lemma_bits_of_len(fb);
    assert forall|i: int| 0 <= i < fbits.len() implies lsbs(e)[i] == fbits[i] by {
        let b = carrier[i];
        assert((b / 2 * 2 + bit_value(fbits[i])) % 2 == bit_value(fbits[i]));
    }
    assert forall|k: int| 0 <= k < fb.len() implies lsbs(e).subrange(8 * k, 8 * k + 8)
        == byte_bits(#[trigger] fb[k]) by {
        lemma_bits_of_index(fb, k);
        assert(lsbs(e).subrange(8 * k, 8 * k + 8) =~= fbits.subrange(8 * k, 8 * k + 8));
        lemma_load8_byte_bits(fb[k]);
    }
    assert(fb[0] == secret.len() as u8);
    assert(declared_len(e) == secret.len()) by {
        assert(lsbs(e).subrange(0, 8) == byte_bits(fb[0]));
        lemma_load8_byte_bits(fb[0]);
    }
    assert forall|j: int| 0 <= j < secret.len() implies payload(e, secret.len())[j]
        == secret[j] by {
        assert(fb[j + 1] == secret[j]);
        assert(lsbs(e).subrange(8 * (j + 1), 8 * (j + 1) + 8) == byte_bits(fb[j + 1]));
        lemma_load8_byte_bits(fb[j + 1]);
    }
    assert(payload(e, secret.len()) =~= secret);
}

/// Hides a secret in the least significant bit of each carrier byte, after
/// a one-byte length header.
pub struct LeastBit;

impl LeastBit {
    fn push_byte_bits(bits: &mut Vec<bool>, b: u8)
        ensures
            final(bits)@ == old(bits)@ + byte_bits(b),
    {
        bits.push(b / 128 % 2 == 1);
        bits.push(b / 64 % 2 == 1);
        bits.push(b / 32 % 2 == 1);
        bits.push(b / 16 % 2 == 1);
        bits.push(b / 8 % 2 == 1);
        bits.push(b / 4 % 2 == 1);
        bits.push(b / 2 % 2 == 1);
        bits.push(b % 2 == 1);
        assert(final(bits)@ =~= old(bits)@ + byte_bits(b));
    }

    /// The number spelled by the eight bits from `start` on.
    fn load_byte(bits: &Vec<bool>, start: usize) -> (r: u8)
        requires
            start + 8 <= bits@.len(),
        ensures
            r as int == load8(bits@.subrange(start as int, start + 8)),
    {
        let n = bits.len();
        assert(start + 8 <= n);
        let mut r: u8 = 0;
        if bits[start] {
            r = r + 128;
        }
        if bits[start + 1] {
            r = r + 64;
        }
        if bits[start + 2] {
            r = r + 32;
        }
        if bits[start + 3] {
            r = r + 16;
        }
        if bits[start + 4] {
            r = r + 8;
        }
        if bits[start + 5] {
            r = r + 4;
        }
        if bits[start + 6] {
            r = r + 2;
        }
        if bits[start + 7] {
            r = r + 1;
        }
        r
    }

    /// The header and payload bits of a secret short enough for the header.
    fn frame(secret: &[u8]) -> (bits: Vec<bool>)
        requires
            secret@.len() <= 255,
        ensures
            bits@ == frame_bits(secret@),
    {
        let ghost fb = frame_bytes(secret@);
        let mut bits: Vec<bool> = Vec::new();
        LeastBit::push_byte_bits(&mut bits, secret.len() as u8);
        assert(fb.take(1).drop_last() =~= Seq::<u8>::empty());
        assert(bits_of(Seq::<u8>::empty()) =~= Seq::<bool>::empty());
        assert(fb.take(1).last() == secret@.len() as u8);
        assert(bits@ =~= bits_of(fb.take(1)));
        let mut i: usize = 0;
        while i < secret.len()
            invariant
                i <= secret@.len(),
                fb == frame_bytes(secret@),
                bits@ == bits_of(fb.take(i + 1)),
            decreases secret@.len() - i,
        {
            LeastBit::push_byte_bits(&mut bits, secret[i]);
            assert(fb.take(i + 2).drop_last() =~= fb.take(i + 1));
            i = i + 1;
        }
        assert(fb.take(i + 1) =~= fb);
        bits
    }

    /// The least significant bit of each byte of `src`.
    fn read_lsb(src: &[u8]) -> (bits: Vec<bool>)
        ensures
            bits@ == lsbs(src@),
    {
        let mut bits: Vec<bool> = Vec::new();
        let mut i: usize = 0;
        while i < src.len()
            invariant
                i <= src@.len(),
                bits@ == lsbs(src@.take(i as int)),
            decreases src@.len() - i,
        {
            bits.push(src[i] % 2 == 1);
            assert(lsbs(src@.take(i + 1)) =~= lsbs(src@.take(i as int)).push(lsb(src@[i as int])));
            i = i + 1;
        }
        assert(src@.take(i as int) =~= src@);
        bits
    }

    /// Overwrites the least significant bit of byte `i` of `target` with bit
    /// `i` of `secret_bits`.
    fn write_lsb(target: &mut Vec<u8>, secret_bits: &Vec<bool>)
        requires
            secret_bits@.len() <= old(target)@.len(),
        ensures
            final(target)@ == written(old(target)@, secret_bits@),
    {
        let ghost before = target@;
        let mut i: usize = 0;
        while i < secret_bits.len()
            invariant
                i <= secret_bits@.len(),
                secret_bits@.len() <= before.len(),
                target@.len() == before.len(),
                forall|k: int|
                    0 <= k < before.len() ==> #[trigger] target@[k] == (if k < i {
                        with_lsb(before[k], secret_bits@[k])
                    } else {
                        before[k]
                    }),
            decreases secret_bits@.len() - i,
        {
            let b = target[i];
            let cleared: u8 = b / 2 * 2;
            target[i] = if secret_bits[i] {
                cleared + 1
            } else {
                cleared
            };
            i = i + 1;
        }
        assert(target@ =~= written(before, secret_bits@));
    }
}

impl Steganography for LeastBit {
    /// Writes the length header and the secret's bits into the least
    /// significant bits of the carrier, or fails with `CapacityExceeded`,
    /// carrier untouched, where the secret does not fit.
    fn embed(&self, source_data: &mut Vec<u8>, secret_data: &[u8]) -> (r: Result<(), CliError>)
        ensures
            fits(old(source_data)@.len(), secret_data@.len()) ==> r is Ok
                && final(source_data)@ == embedded(old(source_data)@, secret_data@),
            !fits(old(source_data)@.len(), secret_data@.len()) ==> r == Err::<(), CliError>(
                CliError::CapacityExceeded,
            ) && final(source_data)@ == old(source_data)@,
            secret_data@.len() > 255 ==> r == Err::<(), CliError>(CliError::CapacityExceeded),
    {
        if secret_data.len() > 255 {
            return Err(CliError::CapacityExceeded);
        }
        if source_data.len() < HEADER_SIZE + 8 * secret_data.len() {
            return Err(CliError::CapacityExceeded);
        }
        let secret_bits = LeastBit::frame(secret_data);
        proof {
            lemma_bits_of_len(frame_bytes(secret_data@));
        }
        LeastBit::write_lsb(source_data, &secret_bits);
        Ok(())
    }

    /// Reads the length header and then that many bytes from the least
    /// significant bits, or fails with `CapacityExceeded` where the carrier
    /// is too short for either.
    fn extract(&self, source_data: &[u8]) -> (r: Result<Vec<u8>, CliError>)
        ensures
            match extracted(source_data@) {
                Some(secret) => r is Ok && r->Ok_0@ == secret,
                None => r == Err::<Vec<u8>, CliError>(CliError::CapacityExceeded),
            },
    {
        if source_data.len() < HEADER_SIZE {
            return Err(CliError::CapacityExceeded);
        }
        let secret_bits = LeastBit::read_lsb(source_data);
        let payload_len = LeastBit::load_byte(&secret_bits, 0) as usize;
        if source_data.len() - HEADER_SIZE < 8 * payload_len {
            return Err(CliError::CapacityExceeded);
        }
        let mut secret: Vec<u8> = Vec::new();
        let mut j: usize = 0;
        while j < payload_len
            invariant
                j <= payload_len,
                payload_len == declared_len(source_data@),
                secret_bits@ == lsbs(source_data@),
                HEADER_SIZE + 8 * payload_len <= source_data@.len(),
                secret@ == payload(source_data@, payload_len as nat).take(j as int),
            decreases payload_len - j,
        {
            let b = LeastBit::load_byte(&secret_bits, HEADER_SIZE + 8 * j);
            secret.push(b);
            assert(secret@ =~= payload(source_data@, payload_len as nat).take(j + 1));
            j = j + 1;
        }
        assert(secret@ =~= payload(source_data@, payload_len as nat));
        Ok(secret)
    }
}

} // verus!
