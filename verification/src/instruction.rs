//! The instruction payload wire format: `[discriminator bytes][argument
//! bytes]`, with integers laid down little-endian.
//!
//! Building a payload is concatenation; parsing one checks the leading type
//! tag and hands back the argument bytes. A 64-bit argument travels as its
//! eight little-endian bytes, written by the serializer the host ecosystem
//! uses and read back by a verified decoder.

use vstd::prelude::*;

use crate::discriminator::spec_check_discriminator;
use crate::error::Error;

verus! {

/// The eight little-endian bytes of a 64-bit value.
pub open spec fn spec_u64_le(v: u64) -> Seq<u8> {
    seq![
        (v & 0xff) as u8,
        ((v >> 8) & 0xff) as u8,
        ((v >> 16) & 0xff) as u8,
        ((v >> 24) & 0xff) as u8,
        ((v >> 32) & 0xff) as u8,
        ((v >> 40) & 0xff) as u8,
        ((v >> 48) & 0xff) as u8,
        ((v >> 56) & 0xff) as u8,
    ]
}

/// Relies on borsh::to_vec: borsh lays an unsigned 64-bit integer down as its
/// eight little-endian bytes, and writing into a fresh vector cannot fail.
#[verifier::external_body]
fn u64_borsh_bytes(v: u64) -> (r: Vec<u8>)
    ensures
        r@ == spec_u64_le(v),
{
    borsh::to_vec(&v).unwrap_or_default()
}

/// Append every byte of `src` to `data`.
fn push_all(data: &mut Vec<u8>, src: &[u8])
    ensures
        final(data)@ == old(data)@ + src@,
{
    let mut i: usize = 0;
    while i < src.len()
        invariant
            i <= src@.len(),
            data@ == old(data)@ + src@.subrange(0, i as int),
        decreases src@.len() - i,
    {
        data.push(src[i]);
        proof {
            assert(old(data)@ + src@.subrange(0, i as int) + seq![src@[i as int]] =~= old(data)@
                + src@.subrange(0, i as int + 1));
        }
        i += 1;
    }
    proof {
        assert(src@.subrange(0, src@.len() as int) =~= src@);
    }
}

/// The payload for an instruction invocation: the instruction's type tag
/// followed by the already-serialized argument bytes.
pub fn instruction_data(disc: &[u8], args: &[u8]) -> (r: Vec<u8>)
    ensures
        r@ == disc@ + args@,
{
    let mut data: Vec<u8> = Vec::new();
    push_all(&mut data, disc);
    push_all(&mut data, args);
    proof {
        assert(Seq::<u8>::empty() + disc@ + args@ =~= disc@ + args@);
    }
    data
}

/// Clear `data` and write the instruction payload into it.
pub fn write_instruction_data(data: &mut Vec<u8>, disc: &[u8], args: &[u8])
    ensures
        final(data)@ == disc@ + args@,
{
    data.clear();
    push_all(data, disc);
    push_all(data, args);
    proof {
        assert(Seq::<u8>::empty() + disc@ + args@ =~= disc@ + args@);
    }
}

/// The payload for an instruction whose single argument is a 64-bit value.
pub fn instruction_data_u64(disc: &[u8], arg: u64) -> (r: Vec<u8>)
    ensures
        r@ == disc@ + spec_u64_le(arg),
{
    let bytes = u64_borsh_bytes(arg);
    instruction_data(disc, bytes.as_slice())
}

/// Splitting a payload: check the leading type tag, hand back what follows.
pub open spec fn spec_parse_instruction(payload: Seq<u8>, disc: Seq<u8>) -> Result<Seq<u8>, Error> {
    match spec_check_discriminator(payload, disc) {
        Ok(u) => Ok(payload.skip(disc.len() as int)),
        Err(e) => Err(e),
    }
}

/// Check that the payload opens with the expected instruction tag and return
/// the argument bytes that follow it.
pub fn parse_instruction(payload: &[u8], disc: &[u8]) -> (r: Result<Vec<u8>, Error>)
    ensures
        (match r {
            Ok(args) => spec_parse_instruction(payload@, disc@) == Ok::<Seq<u8>, Error>(args@),
            Err(e) => spec_parse_instruction(payload@, disc@) == Err::<Seq<u8>, Error>(e),
        }),
{
    match crate::discriminator::check_discriminator(payload, disc) {
        Ok(u) => {
            let mut args: Vec<u8> = Vec::new();
            let mut i: usize = disc.len();
            while i < payload.len()
                invariant
                    disc@.len() <= i <= payload@.len(),
                    args@ == payload@.subrange(disc@.len() as int, i as int),
                decreases payload@.len() - i,
            {
                args.push(payload[i]);
                proof {
                    assert(payload@.subrange(disc@.len() as int, i as int) + seq![
                        payload@[i as int],
                    ] =~= payload@.subrange(disc@.len() as int, i as int + 1));
                }
                i += 1;
            }
            proof {
                assert(args@ =~= payload@.skip(disc@.len() as int));
            }
            Ok(args)
        }
        Err(e) => Err(e),
    }
}

/// Read the 64-bit little-endian value that starts at `offset`; a buffer too
/// short to hold it is rejected as truncated.
pub fn read_u64_le(buf: &[u8], offset: usize) -> (r: Result<u64, Error>)
    ensures
        offset + 8 <= buf@.len() ==> (match r {
            Ok(v) => buf@.subrange(offset as int, offset as int + 8) == spec_u64_le(v),
            Err(e) => false,
        }),
        offset + 8 > buf@.len() ==> r == Err::<u64, Error>(Error::TruncatedData),
{
    if buf.len() < 8 || offset > buf.len() - 8 {
        return Err(Error::TruncatedData);
    }
    let b0 = buf[offset];
    let b1 = buf[offset + 1];
    let b2 = buf[offset + 2];
    let b3 = buf[offset + 3];
    let b4 = buf[offset + 4];
    let b5 = buf[offset + 5];
    let b6 = buf[offset + 6];
    let b7 = buf[offset + 7];
    let v: u64 = (b0 as u64) | ((b1 as u64) << 8) | ((b2 as u64) << 16) | ((b3 as u64) << 24) | (
    (b4 as u64) << 32) | ((b5 as u64) << 40) | ((b6 as u64) << 48) | ((b7 as u64) << 56);
    proof {
        assert((v & 0xff) as u8 == b0 && ((v >> 8) & 0xff) as u8 == b1 && ((v >> 16) & 0xff) as u8
            == b2 && ((v >> 24) & 0xff) as u8 == b3 && ((v >> 32) & 0xff) as u8 == b4 && ((v >> 40)
            & 0xff) as u8 == b5 && ((v >> 48) & 0xff) as u8 == b6 && ((v >> 56) & 0xff) as u8 == b7)
            by (bit_vector)
            requires
                v == (b0 as u64) | ((b1 as u64) << 8) | ((b2 as u64) << 16) | ((b3 as u64) << 24)
                    | ((b4 as u64) << 32) | ((b5 as u64) << 40) | ((b6 as u64) << 48) | ((
                b7 as u64) << 56),
        ;
        assert(buf@.subrange(offset as int, offset as int + 8) =~= spec_u64_le(v));
    }
    Ok(v)
}

/// The four little-endian bytes of a 32-bit value.
pub open spec fn spec_u32_le(v: u32) -> Seq<u8> {
    seq![
        (v & 0xff) as u8,
        ((v >> 8) & 0xff) as u8,
        ((v >> 16) & 0xff) as u8,
        ((v >> 24) & 0xff) as u8,
    ]
}

/// The 32-bit value whose little-endian image four bytes are.
pub open spec fn spec_u32_of_le(b: Seq<u8>) -> u32 {
    (b[0] as u32) | ((b[1] as u32) << 8) | ((b[2] as u32) << 16) | ((b[3] as u32) << 24)
}

/// Reading back a little-endian image gives the value it was written from.
pub proof fn lemma_u32_le_round_trip(v: u32)
    ensures
        spec_u32_of_le(spec_u32_le(v)) == v,
{
    let b0 = (v & 0xff) as u8;
    let b1 = ((v >> 8) & 0xff) as u8;
    let b2 = ((v >> 16) & 0xff) as u8;
    let b3 = ((v >> 24) & 0xff) as u8;
    assert((b0 as u32) | ((b1 as u32) << 8) | ((b2 as u32) << 16) | ((b3 as u32) << 24) == v)
        by (bit_vector)
        requires
            b0 == (v & 0xff) as u8 && b1 == ((v >> 8) & 0xff) as u8 && b2 == ((v >> 16)
                & 0xff) as u8 && b3 == ((v >> 24) & 0xff) as u8,
    ;
}

/// A variable-size field on the wire: the four little-endian bytes of its
/// length, then its bytes.
pub open spec fn spec_length_prefixed(field: Seq<u8>) -> Seq<u8> {
    spec_u32_le(field.len() as u32) + field
}

/// Append a variable-size field to the payload under construction: its length
/// as four little-endian bytes, then its bytes.
pub fn write_length_prefixed(data: &mut Vec<u8>, field: &[u8])
    requires
        field@.len() <= u32::MAX,
    ensures
        final(data)@ == old(data)@ + spec_length_prefixed(field@),
{
    let len: u32 = field.len() as u32;
    data.push((len & 0xff) as u8);
    data.push(((len >> 8) & 0xff) as u8);
    data.push(((len >> 16) & 0xff) as u8);
    data.push(((len >> 24) & 0xff) as u8);
    push_all(data, field);
    proof {
        assert(data@ =~= old(data)@ + spec_length_prefixed(field@));
    }
}

/// Read the variable-size field that starts at `offset`: four little-endian
/// length bytes, then that many field bytes. The result carries the field and
/// the offset of what follows it; a buffer that cannot hold the announced
/// length is rejected as truncated.
pub fn read_length_prefixed(buf: &[u8], offset: usize) -> (r: Result<(Vec<u8>, usize), Error>)
    ensures
        offset + 4 > buf@.len() ==> r == Err::<(Vec<u8>, usize), Error>(Error::TruncatedData),
        offset + 4 <= buf@.len() ==> ({
            let n = spec_u32_of_le(buf@.subrange(offset as int, offset as int + 4)) as int;
            if offset + 4 + n <= buf@.len() {
                r matches Ok(pair) && pair.0@ == buf@.subrange(
                    offset as int + 4,
                    offset as int + 4 + n,
                ) && pair.1 == offset + 4 + n
            } else {
                r == Err::<(Vec<u8>, usize), Error>(Error::TruncatedData)
            }
        }),
{
    if buf.len() < 4 || offset > buf.len() - 4 {
        return Err(Error::TruncatedData);
    }
    let n: u32 = (buf[offset] as u32) | ((buf[offset + 1] as u32) << 8) | ((buf[offset
        + 2] as u32) << 16) | ((buf[offset + 3] as u32) << 24);
    proof {
        assert(n == spec_u32_of_le(buf@.subrange(offset as int, offset as int + 4)));
    }
    if (n as usize) > buf.len() - (offset + 4) {
        return Err(Error::TruncatedData);
    }
    let start = offset + 4;
    let end = start + (n as usize);
    let mut field: Vec<u8> = Vec::new();
    let mut i: usize = start;
    while i < end
        invariant
            start <= i <= end <= buf@.len(),
            start == offset + 4,
            field@ == buf@.subrange(start as int, i as int),
        decreases end - i,
    {
        field.push(buf[i]);
        proof {
            assert(buf@.subrange(start as int, i as int) + seq![buf@[i as int]] =~= buf@.subrange(
                start as int,
                i as int + 1,
            ));
        }
        i += 1;
    }
    Ok((field, end))
}

/// The little-endian byte image determines the value: two 64-bit values with
/// the same image are the same value.
pub proof fn lemma_u64_le_injective(v: u64, w: u64)
    requires
        spec_u64_le(v) == spec_u64_le(w),
    ensures
        v == w,
{
    assert(spec_u64_le(v)[0] == spec_u64_le(w)[0] && spec_u64_le(v)[1] == spec_u64_le(w)[1]
        && spec_u64_le(v)[2] == spec_u64_le(w)[2] && spec_u64_le(v)[3] == spec_u64_le(w)[3]
        && spec_u64_le(v)[4] == spec_u64_le(w)[4] && spec_u64_le(v)[5] == spec_u64_le(w)[5]
        && spec_u64_le(v)[6] == spec_u64_le(w)[6] && spec_u64_le(v)[7] == spec_u64_le(w)[7]);
    assert((v & 0xff) as u8 == (w & 0xff) as u8 && ((v >> 8) & 0xff) as u8 == ((w >> 8)
        & 0xff) as u8 && ((v >> 16) & 0xff) as u8 == ((w >> 16) & 0xff) as u8 && ((v >> 24)
        & 0xff) as u8 == ((w >> 24) & 0xff) as u8 && ((v >> 32) & 0xff) as u8 == ((w >> 32)
        & 0xff) as u8 && ((v >> 40) & 0xff) as u8 == ((w >> 40) & 0xff) as u8 && ((v >> 48)
        & 0xff) as u8 == ((w >> 48) & 0xff) as u8 && ((v >> 56) & 0xff) as u8 == ((w >> 56)
        & 0xff) as u8);
    assert(v == w) by (bit_vector)
        requires
            (v & 0xff) as u8 == (w & 0xff) as u8 && ((v >> 8) & 0xff) as u8 == ((w >> 8)
                & 0xff) as u8 && ((v >> 16) & 0xff) as u8 == ((w >> 16) & 0xff) as u8 && ((v >> 24)
                & 0xff) as u8 == ((w >> 24) & 0xff) as u8 && ((v >> 32) & 0xff) as u8 == ((w >> 32)
                & 0xff) as u8 && ((v >> 40) & 0xff) as u8 == ((w >> 40) & 0xff) as u8 && ((v >> 48)
                & 0xff) as u8 == ((w >> 48) & 0xff) as u8 && ((v >> 56) & 0xff) as u8 == ((w >> 56)
                & 0xff) as u8,
    ;
}

} // verus!
