//! The stored form of a value: its length in four little-endian bytes, then
//! the value as one LZ4 block. The length travels with the block, so reading a
//! value back never has to guess how large it was. Blocks, and with them
//! values, stay below 16 MiB: the decoder's length arithmetic is sound for
//! blocks of that size and not beyond.
use vstd::prelude::*;

verus! {

/// Number of bytes that the length takes at the head of a stored value.
pub const LENGTH_PREFIX_BYTES: usize = 4;

/// The longest block that is handed to the decoder, and the most room that
/// it is given: one byte short of 16 MiB. The decoder adds up length bytes of
/// at most 255 each, in 32 bits; within this bound no such sum, and no
/// position that a sum is added to, passes `u32::MAX`.
pub const MAX_BLOCK_LENGTH: usize = 0x00FF_FFFF;

/// Why the LZ4 decoder turned a block down.
#[derive(Debug, Clone, Copy, PartialEq, Eq)]
pub enum BlockFault {
    /// The block holds more bytes than the length it was stored with.
    OutputTooSmall { expected: usize, actual: usize },
    /// A run of literals reaches past the end of the block.
    LiteralOutOfBounds,
    /// The block ends in the middle of a sequence.
    ExpectedAnotherByte,
    /// A match refers to offset zero.
    OffsetZero,
    /// A match refers to bytes before the start of the output.
    OffsetOutOfBounds,
    /// A fault that the decoder added after this list was written.
    Unlisted,
}

/// Why a value cannot be brought into its stored form.
#[derive(Debug, Clone, Copy, PartialEq, Eq)]
pub enum CompressFault {
    /// The value is so long that its block might be one the decoder is not
    /// given.
    ValueTooLong { length: usize },
}

/// Why stored bytes cannot be turned back into a value.
#[derive(Debug, Clone, Copy, PartialEq, Eq)]
pub enum DecompressFault {
    /// Fewer than four bytes: the length itself is cut off.
    MissingLength,
    /// The stated length is more room than the decoder is given.
    LengthTooLarge { stated: u32 },
    /// The block is longer than any that the decoder is given.
    BlockTooLong { length: usize },
    /// The decoder refused the block.
    Block(BlockFault),
    /// The block decoded, but to fewer bytes than the frame states.
    LengthMismatch { stated: u32, found: usize },
}

/// Whether a value of `length` bytes can be framed: the longest block that
/// the encoder may make of it is one that the decoder is given.
pub open spec fn fits_frame(length: nat) -> bool {
    20 + length * 110 / 100 <= MAX_BLOCK_LENGTH
}

/// The four bytes that state `length`, least significant first.
pub open spec fn length_prefix(length: nat) -> Seq<u8> {
    seq![
        (length % 256) as u8,
        (length / 256 % 256) as u8,
        (length / 65536 % 256) as u8,
        (length / 16777216 % 256) as u8,
    ]
}

/// The length that the first four bytes of `stored` state.
pub open spec fn stated_length(stored: Seq<u8>) -> nat
    recommends
        stored.len() >= 4,
{
    (stored[0] as nat) + 256 * (stored[1] as nat) + 65536 * (stored[2] as nat) + 16777216 * (
    stored[3] as nat)
}

/// What `lz4_flex::block::decompress` answers for `block` when it is given
/// room for `size` bytes: the decoded bytes, or why the block was turned down.
pub uninterp spec fn lz4_block_decoded(block: Seq<u8>, size: nat) -> Result<Seq<u8>, BlockFault>;

/// `block` is an LZ4 block for `value`: decoded into room for exactly the
/// value's length, it gives the value.
pub open spec fn is_block_of(block: Seq<u8>, value: Seq<u8>) -> bool {
    lz4_block_decoded(block, value.len()) == Ok::<Seq<u8>, BlockFault>(value)
}

/// `stored` is a frame for `value`: it opens with the value's length, and the
/// rest is a block for the value, of a length that the decoder is given.
pub open spec fn is_frame_of(stored: Seq<u8>, value: Seq<u8>) -> bool {
    &&& fits_frame(value.len())
    &&& 4 <= stored.len() <= 4 + MAX_BLOCK_LENGTH
    &&& stored.subrange(0, 4) == length_prefix(value.len())
    &&& is_block_of(stored.skip(4), value)
}

/// What the decoder's answer amounts to for a frame that states `stated`
/// bytes: the decoded bytes if they are as many as stated, and a fault
/// otherwise.
pub open spec fn checked(stated: nat, answer: Result<Seq<u8>, BlockFault>) -> Result<
    Seq<u8>,
    DecompressFault,
> {
    match answer {
        Err(fault) => Err(DecompressFault::Block(fault)),
        Ok(value) => if value.len() == stated {
            Ok(value)
        } else {
            Err(DecompressFault::LengthMismatch { stated: stated as u32, found: value.len() as usize })
        },
    }
}

/// The value that `stored` stands for, or the reason why it stands for none.
pub open spec fn decoded(stored: Seq<u8>) -> Result<Seq<u8>, DecompressFault> {
    if stored.len() < 4 {
        Err(DecompressFault::MissingLength)
    } else if stated_length(stored) > MAX_BLOCK_LENGTH {
        Err(DecompressFault::LengthTooLarge { stated: stated_length(stored) as u32 })
    } else if stored.len() - 4 > MAX_BLOCK_LENGTH {
        Err(DecompressFault::BlockTooLong { length: (stored.len() - 4) as usize })
    } else {
        checked(stated_length(stored), lz4_block_decoded(stored.skip(4), stated_length(stored)))
    }
}

/// Compresses `data` into one LZ4 block with `lz4_flex::block::compress`.
///
/// Trusted: the block decodes to `data` again when the decoder is given room
/// for exactly `data.len()` bytes, and it is no longer than the buffer of
/// `20 + len * 110 / 100` bytes that the encoder writes it into and then
/// cuts to size. Which bytes the block holds is left open; the encoder
/// hashes machine words, so two machines may find different matches. The
/// bound keeps the buffer's size far from overflow.
#[verifier::external_body]
fn lz4_compress(data: &[u8]) -> (block: Vec<u8>)
    requires
        fits_frame(data@.len()),
    ensures
        is_block_of(block@, data@),
        block@.len() <= 20 + data@.len() * 110 / 100,
{
    lz4_flex::block::compress(data)
}

/// Decodes one LZ4 block with `lz4_flex::block::decompress`, which decodes
/// into a buffer of `size` bytes and hands back the part it filled.
///
/// Trusted: the answer depends on `block` and `size` alone, and
/// `lz4_block_decoded` is its name. The decoder that the crate's default
/// features select holds no unsafe code and tests every copy against the
/// buffer, so a block that outgrows `size` is answered with `OutputTooSmall`.
/// Its lengths are sums of the block's bytes, kept in 32 bits and added to a
/// position in the buffer; the two bounds keep every such sum below
/// `u32::MAX`, on machines of 32 bits too, so that none overflows.
#[verifier::external_body]
fn lz4_decompress(block: &[u8], size: usize) -> (r: Result<Vec<u8>, BlockFault>)
    requires
        block@.len() <= MAX_BLOCK_LENGTH,
        size <= MAX_BLOCK_LENGTH,
    ensures
        match r {
            Ok(out) => lz4_block_decoded(block@, size as nat) == Ok::<Seq<u8>, BlockFault>(out@),
            Err(fault) => lz4_block_decoded(block@, size as nat) == Err::<Seq<u8>, BlockFault>(
                fault,
            ),
        },
{
    match lz4_flex::block::decompress(block, size) {
        Ok(out) => Ok(out),
        Err(lz4_flex::block::DecompressError::OutputTooSmall { expected, actual }) => Err(
            BlockFault::OutputTooSmall { expected, actual },
        ),
        Err(lz4_flex::block::DecompressError::LiteralOutOfBounds) => Err(BlockFault::LiteralOutOfBounds),
        Err(lz4_flex::block::DecompressError::ExpectedAnotherByte) => Err(BlockFault::ExpectedAnotherByte),
        Err(lz4_flex::block::DecompressError::OffsetZero) => Err(BlockFault::OffsetZero),
        Err(lz4_flex::block::DecompressError::OffsetOutOfBounds) => Err(BlockFault::OffsetOutOfBounds),
        Err(_) => Err(BlockFault::Unlisted),
    }
}

/// Stating a length in four bytes and reading it back gives the length.
pub proof fn lemma_length_prefix_round_trip(length: nat, rest: Seq<u8>)
    requires
        length <= 0xFFFF_FFFF,
    ensures
        (length_prefix(length) + rest).len() == 4 + rest.len(),
        stated_length(length_prefix(length) + rest) == length,
        (length_prefix(length) + rest).subrange(0, 4) == length_prefix(length),
        (length_prefix(length) + rest).skip(4) == rest,
{
    let whole = length_prefix(length) + rest;
    assert(whole.subrange(0, 4) =~= length_prefix(length));
    assert(whole.skip(4) =~= rest);
}

/// A frame is a frame for one value only.
pub proof fn lemma_frame_of_one_value(stored: Seq<u8>, first: Seq<u8>, second: Seq<u8>)
    requires
        is_frame_of(stored, first),
        is_frame_of(stored, second),
    ensures
        first == second,
{
    lemma_frame_decodes(stored, first);
    lemma_frame_decodes(stored, second);
}

/// The round trip of the codec: a frame for `value` decodes to `value`.
pub proof fn lemma_frame_decodes(stored: Seq<u8>, value: Seq<u8>)
    requires
        is_frame_of(stored, value),
    ensures
        decoded(stored) == Ok::<Seq<u8>, DecompressFault>(value),
{
}

/// Appends the four bytes that state `length`.
fn push_length(out: &mut Vec<u8>, length: u32)
    ensures
        final(out)@ == old(out)@ + length_prefix(length as nat),
{
    out.push((length % 256) as u8);
    out.push((length / 256 % 256) as u8);
    out.push((length / 65536 % 256) as u8);
    out.push((length / 16777216 % 256) as u8);
}

/// Reads the length that the first four bytes state.
fn read_length(stored: &[u8]) -> (length: u32)
    requires
        stored@.len() >= 4,
    ensures
        length == stated_length(stored@),
{
    let b0: u32 = stored[0] as u32;
    let b1: u32 = stored[1] as u32;
    let b2: u32 = stored[2] as u32;
    let b3: u32 = stored[3] as u32;
    b0 + 256 * b1 + 65536 * b2 + 16777216 * b3
}

/// Whether a value of `length` bytes can be framed.
pub fn can_frame(length: usize) -> (fits: bool)
    ensures
        fits == fits_frame(length as nat),
{
    length <= MAX_BLOCK_LENGTH && 20 + length * 110 / 100 <= MAX_BLOCK_LENGTH
}

/// Holds the decoder's answer against the length that the frame states: see
/// `checked`.
pub fn checked_block(stated: u32, answer: Result<Vec<u8>, BlockFault>) -> (r: Result<
    Vec<u8>,
    DecompressFault,
>)
    ensures
        match r {
            Ok(value) => checked(
                stated as nat,
                match answer {
                    Ok(bytes) => Ok(bytes@),
                    Err(fault) => Err(fault),
                },
            ) == Ok::<Seq<u8>, DecompressFault>(value@),
            Err(fault) => checked(
                stated as nat,
                match answer {
                    Ok(bytes) => Ok(bytes@),
                    Err(fault) => Err(fault),
                },
            ) == Err::<Seq<u8>, DecompressFault>(fault),
        },
{
    match answer {
        Err(fault) => Err(DecompressFault::Block(fault)),
        Ok(value) => {
            if value.len() == stated as usize {
                Ok(value)
            } else {
                Err(DecompressFault::LengthMismatch { stated, found: value.len() })
            }
        },
    }
}

/// Brings `data` into its stored form.
///
/// Succeeds on every value whose length fits the frame, and on no other. The
/// stored form opens with the length of `data` and decodes to `data`.
pub fn compress(data: &[u8]) -> (r: Result<Vec<u8>, CompressFault>)
    ensures
        r is Ok <==> fits_frame(data@.len()),
        r matches Ok(stored) ==> is_frame_of(stored@, data@) && decoded(stored@) == Ok::<
            Seq<u8>,
            DecompressFault,
        >(data@),
        r matches Err(fault) ==> fault == (CompressFault::ValueTooLong { length: data.len() }),
{
    if !can_frame(data.len()) {
        return Err(CompressFault::ValueTooLong { length: data.len() });
    }
    let mut block = lz4_compress(data);
    let ghost packed = block@;
    let mut stored: Vec<u8> = Vec::new();
    push_length(&mut stored, data.len() as u32);
    stored.append(&mut block);
    proof {
        lemma_length_prefix_round_trip(data@.len(), packed);
        lemma_frame_decodes(stored@, data@);
    }
    Ok(stored)
}

/// Turns stored bytes back into the value they stand for.
///
/// The answer is `decoded` of the bytes: the value on success, and otherwise
/// the first thing that is wrong with the frame.
pub fn decompress(stored: &[u8]) -> (r: Result<Vec<u8>, DecompressFault>)
    ensures
        match r {
            Ok(value) => decoded(stored@) == Ok::<Seq<u8>, DecompressFault>(value@),
            Err(fault) => decoded(stored@) == Err::<Seq<u8>, DecompressFault>(fault),
        },
{
    if stored.len() < LENGTH_PREFIX_BYTES {
        return Err(DecompressFault::MissingLength);
    }
    let stated = read_length(stored);
    if stated as usize > MAX_BLOCK_LENGTH {
        return Err(DecompressFault::LengthTooLarge { stated });
    }
    let block = vstd::slice::slice_subrange(stored, LENGTH_PREFIX_BYTES, stored.len());
    if block.len() > MAX_BLOCK_LENGTH {
        return Err(DecompressFault::BlockTooLong { length: block.len() });
    }
    checked_block(stated, lz4_decompress(block, stated as usize))
}

} // verus!
