//! The data model: heights, hash-shaped values, transaction and inscription
//! identifiers, block headers and blocks, and the header's byte encoding.

use vstd::prelude::*;
use crate::digest::{sha256d, sha256d_of};

verus! {

/// The zero-based position of a block in the canonical chain; 0 is genesis.
#[derive(Clone, Copy, PartialEq, Eq, Structural, Debug)]
pub struct Height(pub u32);

/// A 32-byte hash-shaped value, displayed as 64 hexadecimal digits in
/// reversed byte order.
#[derive(Clone, PartialEq, Eq, Debug)]
pub struct BlockHash(pub Vec<u8>);

impl BlockHash {
    /// A hash-shaped value holds exactly 32 bytes.
    pub open spec fn wf(&self) -> bool {
        self.0@.len() == 32
    }

    /// The display form: two hex digits per byte, reversed byte order; 64
    /// digits for a well-formed value.
    pub fn hex(&self) -> (r: String)
        ensures
            r@ == crate::hex::rev_hex_seq(self.0@),
            r@.len() == 2 * self.0@.len(),
            forall|i: int| 0 <= i < r@.len() ==> crate::hex::is_hex_digit(#[trigger] r@[i]),
    {
        proof {
            crate::hex::lemma_rev_hex_shape(self.0@);
        }
        crate::hex::fmt_hex_rev(&self.0)
    }
}

/// The identifier of one transaction: its 32-byte hash.
#[derive(Clone, PartialEq, Eq, Debug)]
pub struct Txid(pub Vec<u8>);

impl Txid {
    /// A transaction identifier holds exactly 32 bytes.
    pub open spec fn wf(&self) -> bool {
        self.0@.len() == 32
    }

    /// The 64-hex-digit display form, reversed byte order.
    pub fn hex(&self) -> (r: String)
        ensures
            r@ == crate::hex::rev_hex_seq(self.0@),
    {
        crate::hex::fmt_hex_rev(&self.0)
    }
}

/// The identifier of one inscription: the transaction that revealed it and
/// the inscription's index within that transaction.
#[derive(Clone, PartialEq, Eq, Debug)]
pub struct InscriptionId {
    pub txid: Txid,
    pub index: u32,
}

impl InscriptionId {
    pub open spec fn wf(&self) -> bool {
        self.txid.wf()
    }
}

/// A block header: the fields hashed to produce the block's identifier.
#[derive(Clone, PartialEq, Eq, Debug)]
pub struct Header {
    pub version: u32,
    pub prev_blockhash: BlockHash,
    pub merkle_root: BlockHash,
    pub time: u32,
    pub bits: u32,
    pub nonce: u32,
}

impl Header {
    pub open spec fn wf(&self) -> bool {
        self.prev_blockhash.wf() && self.merkle_root.wf()
    }
}

/// A block: its header, the identifiers of its transactions in block order,
/// and the serialized size and weight attached to it by the supplier.
#[derive(Clone, PartialEq, Eq, Debug)]
pub struct Block {
    pub header: Header,
    pub txdata: Vec<Txid>,
    pub size: u64,
    pub weight: u64,
}

impl Block {
    pub open spec fn wf(&self) -> bool {
        &&& self.header.wf()
        &&& forall|i: int| 0 <= i < self.txdata@.len() ==> (#[trigger] self.txdata@[i]).wf()
    }
}

/// The four bytes of `x` in little-endian order.
pub open spec fn le4(x: u32) -> Seq<u8> {
    seq![
        (x & 0xFF) as u8,
        ((x >> 8) & 0xFF) as u8,
        ((x >> 16) & 0xFF) as u8,
        ((x >> 24) & 0xFF) as u8,
    ]
}

/// The 80-byte encoding of a header whose hash identifies the block:
/// version, previous block hash, merkle root, time, bits, nonce, with
/// integers little-endian and hashes as stored.
pub open spec fn header_bytes(h: Header) -> Seq<u8> {
    le4(h.version) + h.prev_blockhash.0@ + h.merkle_root.0@ + le4(h.time) + le4(h.bits) + le4(
        h.nonce,
    )
}

/// Appends the four little-endian bytes of `x`.
fn push_le4(out: &mut Vec<u8>, x: u32)
    ensures
        final(out)@ == old(out)@ + le4(x),
{
    out.push((x & 0xFF) as u8);
    out.push(((x >> 8) & 0xFF) as u8);
    out.push(((x >> 16) & 0xFF) as u8);
    out.push(((x >> 24) & 0xFF) as u8);
    proof {
        assert(final(out)@ =~= old(out)@ + le4(x));
    }
}

/// Appends a copy of `src`.
fn push_bytes(out: &mut Vec<u8>, src: &Vec<u8>)
    ensures
        final(out)@ == old(out)@ + src@,
{
    let mut i: usize = 0;
    while i < src.len()
        invariant
            0 <= i <= src@.len(),
            out@ =~= old(out)@ + src@.take(i as int),
        decreases src@.len() - i,
    {
        out.push(src[i]);
        proof {
            assert(src@.take((i + 1) as int) =~= src@.take(i as int) + seq![src@[i as int]]);
        }
        i = i + 1;
    }
    proof {
        assert(src@.take(src@.len() as int) =~= src@);
    }
}

/// The 80-byte header encoding, as [`header_bytes`] states it.
pub fn serialize_header(h: &Header) -> (r: Vec<u8>)
    requires
        h.wf(),
    ensures
        r@ == header_bytes(*h),
{
    let mut out: Vec<u8> = Vec::new();
    push_le4(&mut out, h.version);
    push_bytes(&mut out, &h.prev_blockhash.0);
    push_bytes(&mut out, &h.merkle_root.0);
    push_le4(&mut out, h.time);
    push_le4(&mut out, h.bits);
    push_le4(&mut out, h.nonce);
    proof {
        assert(out@ =~= header_bytes(*h));
    }
    out
}

/// The block's identifying hash: the content hash of its header.
pub fn block_hash(h: &Header) -> (r: BlockHash)
    requires
        h.wf(),
    ensures
        r.0@ == sha256d_of(header_bytes(*h)),
        r.wf(),
{
    let encoded = serialize_header(h);
    BlockHash(sha256d(&encoded))
}

} // verus!
