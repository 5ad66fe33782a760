//! The FNV-1a hash of bytes, by which Prometheus finds collectors.
use vstd::prelude::*;
use vstd::utf8::encode_utf8;

verus! {

/// The hash of no bytes.
pub open spec fn fnv_start() -> u64 {
    0xcbf2_9ce4_8422_2325
}

/// The hash after one more byte. The product is cut off to 64 bits.
pub open spec fn fnv_step(hash: u64, byte: u8) -> u64 {
    ((hash ^ (byte as u64)) * 0x100_0000_01b3) as u64
}

/// The hash after some more bytes.
pub open spec fn fnv(hash: u64, bytes: Seq<u8>) -> u64
    decreases bytes.len(),
{
    if bytes.len() == 0 {
        hash
    } else {
        fnv_step(fnv(hash, bytes.drop_last()), bytes.last())
    }
}

/// The hash of several texts, one after the other with nothing between them.
pub open spec fn texts_hash(texts: Seq<Seq<char>>) -> u64
    decreases texts.len(),
{
    if texts.len() == 0 {
        fnv_start()
    } else {
        fnv(texts_hash(texts.drop_last()), encode_utf8(texts.last()))
    }
}

/// The hash of a text with a separator byte behind it.
pub open spec fn separated_hash(text: Seq<char>) -> u64 {
    fnv_step(fnv(fnv_start(), encode_utf8(text)), 0xff)
}

} // verus!
