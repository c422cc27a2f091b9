//! The pipe driver: what becomes of a block read from standard input.

use crate::xb::{XBTXView, XBTX};
use crate::xbpacket::XBDestAddr;
use bytes::Bytes;
use vstd::prelude::*;

verus! {

/// The largest block to read from standard input for a radio whose frames
/// hold `maxpacketsize` bytes: two bytes less, which leaves room for the
/// chunk header and one byte to spare. Radios with smaller frames carry
/// nothing.
pub fn stdin_block_size(maxpacketsize: usize) -> (r: usize)
    ensures
        r == (if maxpacketsize >= 2 {
            maxpacketsize - 2
        } else {
            0
        }),
{
    if maxpacketsize >= 2 {
        maxpacketsize - 2
    } else {
        0
    }
}

/// Turns a block read from standard input into a queue item: the block goes
/// to `dest`, and the empty block that marks the end of the input stops the
/// writer.
pub fn stdin_processor(dest: u64, block: &[u8]) -> (r: XBTX)
    ensures
        r@ == (if block@.len() == 0 {
            XBTXView::Shutdown
        } else {
            XBTXView::TXData(XBDestAddr::U64(dest), block@)
        }),
{
    if block.len() == 0 {
        XBTX::Shutdown
    } else {
        XBTX::TXData(XBDestAddr::U64(dest), Bytes::copy_from_slice(block))
    }
}

} // verus!
