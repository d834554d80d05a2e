use vstd::prelude::*;

use crate::types::{BlockHash, BlockNumber};

verus! {

/// Number of signatures a synced header must carry.
pub const ALLOWED_SIGNATURES_LENGTH: usize = 1;

/// A proposer's signature over a block.
#[derive(Clone, Copy, Debug, PartialEq, Eq, Structural)]
pub struct BlockSignature {
    pub r: BlockHash,
    pub s: BlockHash,
}

/// A block header received from a peer, with its signatures.
#[derive(Clone, Debug)]
pub struct SignedBlockHeader {
    pub block_number: BlockNumber,
    /// Seconds since the Unix epoch.
    pub timestamp: u64,
    pub signatures: Vec<BlockSignature>,
}

#[derive(Clone, Debug)]
pub enum HeaderSyncError {
    /// The peer sent a header for another block than the one expected next.
    HeadersUnordered { expected_block_number: BlockNumber, actual_block_number: BlockNumber },
    /// The header does not carry exactly one signature.
    WrongSignaturesLength { signatures: Vec<BlockSignature> },
}

/// Check the header received for `block_number`. `None` means the peer has no
/// more headers. A header must be for `block_number` and carry exactly one
/// signature; it is handed back unchanged.
pub fn parse_data_for_block(
    block_number: BlockNumber,
    received: Option<SignedBlockHeader>,
) -> (r: Result<Option<SignedBlockHeader>, HeaderSyncError>)
    ensures
        match received {
            None => r matches Ok(None),
            Some(h) => if h.block_number != block_number {
                r matches Err(HeaderSyncError::HeadersUnordered { expected_block_number, actual_block_number })
                    && expected_block_number == block_number && actual_block_number == h.block_number
            } else if h.signatures@.len() != ALLOWED_SIGNATURES_LENGTH {
                r matches Err(HeaderSyncError::WrongSignaturesLength { signatures })
                    && signatures@ == h.signatures@
            } else {
                r matches Ok(Some(g)) && g == h
            },
        },
{
    match received {
        None => Ok(None),
        Some(h) => {
            if h.block_number != block_number {
                return Err(
                    HeaderSyncError::HeadersUnordered {
                        expected_block_number: block_number,
                        actual_block_number: h.block_number,
                    },
                );
            }
            if h.signatures.len() != ALLOWED_SIGNATURES_LENGTH {
                return Err(HeaderSyncError::WrongSignaturesLength { signatures: h.signatures });
            }
            Ok(Some(h))
        },
    }
}

/// The header marker after storing block `block_number`: the next block to
/// store. `None` where no next block number exists.
pub fn header_marker_after(block_number: BlockNumber) -> (r: Option<BlockNumber>)
    ensures
        r == if block_number < u64::MAX {
            Some((block_number + 1) as u64)
        } else {
            None::<u64>
        },
{
    block_number.checked_add(1)
}

/// Seconds from a header's `timestamp` to `now`, reported only when not
/// negative (a header from the future has no latency to report).
pub fn header_latency(now: i64, timestamp: u64) -> (r: Option<i64>)
    ensures
        r == if timestamp as int <= now as int {
            Some((now - timestamp) as i64)
        } else {
            None::<i64>
        },
{
    if now < 0 || timestamp > now as u64 {
        None
    } else {
        Some(now - timestamp as i64)
    }
}

} // verus!
