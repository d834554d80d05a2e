use vstd::prelude::*;

verus! {

/// A round within a height.
pub type Round = u32;

/// The position of the block being decided.
pub type BlockNumber = u64;

/// Names a validator.
pub type ValidatorId = u64;

/// Content-derived identifier of a block (a 256-bit value).
#[derive(Clone, Copy, Debug, PartialEq, Eq, Structural)]
pub struct BlockHash {
    pub high: u128,
    pub low: u128,
}

/// Equality of optional block hashes, where `None` stands for a nil vote.
pub fn same_hash(a: Option<BlockHash>, b: Option<BlockHash>) -> (r: bool)
    ensures
        r == (a == b),
{
    match (a, b) {
        (None, None) => true,
        (Some(x), Some(y)) => x == y,
        _ => false,
    }
}

#[derive(Clone, Copy, Debug, PartialEq, Eq, Structural)]
pub enum VoteType {
    Prevote,
    Precommit,
}

/// One validator's vote; `block_hash == None` is a nil vote.
#[derive(Clone, Copy, Debug, PartialEq, Eq, Structural)]
pub struct Vote {
    pub vote_type: VoteType,
    pub height: BlockNumber,
    pub round: Round,
    pub block_hash: Option<BlockHash>,
    pub voter: ValidatorId,
}

/// The announcement that precedes a proposal's content.
#[derive(Clone, Copy, Debug, PartialEq, Eq, Structural)]
pub struct ProposalInit {
    pub height: BlockNumber,
    pub proposer: ValidatorId,
}

/// A proposal as it travels in-band.
#[derive(Clone, Copy, Debug, PartialEq, Eq, Structural)]
pub struct Proposal {
    pub height: BlockNumber,
    pub round: Round,
    pub proposer: ValidatorId,
    pub block_hash: BlockHash,
}

#[derive(Clone, Copy, Debug, PartialEq, Eq, Structural)]
pub enum ConsensusMessage {
    Proposal(Proposal),
    Vote(Vote),
}

/// Why a proposal was refused.
#[derive(Clone, Copy, Debug, PartialEq, Eq, Structural)]
pub enum ProposalFault {
    /// Expected and received height.
    WrongHeight(BlockNumber, BlockNumber),
    /// Expected and received proposer.
    WrongProposer(ValidatorId, ValidatorId),
    /// A proposal for this round was already recorded or is being built.
    Duplicate,
    /// The block could not be assembled from the proposal's content.
    BlockValidationFailed,
    /// The proposer's closing hash never arrived.
    FinNeverReceived,
    /// The assembled block's id and the proposer's closing hash, which differ.
    HashMismatch(BlockHash, BlockHash),
}

#[derive(Clone, Copy, Debug, PartialEq, Eq, Structural)]
pub enum ConsensusError {
    /// Carries the expected proposer, the height and the reason.
    InvalidProposal(ValidatorId, BlockNumber, ProposalFault),
    /// Carries the height, the vote recorded first and the conflicting one.
    Equivocation(BlockNumber, ConsensusMessage, ConsensusMessage),
    /// A message for another height than this one: this height and the message.
    OtherHeight(BlockNumber, ConsensusMessage),
    /// Sending to peers failed.
    SendError,
}

/// A block candidate; its id is derived from its content.
pub trait ConsensusBlock {
    fn id(&self) -> BlockHash;
}

/// The terminal result of a height: the decided block and the precommits
/// that support it, in the order of the validator list.
pub struct Decision<B> {
    pub precommits: Vec<Vote>,
    pub block: B,
}

} // verus!
