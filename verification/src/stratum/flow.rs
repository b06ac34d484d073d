//! The way of a well-formed answer from the coinbase to the chain. The chain does
//! its part between the steps; what is asked of it next is decided here.

use vstd::prelude::*;

use crate::bytes::{le_value, zeros};
use crate::merkle::hashes;
use crate::stratum::share::{
    block_tx_list, block_txid_list, byte_strings, check_block_size, check_tip, header_of,
    judge_share, ErrorModel, Header, HeaderModel, OpenModel, OpenShare, ShareError, ShareOutcome,
};
use crate::stratum::template::tip_hash;
use crate::target::share_target;

verus! {

/// What an answer waits for.
#[derive(Debug)]
pub enum Stage {
    /// The identifier of the coinbase.
    Coinbase,
    /// The Merkle root.
    Root,
    /// The hash of this header.
    Hash(Header),
    /// The serialised block with this header and hash.
    Block(Header, [u8; 32]),
    /// The tip of the chain.
    Tip(Header, [u8; 32]),
    /// The block with this hash to be stored.
    Stored([u8; 32]),
    /// The chain to take the block.
    Taken,
    /// Nothing.
    Over,
}

/// What a [`Stage`] holds.
pub enum StageModel {
    Coinbase,
    Root,
    Hash(HeaderModel),
    Block(HeaderModel, Seq<u8>),
    Tip(HeaderModel, Seq<u8>),
    Stored(Seq<u8>),
    Taken,
    Over,
}

impl View for Stage {
    type V = StageModel;

    open spec fn view(&self) -> StageModel {
        match *self {
            Stage::Coinbase => StageModel::Coinbase,
            Stage::Root => StageModel::Root,
            Stage::Hash(header) => StageModel::Hash(header@),
            Stage::Block(header, hash) => StageModel::Block(header@, hash@),
            Stage::Tip(header, hash) => StageModel::Tip(header@, hash@),
            Stage::Stored(hash) => StageModel::Stored(hash@),
            Stage::Taken => StageModel::Taken,
            Stage::Over => StageModel::Over,
        }
    }
}

/// An answer on its way.
#[derive(Debug)]
pub struct ShareFlow {
    pub share: OpenShare,
    /// The largest share value divided by the worker's difficulty.
    pub quotient: u64,
    /// The text of the worker's difficulty.
    pub difficulty: String,
    /// The greatest size of a block.
    pub max_block_bytes: usize,
    pub stage: Stage,
}

/// What a [`ShareFlow`] holds.
pub struct FlowModel {
    pub share: OpenModel,
    pub quotient: u64,
    pub difficulty: Seq<char>,
    pub max_block_bytes: usize,
    pub stage: StageModel,
}

impl View for ShareFlow {
    type V = FlowModel;

    open spec fn view(&self) -> FlowModel {
        FlowModel {
            share: self.share@,
            quotient: self.quotient,
            difficulty: self.difficulty@,
            max_block_bytes: self.max_block_bytes,
            stage: self.stage@,
        }
    }
}

/// What the chain did.
#[derive(Debug)]
pub enum ShareEvent {
    /// The coinbase is a transaction with this identifier, or none for a reason.
    Coinbase(Result<[u8; 32], String>),
    /// The Merkle root.
    Root([u8; 32]),
    /// The hash of the header, and whether it meets the network's target, `None`
    /// where the compact target stands for none.
    Hash([u8; 32], Option<bool>),
    /// The size of the serialised block, or a reason.
    Block(Result<usize, String>),
    /// The tip of the chain, or a reason.
    Tip(Result<Option<[u8; 32]>, String>),
    /// The block was stored, or not for a reason.
    Stored(Result<(), String>),
    /// The chain took the block, or not for a reason.
    Taken(Result<(), String>),
}

/// What is asked of the chain.
#[derive(Debug)]
pub enum ShareAction {
    /// To work out the Merkle root over these identifiers.
    FindRoot(Vec<[u8; 32]>),
    /// To hash this header, and to hold the hash against the network's target.
    HashHeader(Header),
    /// To serialise the block with this header and these transactions.
    EncodeBlock(Header, Vec<Vec<u8>>),
    /// To read the tip; the chain stays as it is until the answer is over or the
    /// block is stored.
    ReadTip,
    /// To store the block under this hash with this header, on the parent to be
    /// looked up under this hash, where there is one.
    Store([u8; 32], Header, Option<[u8; 32]>),
    /// To take the block with this hash for the chain.
    Take([u8; 32]),
    /// Nothing more: this is the outcome.
    Finish(Result<ShareOutcome, ShareError>),
    /// Nothing new: the event is not the one that was waited for.
    Wait,
}

/// What a [`ShareAction`] holds.
pub enum ActionModel {
    FindRoot(Seq<Seq<u8>>),
    HashHeader(HeaderModel),
    EncodeBlock(HeaderModel, Seq<Seq<u8>>),
    ReadTip,
    Store(Seq<u8>, HeaderModel, Option<Seq<u8>>),
    Take(Seq<u8>),
    Accept(ShareOutcome),
    Refuse(ErrorModel),
    Wait,
}

impl View for ShareAction {
    type V = ActionModel;

    open spec fn view(&self) -> ActionModel {
        match *self {
            ShareAction::FindRoot(ids) => ActionModel::FindRoot(hashes(ids@)),
            ShareAction::HashHeader(header) => ActionModel::HashHeader(header@),
            ShareAction::EncodeBlock(header, txs) => ActionModel::EncodeBlock(
                header@,
                byte_strings(txs@),
            ),
            ShareAction::ReadTip => ActionModel::ReadTip,
            ShareAction::Store(hash, header, parent) => ActionModel::Store(
                hash@,
                header@,
                match parent {
                    Some(p) => Some(p@),
                    None => None,
                },
            ),
            ShareAction::Take(hash) => ActionModel::Take(hash@),
            ShareAction::Finish(Ok(outcome)) => ActionModel::Accept(outcome),
            ShareAction::Finish(Err(e)) => ActionModel::Refuse(e@),
            ShareAction::Wait => ActionModel::Wait,
        }
    }
}

/// Whether a hash meets the share target of a worker.
pub open spec fn meets_share(hash: Seq<u8>, quotient: u64) -> bool {
    le_value(hash) <= le_value(share_target(quotient))
}

/// A way that ends in a refusal.
pub open spec fn refused(e: ErrorModel) -> (StageModel, ActionModel) {
    (StageModel::Over, ActionModel::Refuse(e))
}

/// What an event leads to: the next stage, and what is asked next. The first
/// fault ends the way, and an event that was not waited for changes nothing.
pub open spec fn flow_step(flow: FlowModel, event: ShareEvent) -> (StageModel, ActionModel) {
    match (flow.stage, event) {
        (StageModel::Coinbase, ShareEvent::Coinbase(Ok(txid))) => (
            StageModel::Root,
            ActionModel::FindRoot(block_txid_list(flow.share, txid@)),
        ),
        (StageModel::Coinbase, ShareEvent::Coinbase(Err(why))) => refused(
            ErrorModel::Coinbase(why@),
        ),
        (StageModel::Root, ShareEvent::Root(root)) => (
            StageModel::Hash(header_of(flow.share, root@)),
            ActionModel::HashHeader(header_of(flow.share, root@)),
        ),
        (StageModel::Hash(header), ShareEvent::Hash(hash, network)) => if !meets_share(
            hash@,
            flow.quotient,
        ) {
            refused(ErrorModel::BelowDifficulty(flow.difficulty))
        } else {
            match network {
                None => refused(ErrorModel::InvalidBits),
                Some(false) => (StageModel::Over, ActionModel::Accept(ShareOutcome::Share)),
                Some(true) => (
                    StageModel::Block(header, hash@),
                    ActionModel::EncodeBlock(header, block_tx_list(flow.share)),
                ),
            }
        },
        (StageModel::Block(header, hash), ShareEvent::Block(Ok(len))) => if len
            > flow.max_block_bytes {
            refused(ErrorModel::BlockTooLarge)
        } else {
            (StageModel::Tip(header, hash), ActionModel::ReadTip)
        },
        (StageModel::Tip(header, hash), ShareEvent::Tip(Ok(tip))) => if tip_hash(tip)
            != flow.share.job.prev_hash {
            refused(ErrorModel::TipMoved)
        } else {
            (
                StageModel::Stored(hash),
                ActionModel::Store(
                    hash,
                    header,
                    if flow.share.job.prev_hash == zeros(32) {
                        None
                    } else {
                        Some(flow.share.job.prev_hash)
                    },
                ),
            )
        },
        (StageModel::Stored(hash), ShareEvent::Stored(Ok(_))) => (
            StageModel::Taken,
            ActionModel::Take(hash),
        ),
        (StageModel::Taken, ShareEvent::Taken(Ok(_))) => (
            StageModel::Over,
            ActionModel::Accept(ShareOutcome::Block),
        ),
        (StageModel::Taken, ShareEvent::Taken(Err(why))) => refused(ErrorModel::Reorg(why@)),
        (StageModel::Block(_, _), ShareEvent::Block(Err(why))) => refused(
            ErrorModel::Chain(why@),
        ),
        (StageModel::Tip(_, _), ShareEvent::Tip(Err(why))) => refused(ErrorModel::Chain(why@)),
        (StageModel::Stored(_), ShareEvent::Stored(Err(why))) => refused(ErrorModel::Chain(why@)),
        _ => (flow.stage, ActionModel::Wait),
    }
}

impl ShareFlow {
    /// Starts an answer on its way; the coinbase is the first to be looked at.
    pub fn new(
        share: OpenShare,
        quotient: u64,
        difficulty: String,
        max_block_bytes: usize,
    ) -> (r: Self)
        ensures
            r@ == (FlowModel {
                share: share@,
                quotient,
                difficulty: difficulty@,
                max_block_bytes,
                stage: StageModel::Coinbase,
            }),
    {
        ShareFlow { share, quotient, difficulty, max_block_bytes, stage: Stage::Coinbase }
    }

    fn finish(&mut self, outcome: Result<ShareOutcome, ShareError>) -> (r: ShareAction)
        ensures
            final(self)@ == (FlowModel { stage: StageModel::Over, ..old(self)@ }),
            match outcome {
                Ok(o) => r@ == ActionModel::Accept(o),
                Err(e) => r@ == ActionModel::Refuse(e@),
            },
    {
        self.stage = Stage::Over;
        ShareAction::Finish(outcome)
    }

    /// Takes what the chain did, and tells what is asked of it next.
    pub fn advance(&mut self, event: ShareEvent) -> (r: ShareAction)
        ensures
            final(self)@ == (FlowModel { stage: flow_step(old(self)@, event).0, ..old(self)@ }),
            r@ == flow_step(old(self)@, event).1,
    {
        match (&self.stage, event) {
            (Stage::Coinbase, ShareEvent::Coinbase(Ok(txid))) => {
                self.stage = Stage::Root;
                ShareAction::FindRoot(self.share.block_txids(txid))
            },
            (Stage::Coinbase, ShareEvent::Coinbase(Err(why))) => self.finish(
                Err(ShareError::Coinbase(why)),
            ),
            (Stage::Root, ShareEvent::Root(root)) => {
                let header = self.share.header(root);
                self.stage = Stage::Hash(header);
                ShareAction::HashHeader(header)
            },
            (Stage::Hash(header), ShareEvent::Hash(hash, network)) => {
                let header = *header;
                match judge_share(&hash, self.quotient, self.difficulty.clone(), network) {
                    Ok(ShareOutcome::Block) => {
                        self.stage = Stage::Block(header, hash);
                        ShareAction::EncodeBlock(header, self.share.block_txs())
                    },
                    Ok(ShareOutcome::Share) => self.finish(Ok(ShareOutcome::Share)),
                    Err(e) => self.finish(Err(e)),
                }
            },
            (Stage::Block(header, hash), ShareEvent::Block(Ok(len))) => {
                let (header, hash) = (*header, *hash);
                match check_block_size(len, self.max_block_bytes) {
                    Ok(()) => {
                        self.stage = Stage::Tip(header, hash);
                        ShareAction::ReadTip
                    },
                    Err(e) => self.finish(Err(e)),
                }
            },
            (Stage::Tip(header, hash), ShareEvent::Tip(Ok(tip))) => {
                let (header, hash) = (*header, *hash);
                match check_tip(tip, &self.share.job.prev_hash) {
                    Ok(parent) => {
                        self.stage = Stage::Stored(hash);
                        ShareAction::Store(hash, header, parent)
                    },
                    Err(e) => self.finish(Err(e)),
                }
            },
            (Stage::Stored(hash), ShareEvent::Stored(Ok(_))) => {
                let hash = *hash;
                self.stage = Stage::Taken;
                ShareAction::Take(hash)
            },
            (Stage::Taken, ShareEvent::Taken(Ok(_))) => self.finish(Ok(ShareOutcome::Block)),
            (Stage::Taken, ShareEvent::Taken(Err(why))) => self.finish(
                Err(ShareError::Reorg(why)),
            ),
            (Stage::Block(_, _), ShareEvent::Block(Err(why))) => self.finish(
                Err(ShareError::Chain(why)),
            ),
            (Stage::Tip(_, _), ShareEvent::Tip(Err(why))) => self.finish(
                Err(ShareError::Chain(why)),
            ),
            (Stage::Stored(_), ShareEvent::Stored(Err(why))) => self.finish(
                Err(ShareError::Chain(why)),
            ),
            _ => ShareAction::Wait,
        }
    }
}

/// Each stage past the first is entered from the one before alone, and only where
/// its condition holds: the block for a hash that meets the worker's target and
/// the network's, the tip for a block within its greatest size, the storing on a
/// tip that is still the job's parent, the end as a block where the chain took it.
pub proof fn law_stages_in_order(flow: FlowModel, event: ShareEvent)
    ensures
        ({
            let (next, action) = flow_step(flow, event);
            &&& action is FindRoot ==> flow.stage is Coinbase
            &&& action is HashHeader ==> flow.stage is Root
            &&& action is EncodeBlock ==> {
                &&& flow.stage is Hash
                &&& event matches ShareEvent::Hash(hash, network) && meets_share(
                    hash@,
                    flow.quotient,
                ) && network == Some(true) && next == StageModel::Block(flow.stage->Hash_0, hash@)
            }
            &&& action is ReadTip ==> {
                &&& flow.stage is Block
                &&& event matches ShareEvent::Block(Ok(len)) && len <= flow.max_block_bytes
                &&& next == StageModel::Tip(flow.stage->Block_0, flow.stage->Block_1)
            }
            &&& action is Store ==> {
                &&& flow.stage is Tip
                &&& event matches ShareEvent::Tip(Ok(tip)) && tip_hash(tip)
                    == flow.share.job.prev_hash
                &&& action->Store_0 == flow.stage->Tip_1 && action->Store_1 == flow.stage->Tip_0
                &&& next == StageModel::Stored(flow.stage->Tip_1)
            }
            &&& action is Take ==> flow.stage == StageModel::Stored(action->Take_0)
            &&& action == ActionModel::Accept(ShareOutcome::Block) ==> {
                &&& flow.stage is Taken
                &&& event matches ShareEvent::Taken(Ok(_))
            }
        }),
{
}

/// An answer that is over stays so, whatever the chain does.
pub proof fn law_over_is_over(flow: FlowModel, event: ShareEvent)
    requires
        flow.stage is Over,
    ensures
        flow_step(flow, event) == (StageModel::Over, ActionModel::Wait),
{
}

/// A worker's share below the network's target is accepted without anything being
/// asked of the chain beyond its hash, and one below the worker's own is refused.
pub proof fn law_plain_share(flow: FlowModel, hash: [u8; 32], network: Option<bool>)
    requires
        flow.stage is Hash,
    ensures
        ({
            let step = flow_step(flow, ShareEvent::Hash(hash, network));
            &&& meets_share(hash@, flow.quotient) && network == Some(false) ==> step == (
                StageModel::Over,
                ActionModel::Accept(ShareOutcome::Share),
            )
            &&& !meets_share(hash@, flow.quotient) ==> step == refused(
                ErrorModel::BelowDifficulty(flow.difficulty),
            )
        }),
{
}

}
