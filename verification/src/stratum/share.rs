//! Answers of workers to jobs.

use vstd::prelude::*;
use vstd::string::StringExecFns;
use vstd::utf8::encode_utf8;

use crate::bytes::{append_bytes, copy_bytes, le_value, zeros};
use crate::hextext::{hex_decode, hex_u32, is_hex_text, paired_bytes, parse_hex_u32};
use crate::merkle::hashes;
use crate::proxy::job::coinbase_bytes;
use crate::stratum::job::{txids, Job, JobModel, TxModel};
use crate::stratum::state::{find_in, StratumState};
use crate::stratum::template::{
    parent_to_look_up, same_hash, tip_hash, tip_or_zeros, EXTRANONCE2_BYTES,
};
use crate::target::{hash_meets_diff, share_target};

verus! {

/// Why an answer is refused.
#[derive(Debug)]
pub enum ShareError {
    /// The job with this identifier is not among the latest.
    StaleJob(String),
    /// The extranonce 2 is no hexadecimal text.
    BadExtranonce2,
    /// The extranonce 2 has the wrong size.
    Extranonce2Size,
    /// The time is no number.
    BadNtime,
    /// The nonce is no number.
    BadNonce,
    /// The coinbase with the extranonces is no transaction, for this reason.
    Coinbase(String),
    /// The hash is above the share target of this difficulty.
    BelowDifficulty(String),
    /// The job's compact target stands for none.
    InvalidBits,
    /// The block is too large.
    BlockTooLarge,
    /// The tip moved while the block was mined.
    TipMoved,
    /// The chain did not take the block, for this reason.
    Reorg(String),
    /// The chain failed otherwise, for this reason.
    Chain(String),
}

/// What a [`ShareError`] holds.
pub enum ErrorModel {
    StaleJob(Seq<char>),
    BadExtranonce2,
    Extranonce2Size,
    BadNtime,
    BadNonce,
    Coinbase(Seq<char>),
    BelowDifficulty(Seq<char>),
    InvalidBits,
    BlockTooLarge,
    TipMoved,
    Reorg(Seq<char>),
    Chain(Seq<char>),
}

impl View for ShareError {
    type V = ErrorModel;

    open spec fn view(&self) -> ErrorModel {
        match *self {
            ShareError::StaleJob(id) => ErrorModel::StaleJob(id@),
            ShareError::BadExtranonce2 => ErrorModel::BadExtranonce2,
            ShareError::Extranonce2Size => ErrorModel::Extranonce2Size,
            ShareError::BadNtime => ErrorModel::BadNtime,
            ShareError::BadNonce => ErrorModel::BadNonce,
            ShareError::Coinbase(why) => ErrorModel::Coinbase(why@),
            ShareError::BelowDifficulty(d) => ErrorModel::BelowDifficulty(d@),
            ShareError::InvalidBits => ErrorModel::InvalidBits,
            ShareError::BlockTooLarge => ErrorModel::BlockTooLarge,
            ShareError::TipMoved => ErrorModel::TipMoved,
            ShareError::Reorg(why) => ErrorModel::Reorg(why@),
            ShareError::Chain(why) => ErrorModel::Chain(why@),
        }
    }
}

/// The text of an error.
pub open spec fn error_text(e: ErrorModel) -> Seq<char> {
    match e {
        ErrorModel::StaleJob(id) => "stale job "@ + id,
        ErrorModel::BadExtranonce2 => "bad extranonce2 hex"@,
        ErrorModel::Extranonce2Size => "extranonce2 must be 4 bytes"@,
        ErrorModel::BadNtime => "bad ntime"@,
        ErrorModel::BadNonce => "bad nonce"@,
        ErrorModel::Coinbase(why) => "coinbase deserialise failed: "@ + why,
        ErrorModel::BelowDifficulty(d) => "share below worker difficulty ("@ + d + ")"@,
        ErrorModel::InvalidBits => "invalid bits in job"@,
        ErrorModel::BlockTooLarge => "block exceeds MAX_BLOCK_BYTES"@,
        ErrorModel::TipMoved => "stale block: tip moved"@,
        ErrorModel::Reorg(why) => "maybe_reorg_to failed: "@ + why,
        ErrorModel::Chain(why) => why,
    }
}

fn joined(a: &str, b: &str) -> (r: String)
    ensures
        r@ == a@ + b@,
{
    let mut out = a.to_owned();
    out.append(b);
    out
}

impl ShareError {
    /// The text of the error.
    pub fn message(&self) -> (r: String)
        ensures
            r@ == error_text(self@),
    {
        match self {
            ShareError::StaleJob(id) => joined("stale job ", id.as_str()),
            ShareError::BadExtranonce2 => "bad extranonce2 hex".to_owned(),
            ShareError::Extranonce2Size => "extranonce2 must be 4 bytes".to_owned(),
            ShareError::BadNtime => "bad ntime".to_owned(),
            ShareError::BadNonce => "bad nonce".to_owned(),
            ShareError::Coinbase(why) => joined("coinbase deserialise failed: ", why.as_str()),
            ShareError::BelowDifficulty(d) => {
                let mut out = joined("share below worker difficulty (", d.as_str());
                out.append(")");
                out
            },
            ShareError::InvalidBits => "invalid bits in job".to_owned(),
            ShareError::BlockTooLarge => "block exceeds MAX_BLOCK_BYTES".to_owned(),
            ShareError::TipMoved => "stale block: tip moved".to_owned(),
            ShareError::Reorg(why) => joined("maybe_reorg_to failed: ", why.as_str()),
            ShareError::Chain(why) => why.clone(),
        }
    }
}

/// An answer that is well formed.
#[derive(Debug)]
pub struct OpenShare {
    pub job: Job,
    /// The coinbase transaction with the extranonces in it.
    pub coinbase: Vec<u8>,
    pub ntime: u32,
    pub nonce: u32,
}

/// What an [`OpenShare`] holds.
#[verifier::ext_equal]
pub struct OpenModel {
    pub job: JobModel,
    pub coinbase: Seq<u8>,
    pub ntime: u32,
    pub nonce: u32,
}

impl View for OpenShare {
    type V = OpenModel;

    open spec fn view(&self) -> OpenModel {
        OpenModel {
            job: self.job@,
            coinbase: self.coinbase@,
            ntime: self.ntime,
            nonce: self.nonce,
        }
    }
}

/// What an answer is, or why it is refused: the job must be in the window, the
/// extranonce 2 the hexadecimal text of four bytes, time and nonce numbers in
/// base 16. The first fault counts.
pub open spec fn opened(
    recent: Seq<JobModel>,
    extranonce1: Seq<u8>,
    job_id: Seq<char>,
    en2_hex: Seq<char>,
    ntime_hex: Seq<char>,
    nonce_hex: Seq<char>,
) -> Result<OpenModel, ErrorModel> {
    let en2 = paired_bytes(encode_utf8(en2_hex));
    match find_in(recent, job_id) {
        None => Err(ErrorModel::StaleJob(job_id)),
        Some(job) => if !is_hex_text(encode_utf8(en2_hex)) {
            Err(ErrorModel::BadExtranonce2)
        } else if en2.len() != EXTRANONCE2_BYTES {
            Err(ErrorModel::Extranonce2Size)
        } else {
            match hex_u32(ntime_hex) {
                None => Err(ErrorModel::BadNtime),
                Some(ntime) => match hex_u32(nonce_hex) {
                    None => Err(ErrorModel::BadNonce),
                    Some(nonce) => Ok(
                        OpenModel {
                            job,
                            coinbase: coinbase_bytes(
                                job.coinbase1,
                                extranonce1,
                                en2,
                                job.coinbase2,
                            ),
                            ntime,
                            nonce,
                        },
                    ),
                },
            }
        },
    }
}

/// Reads a worker's answer and puts the coinbase together.
pub fn open_share(
    state: &StratumState,
    extranonce1: &[u8; 4],
    job_id: &str,
    en2_hex: &str,
    ntime_hex: &str,
    nonce_hex: &str,
) -> (r: Result<OpenShare, ShareError>)
    ensures
        match (
            r,
            opened(
                state@.recent_jobs,
                extranonce1@,
                job_id@,
                en2_hex@,
                ntime_hex@,
                nonce_hex@,
            ),
        ) {
            (Ok(share), Ok(model)) => share@ == model,
            (Err(e), Err(model)) => e@ == model,
            _ => false,
        },
{
    let job = match state.find_job(job_id) {
        Some(job) => job,
        None => {
            return Err(ShareError::StaleJob(job_id.to_owned()));
        },
    };
    let en2 = match hex_decode(en2_hex) {
        Ok(en2) => en2,
        Err(_) => {
            return Err(ShareError::BadExtranonce2);
        },
    };
    if en2.len() != EXTRANONCE2_BYTES {
        return Err(ShareError::Extranonce2Size);
    }
    let ntime: u32 = match parse_hex_u32(ntime_hex) {
        Some(t) => t,
        None => {
            return Err(ShareError::BadNtime);
        },
    };
    let nonce: u32 = match parse_hex_u32(nonce_hex) {
        Some(n) => n,
        None => {
            return Err(ShareError::BadNonce);
        },
    };
    let mut coinbase = copy_bytes(job.coinbase1.as_slice());
    append_bytes(&mut coinbase, extranonce1.as_slice());
    append_bytes(&mut coinbase, en2.as_slice());
    append_bytes(&mut coinbase, job.coinbase2.as_slice());
    Ok(OpenShare { job, coinbase, ntime, nonce })
}

/// The header of a block.
#[derive(Debug, Clone, Copy)]
pub struct Header {
    pub version: u32,
    pub prev: [u8; 32],
    pub merkle: [u8; 32],
    pub time: u64,
    pub bits: u32,
    pub nonce: u32,
}

/// What a [`Header`] holds.
#[verifier::ext_equal]
pub struct HeaderModel {
    pub version: u32,
    pub prev: Seq<u8>,
    pub merkle: Seq<u8>,
    pub time: u64,
    pub bits: u32,
    pub nonce: u32,
}

impl View for Header {
    type V = HeaderModel;

    open spec fn view(&self) -> HeaderModel {
        HeaderModel {
            version: self.version,
            prev: self.prev@,
            merkle: self.merkle@,
            time: self.time,
            bits: self.bits,
            nonce: self.nonce,
        }
    }
}

/// The header that an answer stands for, given the block's Merkle root.
pub open spec fn header_of(share: OpenModel, merkle: Seq<u8>) -> HeaderModel {
    HeaderModel {
        version: share.job.version,
        prev: share.job.prev_hash,
        merkle,
        time: share.ntime as u64,
        bits: share.job.bits,
        nonce: share.nonce,
    }
}

/// The identifiers of the block's transactions, given the coinbase's.
pub open spec fn block_txid_list(share: OpenModel, coinbase_txid: Seq<u8>) -> Seq<Seq<u8>> {
    seq![coinbase_txid] + txids(share.job.rest_txs)
}

/// The serialised forms of a list of transactions.
pub open spec fn tx_bytes(txs: Seq<TxModel>) -> Seq<Seq<u8>> {
    txs.map_values(|t: TxModel| t.bytes)
}

/// The byte strings of a list.
pub open spec fn byte_strings(list: Seq<Vec<u8>>) -> Seq<Seq<u8>> {
    list.map_values(|v: Vec<u8>| v@)
}

/// The serialised transactions of the block, the coinbase first.
pub open spec fn block_tx_list(share: OpenModel) -> Seq<Seq<u8>> {
    seq![share.coinbase] + tx_bytes(share.job.rest_txs)
}

impl OpenShare {
    /// The identifiers of the block's transactions, given the coinbase's.
    pub fn block_txids(&self, coinbase_txid: [u8; 32]) -> (r: Vec<[u8; 32]>)
        ensures
            hashes(r@) == block_txid_list(self@, coinbase_txid@),
    {
        let rest = &self.job.rest_txs;
        let mut out: Vec<[u8; 32]> = Vec::new();
        out.push(coinbase_txid);
        let ghost all = block_txid_list(self@, coinbase_txid@);
        assert(hashes(out@) =~= all.take(1));
        let mut i: usize = 0;
        while i < rest.len()
            invariant
                i <= rest@.len(),
                rest == self.job.rest_txs,
                all == block_txid_list(self@, coinbase_txid@),
                hashes(out@) == all.take(i + 1),
            decreases rest@.len() - i,
        {
            let id = rest[i].txid;
            let ghost done = hashes(out@);
            out.push(id);
            assert(hashes(out@) =~= done.push(id@));
            assert(all[i + 1] == txids(self@.job.rest_txs)[i as int]);
            i = i + 1;
            assert(hashes(out@) =~= all.take(i + 1));
        }
        assert(all.take(i + 1) =~= all);
        out
    }

    /// The block's transactions, serialised, the coinbase first.
    pub fn block_txs(&self) -> (r: Vec<Vec<u8>>)
        ensures
            byte_strings(r@) == block_tx_list(self@),
    {
        let rest = &self.job.rest_txs;
        let mut out: Vec<Vec<u8>> = Vec::new();
        out.push(copy_bytes(self.coinbase.as_slice()));
        let ghost all = block_tx_list(self@);
        assert(byte_strings(out@) =~= all.take(1));
        let mut i: usize = 0;
        while i < rest.len()
            invariant
                i <= rest@.len(),
                rest == self.job.rest_txs,
                all == block_tx_list(self@),
                byte_strings(out@) == all.take(i + 1),
            decreases rest@.len() - i,
        {
            let b = copy_bytes(rest[i].bytes.as_slice());
            let ghost done = byte_strings(out@);
            out.push(b);
            assert(byte_strings(out@) =~= done.push(b@));
            assert(all[i + 1] == rest@[i as int].bytes@);
            i = i + 1;
            assert(byte_strings(out@) =~= all.take(i + 1));
        }
        assert(all.take(i + 1) =~= all);
        out
    }

    /// The header of the block, given its Merkle root.
    pub fn header(&self, merkle: [u8; 32]) -> (r: Header)
        ensures
            r@ == header_of(self@, merkle@),
    {
        Header {
            version: self.job.version,
            prev: self.job.prev_hash,
            merkle,
            time: self.ntime as u64,
            bits: self.job.bits,
            nonce: self.nonce,
        }
    }
}

/// What an answer comes to.
#[derive(Debug, Clone, Copy, PartialEq, Eq, Structural)]
pub enum ShareOutcome {
    /// A share.
    Share,
    /// A block.
    Block,
}

/// Judges the hash of an answer. `quotient` is the largest share value divided by
/// the worker's difficulty, `difficulty` the text of that difficulty, and
/// `network` whether the hash meets the network's target, `None` where the job's
/// compact target stands for none. A block comes back for a hash that meets both
/// targets.
pub fn judge_share(
    hash: &[u8; 32],
    quotient: u64,
    difficulty: String,
    network: Option<bool>,
) -> (r: Result<ShareOutcome, ShareError>)
    ensures
        match r {
            Ok(ShareOutcome::Block) => le_value(hash@) <= le_value(share_target(quotient))
                && network == Some(true),
            Ok(ShareOutcome::Share) => le_value(hash@) <= le_value(share_target(quotient))
                && network == Some(false),
            Err(e) => if le_value(hash@) > le_value(share_target(quotient)) {
                e@ == ErrorModel::BelowDifficulty(difficulty@)
            } else {
                network is None && e@ == ErrorModel::InvalidBits
            },
        },
{
    if !hash_meets_diff(hash, quotient) {
        return Err(ShareError::BelowDifficulty(difficulty));
    }
    match network {
        None => Err(ShareError::InvalidBits),
        Some(meets) => if meets {
            Ok(ShareOutcome::Block)
        } else {
            Ok(ShareOutcome::Share)
        },
    }
}

/// Checks the size of a serialised block.
pub fn check_block_size(len: usize, max_block_bytes: usize) -> (r: Result<(), ShareError>)
    ensures
        match r {
            Ok(()) => len <= max_block_bytes,
            Err(e) => len > max_block_bytes && e@ == ErrorModel::BlockTooLarge,
        },
{
    if len > max_block_bytes {
        Err(ShareError::BlockTooLarge)
    } else {
        Ok(())
    }
}

/// Checks that a job's parent is still the tip. The hash under which to look up
/// the parent comes back, none on an empty chain.
pub fn check_tip(tip: Option<[u8; 32]>, prev_hash: &[u8; 32]) -> (r: Result<
    Option<[u8; 32]>,
    ShareError,
>)
    ensures
        match r {
            Ok(parent) => tip_hash(tip) == prev_hash@ && match parent {
                Some(h) => h@ == prev_hash@ && prev_hash@ != zeros(32),
                None => prev_hash@ == zeros(32),
            },
            Err(e) => tip_hash(tip) != prev_hash@ && e@ == ErrorModel::TipMoved,
        },
{
    let current = tip_or_zeros(tip);
    if !same_hash(&current, prev_hash) {
        return Err(ShareError::TipMoved);
    }
    Ok(parent_to_look_up(tip))
}

}
