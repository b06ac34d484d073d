//! Jobs of the mining server.

use vstd::prelude::*;

use serde_json::Value;

use crate::bytes::{copy_bytes, swap_words, word_swapped};
use crate::hextext::{format_hex, hex_chars, hex_encode, hex_number};
use crate::json::{
    json_array, json_bool, json_items, json_null, json_string, json_view, lemma_plain_call, make_call,
    notice, plain, text_items, Json, MAX_NESTING,
};
use crate::merkle::{branch_of_first, copy_hashes, first_leaf_branch, hashes};
use crate::proxy::job::branch_texts;

verus! {

/// A transaction: its identifier and its serialised form.
#[derive(Debug)]
pub struct Tx {
    pub txid: [u8; 32],
    pub bytes: Vec<u8>,
}

/// What a [`Tx`] holds.
#[verifier::ext_equal]
pub struct TxModel {
    pub txid: Seq<u8>,
    pub bytes: Seq<u8>,
}

impl View for Tx {
    type V = TxModel;

    open spec fn view(&self) -> TxModel {
        TxModel { txid: self.txid@, bytes: self.bytes@ }
    }
}

impl Clone for Tx {
    fn clone(&self) -> (r: Self)
        ensures
            r@ == self@,
    {
        Tx { txid: self.txid, bytes: copy_bytes(self.bytes.as_slice()) }
    }
}

/// What the transactions of a list hold.
pub open spec fn txs_view(txs: Seq<Tx>) -> Seq<TxModel> {
    txs.map_values(|t: Tx| t@)
}

/// The identifiers of a list of transactions.
pub open spec fn txids(txs: Seq<TxModel>) -> Seq<Seq<u8>> {
    txs.map_values(|t: TxModel| t.txid)
}

/// Copies the transactions of a list from an index on.
pub fn copy_txs(txs: &Vec<Tx>, from: usize) -> (r: Vec<Tx>)
    requires
        from <= txs@.len(),
    ensures
        txs_view(r@) == txs_view(txs@).skip(from as int),
{
    let mut out: Vec<Tx> = Vec::new();
    let mut i: usize = from;
    let ghost all = txs_view(txs@);
    assert(txs_view(out@) =~= all.subrange(from as int, from as int));
    while i < txs.len()
        invariant
            from <= i <= txs@.len(),
            all == txs_view(txs@),
            txs_view(out@) == all.subrange(from as int, i as int),
        decreases txs@.len() - i,
    {
        let t = txs[i].clone();
        let ghost done = txs_view(out@);
        out.push(t);
        assert(txs_view(out@) =~= done.push(t@));
        assert(all[i as int] == t@);
        i = i + 1;
        assert(txs_view(out@) =~= all.subrange(from as int, i as int));
    }
    assert(all.subrange(from as int, i as int) =~= all.skip(from as int));
    out
}

/// A block to be mined.
#[derive(Debug)]
pub struct Job {
    pub job_id: String,
    pub prev_hash: [u8; 32],
    /// The coinbase transaction up to the extranonces.
    pub coinbase1: Vec<u8>,
    /// The coinbase transaction after the extranonces.
    pub coinbase2: Vec<u8>,
    pub merkle_branch: Vec<[u8; 32]>,
    pub version: u32,
    pub bits: u32,
    pub time: u32,
    pub height: u64,
    /// The transactions after the coinbase.
    pub rest_txs: Vec<Tx>,
}

/// What a [`Job`] holds.
#[verifier::ext_equal]
pub struct JobModel {
    pub job_id: Seq<char>,
    pub prev_hash: Seq<u8>,
    pub coinbase1: Seq<u8>,
    pub coinbase2: Seq<u8>,
    pub merkle_branch: Seq<Seq<u8>>,
    pub version: u32,
    pub bits: u32,
    pub time: u32,
    pub height: u64,
    pub rest_txs: Seq<TxModel>,
}

impl View for Job {
    type V = JobModel;

    open spec fn view(&self) -> JobModel {
        JobModel {
            job_id: self.job_id@,
            prev_hash: self.prev_hash@,
            coinbase1: self.coinbase1@,
            coinbase2: self.coinbase2@,
            merkle_branch: hashes(self.merkle_branch@),
            version: self.version,
            bits: self.bits,
            time: self.time,
            height: self.height,
            rest_txs: txs_view(self.rest_txs@),
        }
    }
}

impl Clone for Job {
    fn clone(&self) -> (r: Self)
        ensures
            r@ == self@,
    {
        let rest_txs = copy_txs(&self.rest_txs, 0);
        assert(txs_view(self.rest_txs@).skip(0) =~= txs_view(self.rest_txs@));
        Job {
            job_id: self.job_id.clone(),
            prev_hash: self.prev_hash,
            coinbase1: copy_bytes(self.coinbase1.as_slice()),
            coinbase2: copy_bytes(self.coinbase2.as_slice()),
            merkle_branch: copy_hashes(self.merkle_branch.as_slice()),
            version: self.version,
            bits: self.bits,
            time: self.time,
            height: self.height,
            rest_txs,
        }
    }
}

/// The previous block's hash as miners expect it: hexadecimal, with the bytes
/// of each four-byte word reversed.
pub fn stratum_prev_hash(h: &[u8; 32]) -> (r: String)
    ensures
        r@ == hex_chars(word_swapped(h@)),
{
    let out = swap_words(h);
    hex_encode(out.as_slice())
}

/// The parameters of the notice of a job.
pub open spec fn notify_params(job: JobModel, clean_jobs: bool) -> Seq<Json> {
    seq![
        Json::Str(job.job_id),
        Json::Str(hex_chars(word_swapped(job.prev_hash))),
        Json::Str(hex_chars(job.coinbase1)),
        Json::Str(hex_chars(job.coinbase2)),
        Json::Arr(text_items(branch_texts(job.merkle_branch))),
        Json::Str(hex_number(job.version as nat, 8)),
        Json::Str(hex_number(job.bits as nat, 8)),
        Json::Str(hex_number(job.time as nat, 8)),
        Json::Bool(clean_jobs),
    ]
}

/// The notice of a job.
pub open spec fn notify_message(job: JobModel, clean_jobs: bool) -> Json {
    notice("mining.notify"@, notify_params(job, clean_jobs))
}

/// The notice of a job is plain.
pub proof fn lemma_notify_is_plain(job: JobModel, clean_jobs: bool)
    ensures
        plain(notify_message(job, clean_jobs), MAX_NESTING as nat),
{
    let params = notify_params(job, clean_jobs);
    assert forall|i: int| 0 <= i < params.len() implies plain(#[trigger] params[i], 125) by {
        reveal_with_fuel(plain, 2);
    }
    lemma_plain_call(Json::Null, "mining.notify"@, params, 125);
}

fn branch_values(branch: &Vec<[u8; 32]>) -> (r: Vec<Value>)
    ensures
        json_items(r@) == text_items(branch_texts(hashes(branch@))),
{
    let mut out: Vec<Value> = Vec::new();
    let ghost all = text_items(branch_texts(hashes(branch@)));
    while out.len() < branch.len()
        invariant
            out@.len() <= branch@.len(),
            all == text_items(branch_texts(hashes(branch@))),
            json_items(out@) == all.take(out@.len() as int),
        decreases branch@.len() - out@.len(),
    {
        let i: usize = out.len();
        let v = json_string(hex_encode(branch[i].as_slice()));
        out.push(v);
        assert(json_items(out@) =~= all.take(out@.len() as int));
    }
    assert(json_items(out@) =~= all);
    out
}

impl Job {
    /// The branch that leads from the first transaction of a block to the Merkle
    /// root.
    pub fn coinbase_merkle_path(txids: &[[u8; 32]]) -> (r: Vec<[u8; 32]>)
        ensures
            hashes(r@) == first_leaf_branch(hashes(txids@)),
    {
        branch_of_first(txids)
    }

    /// Builds the notice of the job; `clean_jobs` tells miners to drop earlier
    /// ones.
    pub fn to_notify(&self, clean_jobs: bool) -> (r: Value)
        ensures
            json_view(r) == notify_message(self@, clean_jobs),
    {
        let params = vec![
            json_string(self.job_id.clone()),
            json_string(stratum_prev_hash(&self.prev_hash)),
            json_string(hex_encode(self.coinbase1.as_slice())),
            json_string(hex_encode(self.coinbase2.as_slice())),
            json_array(branch_values(&self.merkle_branch)),
            json_string(format_hex(self.version as u64, 8)),
            json_string(format_hex(self.bits as u64, 8)),
            json_string(format_hex(self.time as u64, 8)),
            json_bool(clean_jobs),
        ];
        assert(json_items(params@) =~= notify_params(self@, clean_jobs));
        make_call(json_null(), "mining.notify", params)
    }
}

}
