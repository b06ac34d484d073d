//! Jobs of the proxy: what it hands to miners and what it makes of their answers.

use vstd::prelude::*;

use serde_json::Value;

use crate::bytes::{
    append_bytes, copy_bytes, law_word_swap_undoes_itself, le_bytes, lemma_le_bytes_len, swap_words,
    u32_to_le, u64_to_le, word_swapped,
};
use crate::digest::{double_sha256, sha256d};
use crate::hextext::{format_hex, hex_chars, hex_number, hex_read, law_hex_reads_back, to_hex};
use crate::json::{
    json_array, json_bool, json_items, json_null, json_string, json_view, lemma_plain_call, make_call,
    notice, plain, text_items, Json, MAX_NESTING,
};
use crate::merkle::{copy_hashes, fold, fold_branch, hashes};

verus! {

/// A job taken from the upstream node, under the proxy's own identifier.
#[derive(Debug)]
pub struct Job {
    pub proxy_job_id: String,
    pub csd_job_id: String,
    pub target: [u8; 32],
    /// The extranonce 2 for the upstream node, all zeros.
    pub en2_hex: String,
    pub ntime_hex: String,
    pub coinbase1: Vec<u8>,
    pub coinbase2: Vec<u8>,
    pub merkle_branch: Vec<[u8; 32]>,
    pub version: u32,
    pub bits: u32,
    pub prev: [u8; 32],
    pub time64: u64,
}

/// What a [`Job`] holds.
#[verifier::ext_equal]
pub struct JobModel {
    pub proxy_job_id: Seq<char>,
    pub csd_job_id: Seq<char>,
    pub target: Seq<u8>,
    pub en2_hex: Seq<char>,
    pub ntime_hex: Seq<char>,
    pub coinbase1: Seq<u8>,
    pub coinbase2: Seq<u8>,
    pub merkle_branch: Seq<Seq<u8>>,
    pub version: u32,
    pub bits: u32,
    pub prev: Seq<u8>,
    pub time64: u64,
}

impl View for Job {
    type V = JobModel;

    open spec fn view(&self) -> JobModel {
        JobModel {
            proxy_job_id: self.proxy_job_id@,
            csd_job_id: self.csd_job_id@,
            target: self.target@,
            en2_hex: self.en2_hex@,
            ntime_hex: self.ntime_hex@,
            coinbase1: self.coinbase1@,
            coinbase2: self.coinbase2@,
            merkle_branch: hashes(self.merkle_branch@),
            version: self.version,
            bits: self.bits,
            prev: self.prev@,
            time64: self.time64,
        }
    }
}

impl Clone for Job {
    fn clone(&self) -> (r: Self)
        ensures
            r@ == self@,
    {
        Job {
            proxy_job_id: self.proxy_job_id.clone(),
            csd_job_id: self.csd_job_id.clone(),
            target: self.target,
            en2_hex: self.en2_hex.clone(),
            ntime_hex: self.ntime_hex.clone(),
            coinbase1: copy_bytes(self.coinbase1.as_slice()),
            coinbase2: copy_bytes(self.coinbase2.as_slice()),
            merkle_branch: copy_hashes(self.merkle_branch.as_slice()),
            version: self.version,
            bits: self.bits,
            prev: self.prev,
            time64: self.time64,
        }
    }
}

/// The previous block's hash as miners expect it: hexadecimal, with the bytes
/// of each four-byte word reversed.
pub fn btc_prev_hash(h: &[u8; 32]) -> (r: String)
    ensures
        r@ == hex_chars(word_swapped(h@)),
{
    let out = swap_words(h);
    to_hex(out.as_slice())
}

/// Reading the text of a previous hash and reversing its words again gives the
/// hash back.
pub proof fn law_prev_hash_reads_back(prev: Seq<u8>)
    requires
        prev.len() == 32,
    ensures
        word_swapped(hex_read(hex_chars(word_swapped(prev)))) == prev,
{
    law_hex_reads_back(word_swapped(prev));
    law_word_swap_undoes_itself(prev);
}

/// The hashes of a branch as hexadecimal texts.
pub open spec fn branch_texts(branch: Seq<Seq<u8>>) -> Seq<Seq<char>> {
    branch.map_values(|h: Seq<u8>| hex_chars(h))
}

/// The parameters of the notice of a job.
pub open spec fn notify_params(job: JobModel, clean: bool) -> Seq<Json> {
    seq![
        Json::Str(job.proxy_job_id),
        Json::Str(hex_chars(word_swapped(job.prev))),
        Json::Str(hex_chars(job.coinbase1)),
        Json::Str(hex_chars(job.coinbase2)),
        Json::Arr(text_items(branch_texts(job.merkle_branch))),
        Json::Str(hex_number(job.version as nat, 8)),
        Json::Str(hex_number(job.bits as nat, 8)),
        Json::Str(job.ntime_hex),
        Json::Bool(clean),
    ]
}

/// The notice of a job.
pub open spec fn notify_message(job: JobModel, clean: bool) -> Json {
    notice("mining.notify"@, notify_params(job, clean))
}

/// The notice of a job is plain.
pub proof fn lemma_notify_is_plain(job: JobModel, clean: bool)
    ensures
        plain(notify_message(job, clean), MAX_NESTING as nat),
{
    let params = notify_params(job, clean);
    assert forall|i: int| 0 <= i < params.len() implies plain(#[trigger] params[i], 125) by {
        reveal_with_fuel(plain, 2);
    }
    lemma_plain_call(Json::Null, "mining.notify"@, params, 125);
}

fn branch_values(branch: &Vec<[u8; 32]>) -> (r: Vec<Value>)
    ensures
        json_items(r@) == text_items(branch_texts(hashes(branch@))),
{
    let mut out: Vec<Value> = Vec::new();
    let ghost all = text_items(branch_texts(hashes(branch@)));
    while out.len() < branch.len()
        invariant
            out@.len() <= branch@.len(),
            all == text_items(branch_texts(hashes(branch@))),
            json_items(out@) == all.take(out@.len() as int),
        decreases branch@.len() - out@.len(),
    {
        let i: usize = out.len();
        let v = json_string(to_hex(branch[i].as_slice()));
        out.push(v);
        assert(json_items(out@) =~= all.take(out@.len() as int));
    }
    assert(json_items(out@) =~= all);
    out
}

/// Builds the notice of a job; `clean` tells miners to drop earlier ones.
pub fn make_notify(job: &Job, clean: bool) -> (r: Value)
    ensures
        json_view(r) == notify_message(job@, clean),
{
    let params = vec![
        json_string(job.proxy_job_id.clone()),
        json_string(btc_prev_hash(&job.prev)),
        json_string(to_hex(job.coinbase1.as_slice())),
        json_string(to_hex(job.coinbase2.as_slice())),
        json_array(branch_values(&job.merkle_branch)),
        json_string(format_hex(job.version as u64, 8)),
        json_string(format_hex(job.bits as u64, 8)),
        json_string(job.ntime_hex.clone()),
        json_bool(clean),
    ];
    assert(json_items(params@) =~= notify_params(job@, clean));
    make_call(json_null(), "mining.notify", params)
}

/// A coinbase transaction around a miner's two extranonces.
pub open spec fn coinbase_bytes(
    coinbase1: Seq<u8>,
    en1: Seq<u8>,
    en2: Seq<u8>,
    coinbase2: Seq<u8>,
) -> Seq<u8> {
    coinbase1 + en1 + en2 + coinbase2
}

/// The Merkle root of a job's block with a miner's two extranonces.
pub open spec fn job_merkle(job: JobModel, en1: Seq<u8>, en2: Seq<u8>) -> Seq<u8> {
    fold_branch(
        double_sha256(coinbase_bytes(job.coinbase1, en1, en2, job.coinbase2)),
        job.merkle_branch,
    )
}

/// Works out the Merkle root of a job's block with a miner's two extranonces.
pub fn reconstruct_merkle(job: &Job, en1: &[u8], en2: &[u8]) -> (r: [u8; 32])
    ensures
        r@ == job_merkle(job@, en1@, en2@),
{
    let mut cb = copy_bytes(job.coinbase1.as_slice());
    append_bytes(&mut cb, en1);
    append_bytes(&mut cb, en2);
    append_bytes(&mut cb, job.coinbase2.as_slice());
    let leaf = sha256d(cb.as_slice());
    fold(leaf, job.merkle_branch.as_slice())
}

/// The time in a header: the upper half of the job's time with the miner's
/// time below it.
pub open spec fn header_time(time64: u64, ntime32: u32) -> nat {
    time64 as nat / 0x1_0000_0000 * 0x1_0000_0000 + ntime32 as nat
}

/// The header of 84 bytes: version, previous hash, Merkle root, time of eight
/// bytes, bits and nonce, numbers lowest byte first.
pub open spec fn csd_header(job: JobModel, merkle: Seq<u8>, ntime32: u32, nonce: u32) -> Seq<u8> {
    le_bytes(job.version as nat, 4) + job.prev + merkle + le_bytes(
        header_time(job.time64, ntime32),
        8,
    ) + le_bytes(job.bits as nat, 4) + le_bytes(nonce as nat, 4)
}

/// Builds the header that a miner's answer stands for.
pub fn build_csd_header(job: &Job, merkle: &[u8; 32], ntime32: u32, nonce: u32) -> (r: [u8; 84])
    ensures
        r@ == csd_header(job@, merkle@, ntime32, nonce),
{
    let time64: u64 = job.time64 / 0x1_0000_0000 * 0x1_0000_0000 + ntime32 as u64;
    let mut out: Vec<u8> = Vec::new();
    append_bytes(&mut out, u32_to_le(job.version).as_slice());
    append_bytes(&mut out, job.prev.as_slice());
    append_bytes(&mut out, merkle.as_slice());
    append_bytes(&mut out, u64_to_le(time64).as_slice());
    append_bytes(&mut out, u32_to_le(job.bits).as_slice());
    append_bytes(&mut out, u32_to_le(nonce).as_slice());
    assert(out@ =~= csd_header(job@, merkle@, ntime32, nonce));
    let mut hdr = [0u8; 84];
    let mut i: usize = 0;
    while i < 84
        invariant
            i <= 84,
            out@.len() == 84,
            forall|k: int| 0 <= k < i ==> hdr@[k] == out@[k],
        decreases 84 - i,
    {
        hdr[i] = out[i];
        i = i + 1;
    }
    assert(hdr@ =~= out@);
    hdr
}

/// Each field of a header stands at its fixed place.
pub proof fn law_header_layout(job: JobModel, merkle: Seq<u8>, ntime32: u32, nonce: u32)
    requires
        job.prev.len() == 32,
        merkle.len() == 32,
    ensures
        ({
            let h = csd_header(job, merkle, ntime32, nonce);
            &&& h.len() == 84
            &&& h.subrange(0, 4) == le_bytes(job.version as nat, 4)
            &&& h.subrange(4, 36) == job.prev
            &&& h.subrange(36, 68) == merkle
            &&& h.subrange(68, 76) == le_bytes(header_time(job.time64, ntime32), 8)
            &&& h.subrange(76, 80) == le_bytes(job.bits as nat, 4)
            &&& h.subrange(80, 84) == le_bytes(nonce as nat, 4)
        }),
{
    let h = csd_header(job, merkle, ntime32, nonce);
    lemma_le_bytes_len(job.version as nat, 4);
    lemma_le_bytes_len(header_time(job.time64, ntime32), 8);
    lemma_le_bytes_len(job.bits as nat, 4);
    lemma_le_bytes_len(nonce as nat, 4);
    assert(h.subrange(0, 4) =~= le_bytes(job.version as nat, 4));
    assert(h.subrange(4, 36) =~= job.prev);
    assert(h.subrange(36, 68) =~= merkle);
    assert(h.subrange(68, 76) =~= le_bytes(header_time(job.time64, ntime32), 8));
    assert(h.subrange(76, 80) =~= le_bytes(job.bits as nat, 4));
    assert(h.subrange(80, 84) =~= le_bytes(nonce as nat, 4));
}

}
