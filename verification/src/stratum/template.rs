//! Making jobs out of what the chain holds.

use vstd::prelude::*;

use crate::bytes::{le_bytes, u64_to_le, zero_bytes, zeros};
use crate::hextext::{format_hex, hex_number, law_numbers_differ};
use crate::merkle::{
    first_leaf_branch, fold_branch, hashes, law_branch_serves_every_first_leaf, merkle_root,
};
use crate::proxy::job::coinbase_bytes;
use crate::stratum::job::{copy_txs, txids, txs_view, Job, JobModel, Tx};

verus! {

/// The size of the extranonce 1 that the server assigns.
pub const EXTRANONCE1_BYTES: usize = 4;

/// The size of the extranonce 2 that miners choose.
pub const EXTRANONCE2_BYTES: usize = 4;

/// The age, in seconds, at which a job is replaced though the tip has not moved.
pub const JOB_REFRESH_SECS: u64 = 30;

/// The bytes of a block kept free beside the transactions of a template.
pub const BLOCK_RESERVE: usize = 16384;

/// What the chain holds of a job's parent block.
#[derive(Debug, Clone, Copy)]
pub struct Parent {
    pub height: u64,
    pub time: u64,
}

/// What a job is made of.
#[derive(Debug)]
pub struct Template {
    /// The tip of the chain.
    pub tip: Option<[u8; 32]>,
    /// What the chain holds of the tip.
    pub parent: Option<Parent>,
    pub bits: u32,
    /// The serialised coinbase, with zeros for the two extranonces.
    pub coinbase: Vec<u8>,
    /// The transactions of the block, a coinbase first.
    pub txs: Vec<Tx>,
    /// The median time of the blocks before, where it is known.
    pub median_time_past: Option<u64>,
    /// The present time.
    pub now: u64,
    /// The least time between a block and its parent.
    pub min_spacing: u64,
}

/// Why a job could not be made.
#[derive(Debug, PartialEq, Eq, Structural)]
pub enum BuildError {
    /// The serialised coinbase has no place for the extranonces.
    NoExtranonceSplit,
}

/// The text of an error.
pub open spec fn build_error_text(e: BuildError) -> Seq<char> {
    "stratum: could not locate extranonce split in serialised coinbase"@
}

impl BuildError {
    /// The text of the error.
    pub fn message(&self) -> (r: String)
        ensures
            r@ == build_error_text(*self),
    {
        "stratum: could not locate extranonce split in serialised coinbase".to_owned()
    }
}

/// The hash of a tip; zeros for an empty chain.
pub open spec fn tip_hash(tip: Option<[u8; 32]>) -> Seq<u8> {
    match tip {
        Some(h) => h@,
        None => zeros(32),
    }
}

/// The parent of a job: none on an empty chain.
pub open spec fn parent_of(tip: Option<[u8; 32]>, parent: Option<Parent>) -> Option<Parent> {
    if tip_hash(tip) == zeros(32) {
        None
    } else {
        parent
    }
}

/// The height of a block on a parent.
pub open spec fn height_on(parent: Option<Parent>) -> nat {
    match parent {
        Some(p) => p.height as nat + 1,
        None => 0,
    }
}

/// The larger of two numbers.
pub open spec fn larger(a: nat, b: nat) -> nat {
    if a < b {
        b
    } else {
        a
    }
}

/// The earliest time of a block: the spacing after its parent, and past the
/// median time, as far as a `u64` reaches.
pub open spec fn earliest_time(parent: Option<Parent>, mtp: Option<u64>, spacing: u64) -> nat {
    larger(
        match parent {
            Some(p) => p.time as nat + spacing as nat,
            None => 0,
        },
        match mtp {
            Some(t) => if t < u64::MAX {
                t as nat + 1
            } else {
                u64::MAX as nat
            },
            None => 1,
        },
    )
}

/// The time of a job before it is cut to 32 bits.
pub open spec fn job_time(t: Template) -> nat {
    larger(
        t.now as nat,
        earliest_time(parent_of(t.tip, t.parent), t.median_time_past, t.min_spacing),
    )
}

/// Whether the height and a zero byte stand at an index of a coinbase, with at
/// least one byte after them.
pub open spec fn height_at(cb: Seq<u8>, height_le: Seq<u8>, i: int) -> bool {
    0 <= i && i + 9 < cb.len() && cb.subrange(i, i + 8) == height_le && cb[i + 8] == 0
}

/// The index behind the first height and zero byte at or after an index.
pub open spec fn offset_from(cb: Seq<u8>, height_le: Seq<u8>, i: int) -> Option<int>
    decreases cb.len() - i,
{
    if i < 0 || i + 9 >= cb.len() {
        None
    } else if height_at(cb, height_le, i) {
        Some(i + 9)
    } else {
        offset_from(cb, height_le, i + 1)
    }
}

/// The index at which the extranonces of a coinbase start.
pub open spec fn extranonce_offset(cb: Seq<u8>, height_le: Seq<u8>) -> Option<int> {
    offset_from(cb, height_le, 0)
}

proof fn lemma_offset_from(cb: Seq<u8>, height_le: Seq<u8>, i: int)
    requires
        0 <= i,
    ensures
        match offset_from(cb, height_le, i) {
            Some(o) => {
                &&& i <= o - 9
                &&& height_at(cb, height_le, o - 9)
                &&& forall|j: int| i <= j < o - 9 ==> !height_at(cb, height_le, j)
            },
            None => forall|j: int| i <= j ==> !height_at(cb, height_le, j),
        },
    decreases cb.len() - i,
{
    if i + 9 < cb.len() && !height_at(cb, height_le, i) {
        lemma_offset_from(cb, height_le, i + 1);
    }
}

/// The extranonces start behind the first place where the height is followed by
/// a zero byte, and nowhere where there is no such place.
pub proof fn law_offset_is_first_match(cb: Seq<u8>, height_le: Seq<u8>)
    ensures
        match extranonce_offset(cb, height_le) {
            Some(o) => {
                &&& height_at(cb, height_le, o - 9)
                &&& forall|j: int| j < o - 9 ==> !height_at(cb, height_le, j)
            },
            None => forall|j: int| !height_at(cb, height_le, j),
        },
{
    lemma_offset_from(cb, height_le, 0);
}

/// Finds where the extranonces of a serialised coinbase start: behind the height
/// (eight bytes, lowest first) and a zero byte.
pub fn find_extranonce_offset(cb_bytes: &[u8], height_le: &[u8; 8]) -> (r: Result<
    usize,
    BuildError,
>)
    ensures
        match r {
            Ok(o) => extranonce_offset(cb_bytes@, height_le@) == Some(o as int),
            Err(_) => extranonce_offset(cb_bytes@, height_le@) is None,
        },
{
    let len: usize = cb_bytes.len();
    let mut i: usize = 0;
    while i < len && len - i > 9
        invariant
            i <= len,
            len == cb_bytes@.len(),
            extranonce_offset(cb_bytes@, height_le@) == offset_from(
                cb_bytes@,
                height_le@,
                i as int,
            ),
        decreases len - i,
    {
        let mut k: usize = 0;
        while k < 8 && cb_bytes[i + k] == height_le[k as usize]
            invariant
                k <= 8,
                i < len,
                len - i > 9,
                len == cb_bytes@.len(),
                forall|n: int| 0 <= n < k ==> cb_bytes@[i + n] == height_le@[n],
            ensures
                k <= 8,
                forall|n: int| 0 <= n < k ==> cb_bytes@[i + n] == height_le@[n],
                k < 8 ==> cb_bytes@[i + k] != height_le@[k as int],
            decreases 8 - k,
        {
            k = k + 1;
        }
        if k == 8 && cb_bytes[i + 8] == 0 {
            assert(cb_bytes@.subrange(i as int, i + 8) =~= height_le@);
            return Ok(i + 9);
        }
        proof {
            if k < 8 {
                assert(cb_bytes@.subrange(i as int, i + 8)[k as int] == cb_bytes@[i + k]);
            }
            assert(!height_at(cb_bytes@, height_le@, i as int));
        }
        i = i + 1;
    }
    Err(BuildError::NoExtranonceSplit)
}

/// Whether two hashes are the same.
pub fn same_hash(a: &[u8; 32], b: &[u8; 32]) -> (r: bool)
    ensures
        r == (a@ == b@),
{
    let mut i: usize = 0;
    while i < 32
        invariant
            i <= 32,
            forall|k: int| 0 <= k < i ==> a@[k] == b@[k],
        decreases 32 - i,
    {
        if a[i] != b[i] {
            return false;
        }
        i = i + 1;
    }
    assert(a@ =~= b@);
    true
}

/// The hash of a tip; zeros for an empty chain.
pub fn tip_or_zeros(tip: Option<[u8; 32]>) -> (r: [u8; 32])
    ensures
        r@ == tip_hash(tip),
{
    match tip {
        Some(h) => h,
        None => {
            let z = [0u8; 32];
            assert(z@ =~= zeros(32));
            z
        },
    }
}

/// The hash under which to look up a job's parent; none on an empty chain.
pub fn parent_to_look_up(tip: Option<[u8; 32]>) -> (r: Option<[u8; 32]>)
    ensures
        match r {
            Some(h) => h@ == tip_hash(tip) && tip_hash(tip) != zeros(32),
            None => tip_hash(tip) == zeros(32),
        },
{
    let h = tip_or_zeros(tip);
    let z = [0u8; 32];
    assert(z@ =~= zeros(32));
    if same_hash(&h, &z) {
        None
    } else {
        Some(h)
    }
}

/// The parent of a job on a tip.
pub fn job_parent(tip: Option<[u8; 32]>, parent: Option<Parent>) -> (r: Option<Parent>)
    ensures
        r == parent_of(tip, parent),
{
    match parent_to_look_up(tip) {
        Some(_) => parent,
        None => None,
    }
}

/// The height of the block to be mined on a tip.
pub fn next_height(tip: Option<[u8; 32]>, parent: Option<Parent>) -> (r: u64)
    requires
        height_on(parent_of(tip, parent)) <= u64::MAX,
    ensures
        r == height_on(parent_of(tip, parent)),
{
    match job_parent(tip, parent) {
        Some(p) => p.height + 1,
        None => 0,
    }
}

/// The room for transactions in a block: what is left of its greatest size
/// beside a reserve.
pub fn template_room(max_block_bytes: usize) -> (r: usize)
    ensures
        r == if max_block_bytes >= BLOCK_RESERVE {
            max_block_bytes - BLOCK_RESERVE
        } else {
            0
        },
{
    max_block_bytes.saturating_sub(BLOCK_RESERVE)
}

/// What stands for the two extranonces in the coinbase of a template.
pub fn extranonce_placeholder() -> (r: Vec<u8>)
    ensures
        r@ == zeros((EXTRANONCE1_BYTES + EXTRANONCE2_BYTES) as nat),
{
    zero_bytes(EXTRANONCE1_BYTES + EXTRANONCE2_BYTES)
}

/// Whether a template can be tried: its height fits in a `u64` and, where the
/// place of the extranonces is found, there is room for them behind it, the
/// earliest time fits in a `u64`, and there is a coinbase among the transactions.
pub open spec fn template_fits(t: Template) -> bool {
    let parent = parent_of(t.tip, t.parent);
    &&& height_on(parent) <= u64::MAX
    &&& match template_offset(t) {
        Some(o) => {
            &&& o + EXTRANONCE1_BYTES + EXTRANONCE2_BYTES <= t.coinbase@.len()
            &&& earliest_time(parent, t.median_time_past, t.min_spacing) <= u64::MAX
            &&& t.txs@.len() > 0
        },
        None => true,
    }
}

/// Tells whether a template can be tried.
pub fn can_build(t: &Template) -> (r: bool)
    ensures
        r == template_fits(*t),
{
    let parent = job_parent(t.tip, t.parent);
    match parent {
        Some(p) => if p.height == u64::MAX {
            return false;
        },
        None => {},
    }
    let height_le = u64_to_le(next_height(t.tip, t.parent));
    let cb = t.coinbase.as_slice();
    let split: usize = match find_extranonce_offset(cb, &height_le) {
        Ok(split) => split,
        Err(_) => {
            return true;
        },
    };
    proof {
        law_offset_is_first_match(cb@, height_le@);
    }
    let late = match parent {
        Some(p) => p.time > u64::MAX - t.min_spacing,
        None => false,
    };
    cb.len() - split >= EXTRANONCE1_BYTES + EXTRANONCE2_BYTES && !late && t.txs.len() > 0
}

/// Where the extranonces of a template's coinbase start.
pub open spec fn template_offset(t: Template) -> Option<int> {
    extranonce_offset(t.coinbase@, le_bytes(height_on(parent_of(t.tip, t.parent)), 8))
}

/// The job that a template makes under a number, where its coinbase is split at
/// an index.
pub open spec fn built_job(t: Template, split: int, number: u64) -> JobModel {
    let rest = txs_view(t.txs@).skip(1);
    JobModel {
        job_id: hex_number(number as nat, 16),
        prev_hash: tip_hash(t.tip),
        coinbase1: t.coinbase@.take(split),
        coinbase2: t.coinbase@.skip(split + EXTRANONCE1_BYTES + EXTRANONCE2_BYTES),
        merkle_branch: first_leaf_branch(seq![zeros(32)] + txids(rest)),
        version: 1,
        bits: t.bits,
        time: (job_time(t) % 0x1_0000_0000) as u32,
        height: height_on(parent_of(t.tip, t.parent)) as u64,
        rest_txs: rest,
    }
}

/// The time of the job to be made of a template.
pub fn template_time(t: &Template) -> (r: u64)
    requires
        earliest_time(parent_of(t.tip, t.parent), t.median_time_past, t.min_spacing) <= u64::MAX,
    ensures
        r == job_time(*t),
{
    let after_parent: u64 = match job_parent(t.tip, t.parent) {
        Some(p) => p.time + t.min_spacing,
        None => 0,
    };
    let mtp: u64 = match t.median_time_past {
        Some(m) => m,
        None => 0,
    };
    let after_median: u64 = mtp.saturating_add(1);
    let earliest: u64 = if after_parent < after_median {
        after_median
    } else {
        after_parent
    };
    if t.now < earliest {
        earliest
    } else {
        t.now
    }
}

fn all_txids(rest: &Vec<Tx>) -> (r: Vec<[u8; 32]>)
    ensures
        hashes(r@) == seq![zeros(32)] + txids(txs_view(rest@)),
{
    let first = [0u8; 32];
    assert(first@ =~= zeros(32));
    let mut out: Vec<[u8; 32]> = Vec::new();
    out.push(first);
    let mut i: usize = 0;
    let ghost all = seq![zeros(32)] + txids(txs_view(rest@));
    assert(hashes(out@) =~= all.take(1));
    while i < rest.len()
        invariant
            i <= rest@.len(),
            all == seq![zeros(32)] + txids(txs_view(rest@)),
            hashes(out@) == all.take(i + 1),
        decreases rest@.len() - i,
    {
        let id = rest[i].txid;
        let ghost done = hashes(out@);
        out.push(id);
        assert(hashes(out@) =~= done.push(id@));
        assert(all[i + 1] == txids(txs_view(rest@))[i as int]);
        i = i + 1;
        assert(hashes(out@) =~= all.take(i + 1));
    }
    assert(all.take(i + 1) =~= all);
    out
}

/// Makes the job of a template, under the number that `job_counter` gives; the
/// counter moves on where a job is made.
pub fn build_job(t: &Template, job_counter: &mut u64) -> (r: Result<Job, BuildError>)
    requires
        template_fits(*t),
    ensures
        match r {
            Ok(job) => {
                &&& template_offset(*t) is Some
                &&& job@ == built_job(*t, template_offset(*t).unwrap(), *old(job_counter))
                &&& *final(job_counter) == if *old(job_counter) < u64::MAX {
                    *old(job_counter) + 1
                } else {
                    0
                }
            },
            Err(_) => template_offset(*t) is None && *final(job_counter) == *old(job_counter),
        },
{
    let height: u64 = next_height(t.tip, t.parent);
    let height_le = u64_to_le(height);
    let split: usize = match find_extranonce_offset(t.coinbase.as_slice(), &height_le) {
        Ok(o) => o,
        Err(e) => {
            return Err(e);
        },
    };
    proof {
        law_offset_is_first_match(t.coinbase@, height_le@);
        assert(height as nat == height_on(parent_of(t.tip, t.parent)));
        assert(template_offset(*t) == Some(split as int));
        assert(split + EXTRANONCE1_BYTES + EXTRANONCE2_BYTES <= t.coinbase@.len());
    }
    let cb = t.coinbase.as_slice();
    let end: usize = cb.len();
    let coinbase1 = copy_range(cb, 0, split);
    let coinbase2 = copy_range(cb, split + EXTRANONCE1_BYTES + EXTRANONCE2_BYTES, end);
    let rest_txs = copy_txs(&t.txs, 1);
    let ids = all_txids(&rest_txs);
    let merkle_branch = Job::coinbase_merkle_path(ids.as_slice());
    let time: u32 = (template_time(t) % 0x1_0000_0000) as u32;
    let job_id = format_hex(*job_counter, 16);
    *job_counter = if *job_counter < u64::MAX {
        *job_counter + 1
    } else {
        0
    };
    let job = Job {
        job_id,
        prev_hash: tip_or_zeros(t.tip),
        coinbase1,
        coinbase2,
        merkle_branch,
        version: 1,
        bits: t.bits,
        time,
        height,
        rest_txs,
    };
    assert(job@ =~= built_job(*t, split as int, *old(job_counter)));
    Ok(job)
}

fn copy_range(s: &[u8], from: usize, to: usize) -> (r: Vec<u8>)
    requires
        from <= to <= s@.len(),
    ensures
        r@ == s@.subrange(from as int, to as int),
{
    let mut out: Vec<u8> = Vec::new();
    let mut i: usize = from;
    while i < to
        invariant
            from <= i <= to <= s@.len(),
            out@ == s@.subrange(from as int, i as int),
        decreases to - i,
    {
        out.push(s[i]);
        i = i + 1;
        assert(out@ =~= s@.subrange(from as int, i as int));
    }
    out
}

/// The branch of a job leads from each coinbase to the Merkle root of the block
/// with that coinbase.
pub proof fn law_job_branch_serves_every_coinbase(t: Template, split: int, number: u64, coinbase: Seq<u8>)
    ensures
        ({
            let job = built_job(t, split, number);
            fold_branch(coinbase, job.merkle_branch) == merkle_root(
                seq![coinbase] + txids(job.rest_txs),
            )
        }),
{
    let rest = txids(txs_view(t.txs@).skip(1));
    let leaves = seq![zeros(32)] + rest;
    law_branch_serves_every_first_leaf(leaves, coinbase);
    assert(leaves.update(0, coinbase) =~= seq![coinbase] + rest);
}

/// The coinbase of a job with two extranonces in it has the length of the
/// template's, and differs from it nowhere but in the extranonces; with the
/// template's own bytes for them it is the template's.
pub proof fn law_coinbase_keeps_all_but_extranonces(
    t: Template,
    number: u64,
    en1: Seq<u8>,
    en2: Seq<u8>,
)
    requires
        template_fits(t),
        template_offset(t) is Some,
        en1.len() == EXTRANONCE1_BYTES,
        en2.len() == EXTRANONCE2_BYTES,
    ensures
        ({
            let split = template_offset(t).unwrap();
            let job = built_job(t, split, number);
            let cb = coinbase_bytes(job.coinbase1, en1, en2, job.coinbase2);
            &&& cb.len() == t.coinbase@.len()
            &&& cb.subrange(split, split + 8) == en1 + en2
            &&& forall|i: int|
                0 <= i < cb.len() && !(split <= i < split + 8) ==> cb[i] == t.coinbase@[i]
            &&& en1 + en2 == t.coinbase@.subrange(split, split + 8) ==> cb == t.coinbase@
        }),
{
    let split = template_offset(t).unwrap();
    let job = built_job(t, split, number);
    let cb = coinbase_bytes(job.coinbase1, en1, en2, job.coinbase2);
    law_offset_is_first_match(
        t.coinbase@,
        le_bytes(height_on(parent_of(t.tip, t.parent)), 8),
    );
    assert(cb.subrange(split, split + 8) =~= en1 + en2);
    if en1 + en2 == t.coinbase@.subrange(split, split + 8) {
        assert forall|i: int| 0 <= i < cb.len() implies cb[i] == t.coinbase@[i] by {
            if split <= i < split + 8 {
                assert(cb[i] == cb.subrange(split, split + 8)[i - split]);
                assert(t.coinbase@[i] == t.coinbase@.subrange(split, split + 8)[i - split]);
            }
        }
        assert(cb =~= t.coinbase@);
    }
}

/// What precedes the extranonces of a job ends in the height and a zero byte.
pub proof fn law_extranonces_follow_height(t: Template, number: u64)
    requires
        template_fits(t),
        template_offset(t) is Some,
    ensures
        ({
            let job = built_job(t, template_offset(t).unwrap(), number);
            let n = job.coinbase1.len() as int;
            &&& n >= 9
            &&& job.coinbase1.subrange(n - 9, n - 1) == le_bytes(job.height as nat, 8)
            &&& job.coinbase1[n - 1] == 0
        }),
{
    let height_le = le_bytes(height_on(parent_of(t.tip, t.parent)), 8);
    let o = template_offset(t).unwrap();
    law_offset_is_first_match(t.coinbase@, height_le);
    let c1 = t.coinbase@.take(o);
    assert(c1.subrange(o - 9, o - 1) =~= t.coinbase@.subrange(o - 9, o - 1));
}

/// A time that fits in 32 bits is not before the present, not within the spacing
/// after the parent, and past the median time.
pub proof fn law_job_time_is_late_enough(t: Template, split: int, number: u64)
    requires
        job_time(t) <= u32::MAX,
    ensures
        ({
            let time = built_job(t, split, number).time;
            &&& time >= t.now
            &&& parent_of(t.tip, t.parent) is Some ==> time >= parent_of(
                t.tip,
                t.parent,
            ).unwrap().time + t.min_spacing
            &&& t.median_time_past is Some ==> time > t.median_time_past.unwrap()
        }),
{
}

/// Jobs made under different numbers have different identifiers.
pub proof fn law_job_identifiers_differ(t: Template, i: int, m: u64, u: Template, j: int, n: u64)
    requires
        m != n,
    ensures
        built_job(t, i, m).job_id != built_job(u, j, n).job_id,
{
    law_numbers_differ(m as nat, n as nat, 16);
}

/// Whether a job is due on a tip, some seconds after the latest was made on
/// another or the same: where the tip has moved, or the latest is old enough. The
/// value within tells whether the tip has moved.
pub open spec fn job_due(last: Seq<u8>, tip: Option<[u8; 32]>, elapsed_secs: u64) -> Option<bool> {
    if tip_hash(tip) != last {
        Some(true)
    } else if elapsed_secs >= JOB_REFRESH_SECS {
        Some(false)
    } else {
        None
    }
}

/// Once a job was made on a tip, the next one on that tip is due when the first is
/// old enough and not before; one on any other tip is due at once.
pub proof fn law_next_job_is_due(
    made_on: Option<[u8; 32]>,
    tip: Option<[u8; 32]>,
    elapsed_secs: u64,
)
    ensures
        job_due(tip_hash(made_on), made_on, elapsed_secs) == if elapsed_secs >= JOB_REFRESH_SECS {
            Some(false)
        } else {
            None
        },
        tip_hash(tip) != tip_hash(made_on) ==> job_due(tip_hash(made_on), tip, elapsed_secs)
            == Some(true),
{
}

/// When a job is due.
#[derive(Debug)]
pub struct Dispatcher {
    /// The tip that the latest job was made on.
    pub last_tip: [u8; 32],
}

impl Dispatcher {
    /// A dispatcher that has made no job.
    pub fn new() -> (r: Self)
        ensures
            r.last_tip@ == zeros(32),
    {
        let z = [0u8; 32];
        assert(z@ =~= zeros(32));
        Dispatcher { last_tip: z }
    }

    /// Whether a job is due: where the tip has moved, or the latest job was made
    /// long enough ago. The value within tells whether the tip has moved.
    pub fn due(&self, tip: Option<[u8; 32]>, elapsed_secs: u64) -> (r: Option<bool>)
        ensures
            r == job_due(self.last_tip@, tip, elapsed_secs),
    {
        let now = tip_or_zeros(tip);
        let changed = !same_hash(&now, &self.last_tip);
        if changed || elapsed_secs >= JOB_REFRESH_SECS {
            Some(changed)
        } else {
            None
        }
    }

    /// Notes that a job was made on a tip.
    pub fn made(&mut self, tip: Option<[u8; 32]>)
        ensures
            final(self).last_tip@ == tip_hash(tip),
    {
        self.last_tip = tip_or_zeros(tip);
    }
}

}
