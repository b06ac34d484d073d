//! What the mining server does, told by what goes in and what comes out.

use vstd::prelude::*;
use vstd::utf8::encode_utf8;

use serde_json::Value;

use crate::bytes::{le_bytes, le_value, word_swapped, zeros};
use crate::hextext::{hex_chars, hex_number, hex_u32, is_hex_text, paired_bytes};
use crate::json::{
    all_sent, json_field, json_parse, json_view, line_of, method_of, reads_as, sent, Json,
};
use crate::laws::chain::law_share_target_is_scaled_quotient;
use crate::laws::encoding::pow256;
use crate::laws::messages::{
    calls, grants, law_call_has_its_members, law_difficulty_is_told, law_message_is_read_as_it_is,
    law_refusal_has_its_parts, law_reply_has_its_members, law_subscription_has_its_parts,
    lemma_all_methods_differ, refuses, replies, says, subscribes, tells_difficulty, under_id,
    with_params,
};
use crate::laws::proxy::text_at;
use crate::merkle::{first_leaf_branch, fold_branch, hashes, merkle_root};
use crate::stratum::flow::{
    flow_step, FlowModel, ShareAction, ShareEvent, ShareFlow, Stage, StageModel,
};
use crate::stratum::job::{notify_message, notify_params, txids, txs_view, Job, Tx};
use crate::stratum::share::{
    block_tx_list, block_txid_list, byte_strings, error_text, header_of, opened, tx_bytes, Header,
    OpenShare, ShareError, ShareOutcome,
};
use crate::stratum::state::{find_in, job_view, jobs_view, window_after, StateModel, StratumState};
use crate::stratum::template::{
    built_job, extranonce_offset, height_on, job_due, job_time, law_offset_is_first_match,
    parent_of, template_fits, template_offset, tip_hash, Dispatcher, Template, BLOCK_RESERVE,
    EXTRANONCE1_BYTES, EXTRANONCE2_BYTES,
};
use crate::stratum::vardiff::after_share;
use crate::stratum::worker::{
    job_step, retarget_messages, verdict_reply, verdict_view, worker_line, worker_step, JobEvent,
    JobStep, StepModel, Worker, WorkerEvent, WorkerModel, WorkerStep,
};
use crate::text::is_blank_text;

verus! {

/// The hashes of a job's branch, in order.
pub open spec fn branch_of(job: Job) -> Seq<Seq<u8>> {
    Seq::new(job.merkle_branch@.len(), |i: int| job.merkle_branch@[i]@)
}

/// The identifiers of a list of transactions, in order.
pub open spec fn ids_of(txs: Seq<Tx>) -> Seq<Seq<u8>> {
    Seq::new(txs.len(), |i: int| txs[i].txid@)
}

/// The serialised transactions of a list, in order.
pub open spec fn bytes_of(txs: Seq<Tx>) -> Seq<Seq<u8>> {
    Seq::new(txs.len(), |i: int| txs[i].bytes@)
}

/// Whether two jobs are the same in every field.
pub open spec fn same_fields(a: Job, b: Job) -> bool {
    &&& a.job_id@ == b.job_id@
    &&& a.prev_hash@ == b.prev_hash@
    &&& a.coinbase1@ == b.coinbase1@
    &&& a.coinbase2@ == b.coinbase2@
    &&& branch_of(a) == branch_of(b)
    &&& a.version == b.version
    &&& a.bits == b.bits
    &&& a.time == b.time
    &&& a.height == b.height
    &&& ids_of(a.rest_txs@) == ids_of(b.rest_txs@)
    &&& bytes_of(a.rest_txs@) == bytes_of(b.rest_txs@)
}

proof fn lemma_job_lists(job: Job)
    ensures
        job@.merkle_branch == branch_of(job),
        txids(job@.rest_txs) == ids_of(job.rest_txs@),
        tx_bytes(job@.rest_txs) == bytes_of(job.rest_txs@),
{
    assert(hashes(job.merkle_branch@) =~= branch_of(job));
    assert(txids(txs_view(job.rest_txs@)) =~= ids_of(job.rest_txs@));
    assert(tx_bytes(txs_view(job.rest_txs@)) =~= bytes_of(job.rest_txs@));
}

/// Jobs that are seen as equal are the same in every field; so a copy of a job is.
pub proof fn law_equal_jobs_are_the_same(a: Job, b: Job)
    requires
        a@ == b@,
    ensures
        same_fields(a, b),
{
    lemma_job_lists(a);
    lemma_job_lists(b);
}

/// Whether a message is the notice of a job: its identifier, its previous hash with
/// the words reversed, the two parts of its coinbase, its branch, version, bits and
/// time as hexadecimal text, and the clean flag.
pub open spec fn notifies(msg: Json, job: Job, clean: bool) -> bool {
    json_field(msg, "params"@) matches Some(Json::Arr(p)) && {
        &&& calls(msg, Json::Null, "mining.notify"@, p)
        &&& p.len() == 9
        &&& p[0] == Json::Str(job.job_id@)
        &&& p[1] == Json::Str(hex_chars(word_swapped(job.prev_hash@)))
        &&& p[2] == Json::Str(hex_chars(job.coinbase1@))
        &&& p[3] == Json::Str(hex_chars(job.coinbase2@))
        &&& p[4] matches Json::Arr(branch) && branch.len() == job.merkle_branch@.len() && forall|
            i: int,
        |
            0 <= i < branch.len() ==> #[trigger] branch[i] == Json::Str(
                hex_chars(job.merkle_branch@[i]@),
            )
        &&& p[5] == Json::Str(hex_number(job.version as nat, 8))
        &&& p[6] == Json::Str(hex_number(job.bits as nat, 8))
        &&& p[7] == Json::Str(hex_number(job.time as nat, 8))
        &&& p[8] == Json::Bool(clean)
    }
}

proof fn lemma_notice(job: Job, clean: bool)
    ensures
        notifies(notify_message(job@, clean), job, clean),
{
    law_call_has_its_members(Json::Null, "mining.notify"@, notify_params(job@, clean));
}

/// The notice of a job tells every field that miners need, for either value of the
/// clean flag.
pub proof fn law_notice_tells_the_job(job: Job, clean: bool, msg: Value)
    requires
        json_view(msg) == notify_message(job@, clean),
    ensures
        notifies(json_view(msg), job, clean),
{
    lemma_notice(job, clean);
}

/// The two notices of one job differ in the ninth parameter alone.
pub proof fn law_clean_flag_changes_nothing_else(job: Job, a: Value, b: Value, i: int)
    requires
        json_view(a) == notify_message(job@, true),
        json_view(b) == notify_message(job@, false),
        0 <= i < 8,
    ensures
        json_field(json_view(a), "params"@) matches Some(Json::Arr(p)) && (json_field(
            json_view(b),
            "params"@,
        ) matches Some(Json::Arr(q)) && p.len() == 9 && q.len() == 9 && p[i] == q[i] && p[8]
            == Json::Bool(true) && q[8] == Json::Bool(false)),
{
    law_call_has_its_members(Json::Null, "mining.notify"@, notify_params(job@, true));
    law_call_has_its_members(Json::Null, "mining.notify"@, notify_params(job@, false));
}

/// The path of the first transaction leads from every identifier that it might have to
/// the Merkle root over it and the other transactions.
pub proof fn law_path_leads_to_the_root(
    ids: Seq<[u8; 32]>,
    path: Vec<[u8; 32]>,
    first: [u8; 32],
)
    requires
        ids.len() > 0,
        hashes(path@) == first_leaf_branch(hashes(ids)),
    ensures
        fold_branch(first@, Seq::new(path@.len(), |i: int| path@[i]@)) == merkle_root(
            Seq::new(
                ids.len(),
                |i: int|
                    if i == 0 {
                        first@
                    } else {
                        ids[i]@
                    },
            ),
        ),
{
    crate::merkle::law_branch_serves_every_first_leaf(hashes(ids), first@);
    assert(hashes(path@) =~= Seq::new(path@.len(), |i: int| path@[i]@));
    assert(hashes(ids).update(0, first@) =~= Seq::new(
        ids.len(),
        |i: int|
            if i == 0 {
                first@
            } else {
                ids[i]@
            },
    ));
}

/// The extranonces start nine bytes behind the first place where the eight bytes of
/// the height are followed by a zero byte and at least one more; there is no such
/// place where they start nowhere.
pub proof fn law_extranonces_start_behind_the_height(
    cb: Seq<u8>,
    height_le: Seq<u8>,
    o: Option<int>,
    j: int,
)
    requires
        o == extranonce_offset(cb, height_le),
    ensures
        o matches Some(at) ==> {
            &&& 9 <= at < cb.len()
            &&& cb.subrange(at - 9, at - 1) == height_le
            &&& cb[at - 1] == 0
        },
        0 <= j && j + 9 < cb.len() && cb.subrange(j, j + 8) == height_le && cb[j + 8] == 0 ==> (
        o matches Some(at) && at <= j + 9),
{
    law_offset_is_first_match(cb, height_le);
    if 0 <= j && j + 9 < cb.len() && cb.subrange(j, j + 8) == height_le && cb[j + 8] == 0 {
        assert(crate::stratum::template::height_at(cb, height_le, j));
    }
}

/// Whether a template has a parent: it has one of which the chain knows, and its tip
/// is not all zeros.
pub open spec fn has_parent(t: Template) -> bool {
    t.parent is Some && (t.tip matches Some(h) && exists|i: int| 0 <= i < 32 && h@[i] != 0)
}

proof fn lemma_parent(t: Template)
    ensures
        parent_of(t.tip, t.parent) == if has_parent(t) {
            t.parent
        } else {
            None
        },
{
    if let Some(h) = t.tip {
        if forall|i: int| 0 <= i < 32 ==> h@[i] == 0 {
            assert(h@ =~= zeros(32));
        } else {
            let i = choose|i: int| 0 <= i < 32 && h@[i] != 0;
            assert(zeros(32)[i] == 0);
        }
    }
}

/// A block is one above its parent, which is the one that the chain knows for a tip
/// that is not all zeros; without such a parent it is at zero.
pub proof fn law_height_is_one_above_the_parent(t: Template)
    ensures
        has_parent(t) ==> parent_of(t.tip, t.parent) == t.parent && height_on(
            parent_of(t.tip, t.parent),
        ) == t.parent.unwrap().height + 1,
        !has_parent(t) ==> parent_of(t.tip, t.parent) is None && height_on(
            parent_of(t.tip, t.parent),
        ) == 0,
{
    lemma_parent(t);
}

/// The height of the block to be mined on a template.
pub open spec fn height_of(t: Template) -> nat {
    if has_parent(t) {
        t.parent.unwrap().height as nat + 1
    } else {
        0
    }
}

/// A template's extranonces start behind the eight bytes of its height, the lowest
/// first, and a zero byte, wherever these stand first with a byte behind them.
pub proof fn law_template_is_split_behind_its_height(t: Template, j: int)
    ensures
        template_offset(t) matches Some(at) ==> {
            &&& 9 <= at < t.coinbase@.len()
            &&& t.coinbase@.subrange(at - 9, at - 1) == le_bytes(height_of(t), 8)
            &&& t.coinbase@[at - 1] == 0
        },
        0 <= j && j + 9 < t.coinbase@.len() && t.coinbase@.subrange(j, j + 8) == le_bytes(
            height_of(t),
            8,
        ) && t.coinbase@[j + 8] == 0 ==> (template_offset(t) matches Some(at) && at <= j + 9),
{
    lemma_parent(t);
    law_extranonces_start_behind_the_height(
        t.coinbase@,
        le_bytes(height_of(t), 8),
        template_offset(t),
        j,
    );
}

/// A template can be tried where its height fits in 64 bits and, if its extranonces
/// start anywhere, there is room for their eight bytes, the parent's time and the
/// spacing fit in 64 bits, and there is a transaction.
pub proof fn law_template_can_be_tried(t: Template)
    ensures
        template_fits(t) <==> height_of(t) <= u64::MAX && (template_offset(t) matches Some(at) ==> {
            &&& at + 8 <= t.coinbase@.len()
            &&& has_parent(t) ==> t.parent.unwrap().time + t.min_spacing <= u64::MAX
            &&& t.txs@.len() > 0
        }),
{
    lemma_parent(t);
}

/// A job that was built on a template is on its tip, byte for byte, and on zeros
/// without one; it is one above the parent, or at zero without one.
pub proof fn law_job_is_on_the_tip(t: Template, number: u64, job: Job, i: int)
    requires
        template_offset(t) is Some,
        job@ == built_job(t, template_offset(t).unwrap(), number),
        height_on(parent_of(t.tip, t.parent)) <= u64::MAX,
        0 <= i < 32,
    ensures
        t.tip matches Some(h) ==> job.prev_hash@[i] == h@[i] && job.prev_hash@ == h@,
        t.tip is None ==> job.prev_hash@[i] == 0,
        job.height == if has_parent(t) {
            t.parent.unwrap().height + 1
        } else {
            0
        },
        job.bits == t.bits,
        job.version == 1,
        job.job_id@ == hex_number(number as nat, 16),
{
    lemma_parent(t);
}

/// A block of a job passes the check of the tip exactly while the chain's tip is the
/// one that the job was built on.
pub proof fn law_tip_check_passes_on_the_same_tip(
    t: Template,
    number: u64,
    job: Job,
    now: Option<[u8; 32]>,
)
    requires
        template_offset(t) is Some,
        job@ == built_job(t, template_offset(t).unwrap(), number),
    ensures
        t.tip matches Some(h) ==> (now matches Some(n) ==> (tip_hash(now) == job.prev_hash@ <==> n@
            == h@)),
        t.tip is None && now is None ==> tip_hash(now) == job.prev_hash@,
        (t.tip matches Some(h) && exists|i: int| 0 <= i < 32 && h@[i] != 0) && now is None
            ==> tip_hash(now) != job.prev_hash@,
{
    lemma_parent(t);
    if now is None {
        if let Some(h) = t.tip {
            if exists|i: int| 0 <= i < 32 && h@[i] != 0 {
                let i = choose|i: int| 0 <= i < 32 && h@[i] != 0;
                assert(zeros(32)[i] == 0);
            }
        }
    }
}

/// A job that was built on a template has the template's coinbase but for the eight
/// bytes behind the height, and the transactions after the first, in order.
pub proof fn law_job_has_the_coinbase_and_the_transactions(
    t: Template,
    number: u64,
    job: Job,
    at: int,
    i: int,
)
    requires
        template_offset(t) == Some(at),
        at + 8 <= t.coinbase@.len(),
        t.txs@.len() > 0,
        job@ == built_job(t, at, number),
    ensures
        job.coinbase1@ == t.coinbase@.subrange(0, at),
        job.coinbase2@ == t.coinbase@.subrange(at + 8, t.coinbase@.len() as int),
        job.rest_txs@.len() == t.txs@.len() - 1,
        0 <= i < job.rest_txs@.len() ==> job.rest_txs@[i].txid@ == t.txs@[i + 1].txid@
            && job.rest_txs@[i].bytes@ == t.txs@[i + 1].bytes@,
{
    law_offset_is_first_match(
        t.coinbase@,
        le_bytes(height_on(parent_of(t.tip, t.parent)), 8),
    );
    assert(job.coinbase1@ =~= t.coinbase@.subrange(0, at));
    assert(job.coinbase2@ =~= t.coinbase@.subrange(at + 8, t.coinbase@.len() as int));
    let rest = txs_view(t.txs@).skip(1);
    assert(txs_view(job.rest_txs@) == rest);
    assert(txs_view(job.rest_txs@).len() == job.rest_txs@.len());
    if 0 <= i < job.rest_txs@.len() {
        assert(txs_view(job.rest_txs@)[i] == job.rest_txs@[i]@);
        assert(rest[i] == t.txs@[i + 1]@);
    }
}

/// A job's branch leads from the identifier of every coinbase to the Merkle root over
/// it and the job's other transactions.
pub proof fn law_job_branch_leads_to_the_root(
    t: Template,
    number: u64,
    job: Job,
    at: int,
    coinbase_id: Seq<u8>,
)
    requires
        job@ == built_job(t, at, number),
    ensures
        fold_branch(coinbase_id, branch_of(job)) == merkle_root(
            seq![coinbase_id] + ids_of(job.rest_txs@),
        ),
{
    crate::stratum::template::law_job_branch_serves_every_coinbase(t, at, number, coinbase_id);
    lemma_job_lists(job);
}

/// A job's time is the latest of three, cut to 32 bits: the present, the parent's
/// time and the least spacing, and one past the median time, one where that is not
/// known.
pub proof fn law_job_time_is_the_latest(t: Template, number: u64, job: Job, at: int)
    requires
        job@ == built_job(t, at, number),
    ensures
        ({
            let after_parent = if has_parent(t) {
                t.parent.unwrap().time + t.min_spacing
            } else {
                0
            };
            let after_median = match t.median_time_past {
                Some(m) => if m < u64::MAX {
                    m + 1
                } else {
                    u64::MAX as int
                },
                None => 1,
            };
            let time = job_time(t) as int;
            &&& time >= t.now && time >= after_parent && time >= after_median
            &&& time == t.now || time == after_parent || time == after_median
            &&& job.time == time % 0x1_0000_0000
        }),
{
    lemma_parent(t);
}

/// A job is due where the tip, zeros without one, has moved since the last was made,
/// and otherwise after thirty seconds.
pub proof fn law_job_is_due(d: Dispatcher, tip: Option<[u8; 32]>, elapsed: u64, r: Option<bool>)
    requires
        r == job_due(d.last_tip@, tip, elapsed),
    ensures
        ({
            let moved = match tip {
                Some(h) => h@ != d.last_tip@,
                None => exists|i: int| 0 <= i < 32 && d.last_tip@[i] != 0,
            };
            &&& moved ==> r == Some(true)
            &&& !moved && elapsed >= 30 ==> r == Some(false)
            &&& !moved && elapsed < 30 ==> r is None
        }),
{
    if tip is None {
        if d.last_tip@ == zeros(32) {
        } else if forall|i: int| 0 <= i < 32 ==> d.last_tip@[i] == 0 {
            assert(d.last_tip@ =~= zeros(32));
        }
    }
}

/// Once a job was made on a tip, none is due on it before thirty seconds are up.
pub proof fn law_made_job_is_not_due_again(
    after: Dispatcher,
    tip: Option<[u8; 32]>,
    elapsed: u64,
    r: Option<bool>,
)
    requires
        after.last_tip@ == tip_hash(tip),
        r == job_due(after.last_tip@, tip, elapsed),
    ensures
        elapsed < 30 ==> r is None,
        elapsed >= 30 ==> r == Some(false),
        tip matches Some(h) ==> after.last_tip@ == h@,
        tip is None ==> forall|i: int| 0 <= i < 32 ==> after.last_tip@[i] == 0,
{
}

/// A worker that is assigned an extranonce 1 gets the four bytes of the count, the
/// lowest first; the count moves on by one and starts anew after the last, and the
/// jobs stay.
pub proof fn law_extranonce_is_assigned(before: StratumState, after: StratumState, r: [u8; 4])
    requires
        r@ == le_bytes(before@.next_extranonce1 as nat, 4),
        after@ == (StateModel {
            next_extranonce1: if before@.next_extranonce1 < u32::MAX {
                (before@.next_extranonce1 + 1) as u32
            } else {
                0
            },
            ..before@
        }),
    ensures
        r@[0] + 0x100 * r@[1] + 0x1_0000 * r@[2] + 0x100_0000 * r@[3] == before.next_extranonce1,
        before.next_extranonce1 < u32::MAX ==> after.next_extranonce1 == before.next_extranonce1
            + 1,
        before.next_extranonce1 == u32::MAX ==> after.next_extranonce1 == 0,
        jobs_view(after.recent_jobs@) == jobs_view(before.recent_jobs@),
{
    reveal_with_fuel(le_bytes, 5);
    let n = before.next_extranonce1 as nat;
    assert(le_bytes(n, 4) =~= seq![
        (n % 256) as u8,
        (n / 256 % 256) as u8,
        (n / 256 / 256 % 256) as u8,
        (n / 256 / 256 / 256 % 256) as u8,
    ]);
}

/// What is put for the two extranonces in a template's coinbase is eight zero bytes,
/// and the room for transactions is what a block leaves beside 16384 bytes.
pub proof fn law_template_leaves_room(placeholder: Vec<u8>, max: usize, room: usize)
    requires
        placeholder@ == zeros((EXTRANONCE1_BYTES + EXTRANONCE2_BYTES) as nat),
        room == if max >= BLOCK_RESERVE {
            max - BLOCK_RESERVE
        } else {
            0
        },
    ensures
        placeholder@.len() == 8,
        forall|i: int| 0 <= i < 8 ==> placeholder@[i] == 0,
        max >= 16384 ==> room == max - 16384,
        max < 16384 ==> room == 0,
{
}

/// A new answer starts at the coinbase with what it was given, and a new worker has its
/// extranonce 1 and neither login nor subscription.
pub proof fn law_beginnings(
    share: OpenShare,
    quotient: u64,
    difficulty: String,
    max_block_bytes: usize,
    flow: ShareFlow,
    extranonce1: [u8; 4],
    worker: Worker,
)
    requires
        flow@ == (FlowModel {
            share: share@,
            quotient,
            difficulty: difficulty@,
            max_block_bytes,
            stage: StageModel::Coinbase,
        }),
        worker@ == (WorkerModel {
            extranonce1: extranonce1@,
            authorized: false,
            subscribed: false,
        }),
    ensures
        flow.stage is Coinbase,
        same_fields(flow.share.job, share.job),
        flow.share.coinbase@ == share.coinbase@,
        flow.share.ntime == share.ntime,
        flow.share.nonce == share.nonce,
        flow.quotient == quotient,
        flow.difficulty@ == difficulty@,
        flow.max_block_bytes == max_block_bytes,
        worker.extranonce1@ == extranonce1@,
        !worker.authorized,
        !worker.subscribed,
{
    law_equal_jobs_are_the_same(flow.share.job, share.job);
}

/// A job that comes in is the current one and the last of the latest; the others stay
/// in order, and the oldest leaves where they are more than eight with it.
pub proof fn law_window_moves_on(before: StratumState, job: Job, after: StratumState, i: int)
    requires
        after@ == (StateModel {
            current_job: Some(job@),
            recent_jobs: window_after(before@.recent_jobs, job@),
            next_extranonce1: before@.next_extranonce1,
        }),
    ensures
        ({
            let (old, new) = (before.recent_jobs@, after.recent_jobs@);
            let gone: int = if old.len() + 1 > 8 {
                1
            } else {
                0
            };
            &&& after.current_job matches Some(j) && same_fields(j, job)
            &&& after.next_extranonce1 == before.next_extranonce1
            &&& new.len() == old.len() + 1 - gone
            &&& same_fields(new[new.len() - 1], job)
            &&& 0 <= i < new.len() - 1 ==> same_fields(new[i], old[i + gone])
        }),
{
    let (old, new) = (before.recent_jobs@, after.recent_jobs@);
    let gone: int = if old.len() + 1 > 8 {
        1
    } else {
        0
    };
    let seen = jobs_view(new);
    assert(seen == window_after(jobs_view(old), job@));
    assert(seen.len() == new.len());
    assert(seen[new.len() - 1] == new[new.len() - 1]@);
    law_equal_jobs_are_the_same(after.current_job.unwrap(), job);
    law_equal_jobs_are_the_same(new[new.len() - 1], job);
    if 0 <= i < new.len() - 1 {
        assert(seen[i] == new[i]@);
        assert(seen[i] == old[i + gone]@);
        law_equal_jobs_are_the_same(new[i], old[i + gone]);
    }
}

proof fn lemma_find_in(jobs: Seq<Job>, id: Seq<char>, k: int)
    ensures
        find_in(jobs_view(jobs), id) is None ==> (0 <= k < jobs.len() ==> jobs[k].job_id@ != id),
        find_in(jobs_view(jobs), id) matches Some(m) ==> exists|i: int|
            #![trigger jobs[i]]
            0 <= i < jobs.len() && jobs[i]@ == m && jobs[i].job_id@ == id && (0 <= k < i
                ==> jobs[k].job_id@ != id),
    decreases jobs.len(),
{
    if jobs.len() > 0 {
        let rest = jobs.drop_first();
        let seen = jobs_view(jobs);
        assert(seen[0] == jobs[0]@);
        assert(seen.drop_first() =~= jobs_view(rest));
        lemma_find_in(rest, id, k - 1);
        if jobs[0].job_id@ == id {
            assert(jobs[0]@ == seen[0]);
        } else {
            if let Some(m) = find_in(seen, id) {
                let i = choose|i: int|
                    #![trigger rest[i]]
                    0 <= i < rest.len() && rest[i]@ == m && rest[i].job_id@ == id && (0 <= k - 1 < i
                        ==> rest[k - 1].job_id@ != id);
                assert(jobs[i + 1] == rest[i]);
                if 0 < k < i + 1 {
                    assert(jobs[k] == rest[k - 1]);
                }
            } else if 0 < k < jobs.len() {
                assert(jobs[k] == rest[k - 1]);
            }
        }
    }
}

/// The job that is found is the oldest of the latest with the identifier; none is
/// found where none of them has it.
pub proof fn law_oldest_job_is_found(state: StratumState, id: Seq<char>, r: Option<Job>, k: int)
    requires
        job_view(r) == find_in(state@.recent_jobs, id),
    ensures
        r is None ==> (0 <= k < state.recent_jobs@.len() ==> state.recent_jobs@[k].job_id@ != id),
        r matches Some(job) ==> job.job_id@ == id && exists|i: int|
            #![trigger state.recent_jobs@[i]]
            0 <= i < state.recent_jobs@.len() && same_fields(job, state.recent_jobs@[i]) && (0 <= k
                < i ==> state.recent_jobs@[k].job_id@ != id),
{
    let jobs = state.recent_jobs@;
    lemma_find_in(jobs, id, k);
    if let Some(job) = r {
        let i = choose|i: int|
            #![trigger jobs[i]]
            0 <= i < jobs.len() && jobs[i]@ == job@ && jobs[i].job_id@ == id && (0 <= k < i
                ==> jobs[k].job_id@ != id);
        law_equal_jobs_are_the_same(job, jobs[i]);
        assert(same_fields(job, state.recent_jobs@[i]));
    }
}

/// A share within sixty seconds is counted and nothing else; a later one hands over
/// the count with itself, and the count starts at zero.
pub proof fn law_shares_are_counted(count: nat, elapsed: u64)
    ensures
        elapsed < 60 ==> after_share(count, elapsed) == (count + 1, None::<nat>),
        elapsed >= 60 ==> after_share(count, elapsed) == (0nat, Some(count + 1)),
{
}

/// Whether an answer was read as [`crate::stratum::share::open_share`] reads it.
pub open spec fn answer_was_read(
    state: StratumState,
    extranonce1: [u8; 4],
    job_id: Seq<char>,
    en2_hex: Seq<char>,
    ntime_hex: Seq<char>,
    nonce_hex: Seq<char>,
    r: Result<OpenShare, ShareError>,
) -> bool {
    match (
        r,
        opened(state@.recent_jobs, extranonce1@, job_id, en2_hex, ntime_hex, nonce_hex),
    ) {
        (Ok(share), Ok(model)) => share@ == model,
        (Err(e), Err(model)) => e@ == model,
        _ => false,
    }
}

/// An answer is well formed exactly where its job is among the latest, its extranonce
/// 2 is the text of four bytes and its time and nonce are numbers; otherwise the first
/// of these that fails is the error. A well-formed one has the job, the two numbers,
/// and the coinbase with the worker's extranonce 1 and its own extranonce 2 in it.
pub proof fn law_answer_is_well_formed(
    state: StratumState,
    extranonce1: [u8; 4],
    job_id: Seq<char>,
    en2_hex: Seq<char>,
    ntime_hex: Seq<char>,
    nonce_hex: Seq<char>,
    r: Result<OpenShare, ShareError>,
)
    requires
        answer_was_read(state, extranonce1, job_id, en2_hex, ntime_hex, nonce_hex, r),
    ensures
        ({
            let found = find_in(state@.recent_jobs, job_id);
            let hex = is_hex_text(encode_utf8(en2_hex));
            let en2 = paired_bytes(encode_utf8(en2_hex));
            match r {
                Ok(share) => {
                    &&& found == Some(share.job@)
                    &&& hex && en2.len() == 4
                    &&& hex_u32(ntime_hex) == Some(share.ntime)
                    &&& hex_u32(nonce_hex) == Some(share.nonce)
                    &&& share.coinbase@ == share.job.coinbase1@ + extranonce1@ + en2
                        + share.job.coinbase2@
                },
                Err(ShareError::StaleJob(id)) => found is None && id@ == job_id,
                Err(ShareError::BadExtranonce2) => found is Some && !hex,
                Err(ShareError::Extranonce2Size) => found is Some && hex && en2.len() != 4,
                Err(ShareError::BadNtime) => found is Some && hex && en2.len() == 4 && hex_u32(
                    ntime_hex,
                ) is None,
                Err(ShareError::BadNonce) => found is Some && hex && en2.len() == 4 && hex_u32(
                    ntime_hex,
                ) is Some && hex_u32(nonce_hex) is None,
                Err(_) => false,
            }
        }),
{
    if let Ok(share) = r {
        assert(share.coinbase@ =~= share.job.coinbase1@ + extranonce1@ + en2_hex_bytes(en2_hex)
            + share.job.coinbase2@);
    }
}

spec fn en2_hex_bytes(en2_hex: Seq<char>) -> Seq<u8> {
    paired_bytes(encode_utf8(en2_hex))
}

/// Each error has its own text.
pub proof fn law_error_texts(e: ShareError, text: String)
    requires
        text@ == error_text(e@),
    ensures
        match e {
            ShareError::StaleJob(id) => text@ == "stale job "@ + id@,
            ShareError::BadExtranonce2 => text@ == "bad extranonce2 hex"@,
            ShareError::Extranonce2Size => text@ == "extranonce2 must be 4 bytes"@,
            ShareError::BadNtime => text@ == "bad ntime"@,
            ShareError::BadNonce => text@ == "bad nonce"@,
            ShareError::Coinbase(why) => text@ == "coinbase deserialise failed: "@ + why@,
            ShareError::BelowDifficulty(d) => text@ == "share below worker difficulty ("@ + d@
                + ")"@,
            ShareError::InvalidBits => text@ == "invalid bits in job"@,
            ShareError::BlockTooLarge => text@ == "block exceeds MAX_BLOCK_BYTES"@,
            ShareError::TipMoved => text@ == "stale block: tip moved"@,
            ShareError::Reorg(why) => text@ == "maybe_reorg_to failed: "@ + why@,
            ShareError::Chain(why) => text@ == why@,
        },
{
}

/// Whether a header is the one of a share's job, with a Merkle root and the share's
/// own time and nonce.
pub open spec fn heads(header: Header, share: OpenShare, root: Seq<u8>) -> bool {
    &&& header.version == share.job.version
    &&& header.prev@ == share.job.prev_hash@
    &&& header.merkle@ == root
    &&& header.time == share.ntime
    &&& header.bits == share.job.bits
    &&& header.nonce == share.nonce
}

/// Whether two headers are the same in every field.
pub open spec fn same_header(a: Header, b: Header) -> bool {
    &&& a.version == b.version
    &&& a.prev@ == b.prev@
    &&& a.merkle@ == b.merkle@
    &&& a.time == b.time
    &&& a.bits == b.bits
    &&& a.nonce == b.nonce
}

/// The header of a block has the fields of the share and its job.
pub proof fn law_header_is_of_the_share(share: OpenShare, root: [u8; 32], header: Header)
    requires
        header@ == header_of(share@, root@),
    ensures
        heads(header, share, root@),
{
}

/// Whether a list of identifiers is the coinbase's and those of the job's other
/// transactions, in order.
pub open spec fn lists_ids(ids: Seq<[u8; 32]>, share: OpenShare, coinbase_id: Seq<u8>) -> bool {
    &&& ids.len() == 1 + share.job.rest_txs@.len()
    &&& ids[0]@ == coinbase_id
    &&& forall|i: int|
        0 <= i < share.job.rest_txs@.len() ==> (#[trigger] ids[i + 1])@
            == share.job.rest_txs@[i].txid@
}

/// Whether a list of serialised transactions is the share's coinbase and the job's
/// other transactions, in order.
pub open spec fn lists_txs(txs: Seq<Vec<u8>>, share: OpenShare) -> bool {
    &&& txs.len() == 1 + share.job.rest_txs@.len()
    &&& txs[0]@ == share.coinbase@
    &&& forall|i: int|
        0 <= i < share.job.rest_txs@.len() ==> (#[trigger] txs[i + 1])@
            == share.job.rest_txs@[i].bytes@
}

proof fn lemma_lists_ids(ids: Seq<[u8; 32]>, share: OpenShare, coinbase_id: Seq<u8>)
    requires
        hashes(ids) == block_txid_list(share@, coinbase_id),
    ensures
        lists_ids(ids, share, coinbase_id),
{
    let list = block_txid_list(share@, coinbase_id);
    let rest = share.job.rest_txs@;
    assert(hashes(ids).len() == ids.len());
    assert(txids(share@.job.rest_txs).len() == rest.len());
    assert(hashes(ids)[0] == ids[0]@);
    assert forall|i: int| 0 <= i < rest.len() implies (#[trigger] ids[i + 1])@ == rest[i].txid@ by {
        assert(hashes(ids)[i + 1] == ids[i + 1]@);
        assert(list[i + 1] == txids(share@.job.rest_txs)[i]);
    }
}

proof fn lemma_lists_txs(txs: Seq<Vec<u8>>, share: OpenShare)
    requires
        byte_strings(txs) == block_tx_list(share@),
    ensures
        lists_txs(txs, share),
{
    let list = block_tx_list(share@);
    let rest = share.job.rest_txs@;
    assert(byte_strings(txs).len() == txs.len());
    assert(tx_bytes(share@.job.rest_txs).len() == rest.len());
    assert(byte_strings(txs)[0] == txs[0]@);
    assert forall|i: int| 0 <= i < rest.len() implies (#[trigger] txs[i + 1])@ == rest[i].bytes@ by {
        assert(byte_strings(txs)[i + 1] == txs[i + 1]@);
        assert(list[i + 1] == tx_bytes(share@.job.rest_txs)[i]);
    }
}

/// The identifiers that the Merkle root is taken over and the transactions of the
/// block stand in one order, the coinbase first.
pub proof fn law_block_has_the_transactions_of_its_root(
    share: OpenShare,
    coinbase_id: [u8; 32],
    ids: Vec<[u8; 32]>,
    txs: Vec<Vec<u8>>,
)
    requires
        hashes(ids@) == block_txid_list(share@, coinbase_id@),
        byte_strings(txs@) == block_tx_list(share@),
    ensures
        lists_ids(ids@, share, coinbase_id@),
        lists_txs(txs@, share),
        ids@.len() == txs@.len(),
{
    lemma_lists_ids(ids@, share, coinbase_id@);
    lemma_lists_txs(txs@, share);
}

/// Whether an event was taken as [`ShareFlow::advance`] takes it.
pub open spec fn advanced(
    before: ShareFlow,
    event: ShareEvent,
    after: ShareFlow,
    r: ShareAction,
) -> bool {
    &&& after@ == (FlowModel { stage: flow_step(before@, event).0, ..before@ })
    &&& r@ == flow_step(before@, event).1
}

/// Whether an answer is over with an error.
pub open spec fn over_with(after: ShareFlow, r: ShareAction, text: Seq<char>) -> bool {
    after.stage is Over && (r matches ShareAction::Finish(Err(e)) && error_text(e@) == text)
}

/// Whether an answer keeps what it started with.
pub open spec fn flow_kept(before: ShareFlow, after: ShareFlow) -> bool {
    &&& same_fields(after.share.job, before.share.job)
    &&& after.share.coinbase@ == before.share.coinbase@
    &&& after.share.ntime == before.share.ntime
    &&& after.share.nonce == before.share.nonce
    &&& after.quotient == before.quotient
    &&& after.difficulty@ == before.difficulty@
    &&& after.max_block_bytes == before.max_block_bytes
}

/// An answer keeps what it started with, whatever the chain does.
pub proof fn law_flow_keeps_its_share(
    before: ShareFlow,
    event: ShareEvent,
    after: ShareFlow,
    r: ShareAction,
)
    requires
        advanced(before, event, after, r),
    ensures
        flow_kept(before, after),
{
    law_equal_jobs_are_the_same(after.share.job, before.share.job);
}

/// The coinbase comes first: where it is a transaction, the Merkle root is asked for
/// over its identifier and those of the job's other transactions; where it is none,
/// the answer is refused.
pub proof fn law_flow_starts_with_the_coinbase(
    before: ShareFlow,
    event: ShareEvent,
    after: ShareFlow,
    r: ShareAction,
)
    requires
        advanced(before, event, after, r),
        before.stage is Coinbase,
    ensures
        match event {
            ShareEvent::Coinbase(Ok(id)) => after.stage is Root && (r matches ShareAction::FindRoot(
                ids,
            ) && lists_ids(ids@, before.share, id@)),
            ShareEvent::Coinbase(Err(why)) => over_with(
                after,
                r,
                "coinbase deserialise failed: "@ + why@,
            ),
            _ => after.stage is Coinbase && r is Wait,
        },
{
    if let ShareEvent::Coinbase(Ok(id)) = event {
        lemma_lists_ids(r->FindRoot_0@, before.share, id@);
    }
}

/// With the Merkle root the header is asked to be hashed: the job's version, previous
/// hash and bits, the root, and the answer's time and nonce.
pub proof fn law_flow_hashes_the_header(
    before: ShareFlow,
    event: ShareEvent,
    after: ShareFlow,
    r: ShareAction,
)
    requires
        advanced(before, event, after, r),
        before.stage is Root,
    ensures
        match event {
            ShareEvent::Root(root) => {
                &&& after.stage matches Stage::Hash(kept) && heads(kept, before.share, root@)
                &&& r matches ShareAction::HashHeader(header) && heads(header, before.share, root@)
            },
            _ => after.stage is Root && r is Wait,
        },
{
}

/// A hash above the worker's share target is refused, and so is one of a job whose
/// bits stand for no target. Of the others, one above the network's target is a share,
/// and one within it makes a block: the header, and the coinbase with the job's other
/// transactions behind it, in the order in which the root was taken.
pub proof fn law_flow_judges_the_hash(
    before: ShareFlow,
    event: ShareEvent,
    after: ShareFlow,
    r: ShareAction,
    header: Header,
)
    requires
        advanced(before, event, after, r),
        before.stage == Stage::Hash(header),
    ensures
        match event {
            ShareEvent::Hash(hash, network) => {
                let target = pow256(26) * (before.quotient as int % 0x1_0000_0000_0000);
                &&& le_value(hash@) > target ==> over_with(
                    after,
                    r,
                    "share below worker difficulty ("@ + before.difficulty@ + ")"@,
                )
                &&& le_value(hash@) <= target && network is None ==> over_with(
                    after,
                    r,
                    "invalid bits in job"@,
                )
                &&& le_value(hash@) <= target && network == Some(false) ==> after.stage is Over
                    && r == ShareAction::Finish(Ok(ShareOutcome::Share))
                &&& le_value(hash@) <= target && network == Some(true) ==> {
                    &&& after.stage matches Stage::Block(kept, h) && same_header(kept, header) && h@
                        == hash@
                    &&& r matches ShareAction::EncodeBlock(told, txs) && same_header(told, header)
                        && lists_txs(txs@, before.share)
                }
            },
            _ => {
                &&& after.stage matches Stage::Hash(kept) && same_header(kept, header)
                &&& r is Wait
            },
        },
{
    law_share_target_is_scaled_quotient(before.quotient);
    if let ShareEvent::Hash(hash, network) = event {
        if r is EncodeBlock {
            lemma_lists_txs(r->EncodeBlock_1@, before.share);
        }
    }
}

/// A block of more bytes than are allowed is refused; for any other the tip is read.
pub proof fn law_flow_checks_the_size(
    before: ShareFlow,
    event: ShareEvent,
    after: ShareFlow,
    r: ShareAction,
    header: Header,
    hash: [u8; 32],
)
    requires
        advanced(before, event, after, r),
        before.stage == Stage::Block(header, hash),
    ensures
        match event {
            ShareEvent::Block(Ok(len)) => if len > before.max_block_bytes {
                over_with(after, r, "block exceeds MAX_BLOCK_BYTES"@)
            } else {
                &&& after.stage matches Stage::Tip(kept, h) && same_header(kept, header) && h@
                    == hash@
                &&& r is ReadTip
            },
            ShareEvent::Block(Err(why)) => over_with(after, r, why@),
            _ => {
                &&& after.stage matches Stage::Block(kept, h) && same_header(kept, header) && h@
                    == hash@
                &&& r is Wait
            },
        },
{
}

/// A block whose parent is no longer the tip is refused; any other is stored under its
/// hash with its header, on the parent to be looked up unless that is all zeros.
pub proof fn law_flow_checks_the_tip(
    before: ShareFlow,
    event: ShareEvent,
    after: ShareFlow,
    r: ShareAction,
    header: Header,
    hash: [u8; 32],
)
    requires
        advanced(before, event, after, r),
        before.stage == Stage::Tip(header, hash),
    ensures
        match event {
            ShareEvent::Tip(Ok(tip)) => {
                let prev = before.share.job.prev_hash@;
                let first = forall|i: int| 0 <= i < 32 ==> prev[i] == 0;
                let same = match tip {
                    Some(t) => t@ == prev,
                    None => first,
                };
                &&& !same ==> over_with(after, r, "stale block: tip moved"@)
                &&& same ==> {
                    &&& after.stage matches Stage::Stored(h) && h@ == hash@
                    &&& r matches ShareAction::Store(h, told, parent) && h@ == hash@ && same_header(
                        told,
                        header,
                    ) && match parent {
                        Some(p) => !first && p@ == prev,
                        None => first,
                    }
                }
            },
            ShareEvent::Tip(Err(why)) => over_with(after, r, why@),
            _ => {
                &&& after.stage matches Stage::Tip(kept, h) && same_header(kept, header) && h@
                    == hash@
                &&& r is Wait
            },
        },
{
    let prev = before.share.job.prev_hash@;
    if forall|i: int| 0 <= i < 32 ==> prev[i] == 0 {
        assert(prev =~= zeros(32));
    } else {
        let i = choose|i: int| 0 <= i < 32 && prev[i] != 0;
        assert(zeros(32)[i] == 0);
    }
}

/// A stored block is handed to the chain under its hash, and the answer is a block
/// once the chain took it; where either fails, it is refused with the reason.
pub proof fn law_flow_ends_with_the_chain(
    before: ShareFlow,
    event: ShareEvent,
    after: ShareFlow,
    r: ShareAction,
    hash: [u8; 32],
)
    requires
        advanced(before, event, after, r),
    ensures
        before.stage == Stage::Stored(hash) ==> match event {
            ShareEvent::Stored(Ok(_)) => after.stage is Taken && (r matches ShareAction::Take(h)
                && h@ == hash@),
            ShareEvent::Stored(Err(why)) => over_with(after, r, why@),
            _ => (after.stage matches Stage::Stored(h) && h@ == hash@) && r is Wait,
        },
        before.stage is Taken ==> match event {
            ShareEvent::Taken(Ok(_)) => after.stage is Over && r == ShareAction::Finish(
                Ok(ShareOutcome::Block),
            ),
            ShareEvent::Taken(Err(why)) => over_with(after, r, "maybe_reorg_to failed: "@ + why@),
            _ => after.stage is Taken && r is Wait,
        },
        before.stage is Over ==> after.stage is Over && r is Wait,
{
}

/// Whether a line from a worker was handled as [`Worker::on_line`] handles it.
pub open spec fn worker_was_heard(
    before: Worker,
    line: Seq<char>,
    difficulty: Json,
    state: StratumState,
    after: Worker,
    r: WorkerEvent,
) -> bool {
    let (next, event) = worker_line(before@, line, difficulty, state@.current_job);
    after@ == next && r.shows(event)
}

/// Whether an event is a message that asks for lines to be sent, one for each of some
/// messages.
pub open spec fn sends(r: WorkerEvent, method: Seq<char>, msgs: Seq<Json>) -> bool {
    r matches WorkerEvent::Message { method: m, step: WorkerStep::Send(lines), .. } && m@ == method
        && lines@.len() == msgs.len() && forall|i: int|
        0 <= i < msgs.len() ==> (#[trigger] lines@[i])@ == line_of(msgs[i])
}

/// Whether nothing of what is remembered of a worker changed but perhaps its login and
/// its subscription.
pub open spec fn worker_is(after: Worker, before: Worker, authorized: bool, subscribed: bool) -> bool {
    after.extranonce1@ == before.extranonce1@ && after.authorized == authorized && after.subscribed
        == subscribed
}

/// A blank line and one that is no JSON change nothing and are not answered.
pub proof fn law_worker_may_send_nonsense(
    before: Worker,
    line: Seq<char>,
    difficulty: Json,
    state: StratumState,
    after: Worker,
    r: WorkerEvent,
)
    requires
        worker_was_heard(before, line, difficulty, state, after, r),
        is_blank_text(line) || json_parse(line) is None,
    ensures
        worker_is(after, before, before.authorized, before.subscribed),
        is_blank_text(line) ==> r is Blank,
        !is_blank_text(line) ==> r is BadJson,
{
}

/// A subscribing worker is told its own extranonce 1 with four bytes for extranonce 2,
/// and its difficulty.
pub proof fn law_worker_subscribes(
    before: Worker,
    line: Seq<char>,
    msg: Json,
    id: Json,
    difficulty: Json,
    state: StratumState,
    after: Worker,
    r: WorkerEvent,
) -> (msgs: Seq<Json>)
    requires
        worker_was_heard(before, line, difficulty, state, after, r),
        reads_as(line, msg),
        under_id(msg, id),
        says(msg, "mining.subscribe"@),
    ensures
        worker_is(after, before, before.authorized, true),
        sends(r, "mining.subscribe"@, msgs),
        msgs.len() == 2,
        subscribes(
            msgs[0],
            id,
            "sub_diff"@,
            "sub_notify"@,
            hex_chars(before.extranonce1@),
            4,
        ),
        tells_difficulty(msgs[1], difficulty),
{
    law_message_is_read_as_it_is(msg, "mining.subscribe"@, id, Seq::empty(), Seq::empty());
    lemma_all_methods_differ();
    law_subscription_has_its_parts(
        id,
        "sub_diff"@,
        "sub_notify"@,
        hex_chars(before.extranonce1@),
        4,
    );
    law_difficulty_is_told(difficulty);
    worker_step(before@, msg, difficulty, state@.current_job).1->Send_0
}

/// A worker that logs in is granted that, whatever it sends along, and is told its
/// difficulty and the current job, which it is to start on at once.
pub proof fn law_worker_logs_in(
    before: Worker,
    line: Seq<char>,
    msg: Json,
    id: Json,
    difficulty: Json,
    state: StratumState,
    after: Worker,
    r: WorkerEvent,
) -> (msgs: Seq<Json>)
    requires
        worker_was_heard(before, line, difficulty, state, after, r),
        reads_as(line, msg),
        under_id(msg, id),
        says(msg, "mining.authorize"@),
    ensures
        worker_is(after, before, true, before.subscribed),
        sends(r, "mining.authorize"@, msgs),
        msgs.len() == if state.current_job is Some {
            3nat
        } else {
            2nat
        },
        grants(msgs[0], id),
        tells_difficulty(msgs[1], difficulty),
        state.current_job matches Some(job) ==> notifies(msgs[2], job, true),
{
    law_message_is_read_as_it_is(msg, "mining.authorize"@, id, Seq::empty(), Seq::empty());
    lemma_all_methods_differ();
    law_reply_has_its_members(id, Json::Bool(true), Json::Null);
    law_difficulty_is_told(difficulty);
    if let Some(job) = state.current_job {
        lemma_notice(job, true);
    }
    worker_step(before@, msg, difficulty, state@.current_job).1->Send_0
}

/// An answer with five parameters or more goes to be judged as it came, under its
/// identifier; one with fewer is refused. It is noted under the job that it names, a
/// question mark where that is no text.
pub proof fn law_worker_answers(
    before: Worker,
    line: Seq<char>,
    msg: Json,
    id: Json,
    p: Seq<Json>,
    difficulty: Json,
    state: StratumState,
    after: Worker,
    r: WorkerEvent,
) -> (msgs: Seq<Json>)
    requires
        worker_was_heard(before, line, difficulty, state, after, r),
        reads_as(line, msg),
        under_id(msg, id),
        with_params(msg, p),
        says(msg, "mining.submit"@),
    ensures
        worker_is(after, before, before.authorized, before.subscribed),
        p.len() < 5 ==> {
            &&& sends(r, "mining.submit"@, msgs)
            &&& msgs.len() == 1
            &&& refuses(msgs[0], id, Json::Null, 20, "malformed submit"@)
        },
        p.len() >= 5 ==> (r matches WorkerEvent::Message {
            method,
            step: WorkerStep::Judge(s),
            ..
        } && {
            &&& method@ == "mining.submit"@
            &&& json_view(s.id) == id
            &&& s.job_id@ == text_at(p, 1)
            &&& s.en2_hex@ == text_at(p, 2)
            &&& s.ntime_hex@ == text_at(p, 3)
            &&& s.nonce_hex@ == text_at(p, 4)
        }),
        r matches WorkerEvent::Message { job: Some(label), .. } && label@ == if p.len() > 1
            && p[1] is Str {
            text_at(p, 1)
        } else {
            "?"@
        },
{
    law_message_is_read_as_it_is(msg, "mining.submit"@, id, p, Seq::empty());
    lemma_all_methods_differ();
    law_refusal_has_its_parts(id, Json::Null, 20, "malformed submit"@);
    worker_step(before@, msg, difficulty, state@.current_job).1->Send_0
}

/// A request for transactions is answered with none, one to be told of extranonces is
/// granted, and any other method is not known and refused; nothing changes.
pub proof fn law_worker_asks_for_something_else(
    before: Worker,
    line: Seq<char>,
    msg: Json,
    id: Json,
    difficulty: Json,
    state: StratumState,
    after: Worker,
    r: WorkerEvent,
) -> (sent: Json)
    requires
        worker_was_heard(before, line, difficulty, state, after, r),
        reads_as(line, msg),
        under_id(msg, id),
        !says(msg, "mining.subscribe"@),
        !says(msg, "mining.authorize"@),
        !says(msg, "mining.submit"@),
    ensures
        worker_is(after, before, before.authorized, before.subscribed),
        r matches WorkerEvent::Message { job: None, .. },
        says(msg, "mining.get_transactions"@) ==> sends(
            r,
            "mining.get_transactions"@,
            seq![sent],
        ) && replies(sent, id, Json::Arr(Seq::empty()), Json::Null),
        says(msg, "mining.extranonce.subscribe"@) ==> sends(
            r,
            "mining.extranonce.subscribe"@,
            seq![sent],
        ) && grants(sent, id),
        !says(msg, "mining.get_transactions"@) && !says(msg, "mining.extranonce.subscribe"@) ==> {
            &&& r matches WorkerEvent::Message { method, step: WorkerStep::Unknown(lines), .. }
                && method@ == method_of(msg) && lines@.len() == 1 && lines@[0]@ == line_of(sent)
            &&& refuses(sent, id, Json::Null, 20, "unknown method"@)
        },
{
    lemma_all_methods_differ();
    law_message_is_read_as_it_is(msg, "mining.subscribe"@, id, Seq::empty(), Seq::empty());
    law_message_is_read_as_it_is(msg, "mining.authorize"@, id, Seq::empty(), Seq::empty());
    law_message_is_read_as_it_is(msg, "mining.submit"@, id, Seq::empty(), Seq::empty());
    law_message_is_read_as_it_is(msg, "mining.get_transactions"@, id, Seq::empty(), Seq::empty());
    law_message_is_read_as_it_is(
        msg,
        "mining.extranonce.subscribe"@,
        id,
        Seq::empty(),
        Seq::empty(),
    );
    law_refusal_has_its_parts(id, Json::Null, 20, "unknown method"@);
    law_reply_has_its_members(id, Json::Bool(true), Json::Null);
    law_reply_has_its_members(id, Json::Arr(Seq::empty()), Json::Null);
    match worker_step(before@, msg, difficulty, state@.current_job).1 {
        StepModel::Send(msgs) => msgs[0],
        StepModel::Unknown(msgs) => msgs[0],
        _ => Json::Null,
    }
}

/// The reply to an answer grants it exactly where the verdict is a share or a block;
/// for every error the result is null and the error is code 20 with the error's text.
pub proof fn law_verdict_is_told(
    id: Json,
    verdict: Result<ShareOutcome, ShareError>,
    line: String,
) -> (msg: Json)
    requires
        sent(line@, verdict_reply(id, verdict_view(verdict))),
    ensures
        line@ == line_of(msg),
        verdict is Ok ==> grants(msg, id),
        verdict matches Err(e) ==> refuses(msg, id, Json::Null, 20, error_text(e@)),
        json_field(msg, "result"@) == Some(Json::Bool(true)) <==> verdict is Ok,
        json_field(msg, "error"@) == Some(Json::Null) <==> verdict is Ok,
{
    law_reply_has_its_members(id, Json::Bool(true), Json::Null);
    if let Err(e) = verdict {
        law_refusal_has_its_parts(id, Json::Null, 20, error_text(e@));
    }
    verdict_reply(id, verdict_view(verdict))
}

/// A new difficulty is told first, and then the current job, where there is one,
/// without earlier ones being dropped.
pub proof fn law_new_difficulty_is_told(
    difficulty: Json,
    state: StratumState,
    lines: Vec<String>,
) -> (msgs: Seq<Json>)
    requires
        all_sent(lines@, retarget_messages(difficulty, state@.current_job)),
    ensures
        lines@.len() == msgs.len(),
        forall|i: int| 0 <= i < msgs.len() ==> (#[trigger] lines@[i])@ == line_of(msgs[i]),
        msgs.len() == if state.current_job is Some {
            2nat
        } else {
            1nat
        },
        tells_difficulty(msgs[0], difficulty),
        state.current_job matches Some(job) ==> notifies(msgs[1], job, false),
{
    law_difficulty_is_told(difficulty);
    if let Some(job) = state.current_job {
        lemma_notice(job, false);
    }
    retarget_messages(difficulty, state@.current_job)
}

/// A subscribed worker is told of a new job, and of the current one after it missed
/// some, to start on it at once; any other is told nothing. Where no more jobs come,
/// the connection is closed.
pub proof fn law_worker_hears_of_jobs(
    w: Worker,
    event: JobEvent,
    state: StratumState,
    r: JobStep,
)
    requires
        r.shows(job_step(w@, event, state@.current_job)),
    ensures
        match event {
            JobEvent::Closed => r is Close,
            JobEvent::New(job) => if w.subscribed {
                r matches JobStep::Send(line) && (json_parse(line@.drop_last()) matches Some(msg)
                    && notifies(msg, job, true))
            } else {
                r is Nothing
            },
            JobEvent::Lagged => match state.current_job {
                Some(job) => if w.subscribed {
                    r matches JobStep::Send(line) && (json_parse(line@.drop_last()) matches Some(
                        msg,
                    ) && notifies(msg, job, true))
                } else {
                    r is Nothing
                },
                None => r is Nothing,
            },
        },
{
    if let JobEvent::New(job) = event {
        lemma_notice(job, true);
    }
    if let Some(job) = state.current_job {
        lemma_notice(job, true);
    }
}

}
