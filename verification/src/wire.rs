//! What the proxy and the mining server make of each other's messages.

use vstd::prelude::*;

use crate::bytes::{be_value, le_bytes, lemma_le_bytes_len, word_swapped, zeros};
use crate::digest::double_sha256;
use crate::hextext::{
    hex_chars, hex_number, hex_read, hex_splits, law_hex_of_four_bytes_is_big_endian,
    law_hex_reads_back, law_number_reads_back,
};
use crate::json::{
    call, carries, difficulty_notice, id_of, lemma_keys_differ, list_of, method_of, params_of,
    text_items, Json,
};
use crate::merkle::merkle_root;
use crate::proxy::asic::{block_submission, granted};
use crate::proxy::job::{
    branch_texts, coinbase_bytes, job_merkle, notify_message as proxy_notice, JobModel as ProxyJob,
};
use crate::proxy::upstream::{
    branch_hashes, clean_flag, item_bytes, item_splits, items_in, job_of_params, notice_splits,
    opening_calls, upstream_line, ActionModel, UpstreamModel,
};
use crate::stratum::job::{notify_message, notify_params, txids, JobModel};
use crate::stratum::share::{opened, ErrorModel, OpenModel, ShareOutcome};
use crate::stratum::state::find_in;
use crate::stratum::template::{
    built_job, law_job_branch_serves_every_coinbase, Template, EXTRANONCE2_BYTES,
};
use crate::stratum::worker::{
    current_notice, verdict_reply, welcome, worker_line, EventModel, StepModel, WorkerModel,
};

verus! {

proof fn lemma_text_item(data: Seq<u8>)
    ensures
        item_splits(Json::Str(hex_chars(data))),
        item_bytes(Json::Str(hex_chars(data))) == data,
{
    law_hex_reads_back(data);
}

proof fn lemma_branch_reads_back(branch: Seq<Seq<u8>>)
    requires
        forall|i: int| 0 <= i < branch.len() ==> (#[trigger] branch[i]).len() == 32,
    ensures
        branch_hashes(text_items(branch_texts(branch))) == branch,
        forall|i: int|
            0 <= i < branch.len() ==> item_splits(#[trigger] text_items(branch_texts(branch))[i]),
    decreases branch.len(),
{
    let items = text_items(branch_texts(branch));
    assert forall|i: int| 0 <= i < branch.len() implies item_splits(#[trigger] items[i]) by {
        lemma_text_item(branch[i]);
    }
    if branch.len() > 0 {
        let init = branch.drop_last();
        assert forall|i: int| 0 <= i < init.len() implies (#[trigger] init[i]).len() == 32 by {
            assert(init[i] == branch[i]);
        }
        lemma_branch_reads_back(init);
        assert(items.drop_last() =~= text_items(branch_texts(init)));
        lemma_text_item(branch.last());
        assert(branch[branch.len() - 1].len() == 32);
        assert(init.push(branch.last()) =~= branch);
    } else {
        assert(branch_hashes(items) =~= branch);
    }
}

/// The proxy reads out of a server's notice of a job what the server put into it:
/// identifier, coinbase, branch, version, bits, time and the clean flag as they
/// are, and the previous hash with its words reversed.
pub proof fn law_proxy_reads_server_notice(job: JobModel, clean: bool, en2_size: usize, seq: nat)
    requires
        job.prev_hash.len() == 32,
        forall|i: int| 0 <= i < job.merkle_branch.len() ==> (#[trigger] job.merkle_branch[i]).len()
            == 32,
    ensures
        ({
            let p = notify_params(job, clean);
            let taken = job_of_params(p, en2_size, seq);
            &&& p.len() == 9
            &&& notice_splits(p)
            &&& clean_flag(p) == clean
            &&& taken.csd_job_id == job.job_id
            &&& taken.prev == word_swapped(job.prev_hash)
            &&& taken.coinbase1 == job.coinbase1
            &&& taken.coinbase2 == job.coinbase2
            &&& taken.merkle_branch == job.merkle_branch
            &&& taken.version == job.version
            &&& taken.bits == job.bits
            &&& taken.time64 == job.time
            &&& taken.ntime_hex == hex_number(job.time as nat, 8)
        }),
{
    let p = notify_params(job, clean);
    lemma_text_item(word_swapped(job.prev_hash));
    lemma_text_item(job.coinbase1);
    lemma_text_item(job.coinbase2);
    lemma_branch_reads_back(job.merkle_branch);
    assert(items_in(p[4]) == text_items(branch_texts(job.merkle_branch)));
    law_number_reads_back(job.version, 8);
    law_number_reads_back(job.bits, 8);
    law_number_reads_back(job.time, 8);
}

/// The Merkle root that the proxy works out for a job of the server's is the root
/// over the coinbase, hashed with the miner's extranonces in it, and the job's
/// other transactions.
pub proof fn law_proxy_root_is_block_root(
    t: Template,
    split: int,
    number: u64,
    clean: bool,
    en2_size: usize,
    seq: nat,
    en1: Seq<u8>,
    en2: Seq<u8>,
)
    requires
        forall|i: int|
            0 <= i < built_job(t, split, number).merkle_branch.len() ==> (
            #[trigger] built_job(t, split, number).merkle_branch[i]).len() == 32,
    ensures
        ({
            let job = built_job(t, split, number);
            let taken = job_of_params(notify_params(job, clean), en2_size, seq);
            let coinbase = double_sha256(coinbase_bytes(job.coinbase1, en1, en2, job.coinbase2));
            job_merkle(taken, en1, en2) == merkle_root(seq![coinbase] + txids(job.rest_txs))
        }),
{
    let job = built_job(t, split, number);
    law_proxy_reads_server_notice(job, clean, en2_size, seq);
    law_job_branch_serves_every_coinbase(
        t,
        split,
        number,
        double_sha256(coinbase_bytes(job.coinbase1, en1, en2, job.coinbase2)),
    );
}

/// The server reads a block that the proxy submits for one of its latest jobs as
/// a well-formed answer: with an extranonce 2 of zeros, the job's own time, and
/// the bytes of the nonce the other way round.
pub proof fn law_server_reads_proxy_block(
    recent: Seq<JobModel>,
    extranonce1: Seq<u8>,
    job: JobModel,
    clean: bool,
    seq: nat,
    nonce: u32,
)
    requires
        job.prev_hash.len() == 32,
        forall|i: int| 0 <= i < job.merkle_branch.len() ==> (#[trigger] job.merkle_branch[i]).len()
            == 32,
        find_in(recent, job.job_id) == Some(job),
    ensures
        ({
            let taken = job_of_params(notify_params(job, clean), EXTRANONCE2_BYTES, seq);
            opened(
                recent,
                extranonce1,
                taken.csd_job_id,
                taken.en2_hex,
                taken.ntime_hex,
                hex_chars(le_bytes(nonce as nat, 4)),
            ) == Ok::<OpenModel, ErrorModel>(
                OpenModel {
                    job,
                    coinbase: coinbase_bytes(job.coinbase1, extranonce1, zeros(4), job.coinbase2),
                    ntime: job.time,
                    nonce: be_value(le_bytes(nonce as nat, 4)) as u32,
                },
            )
        }),
{
    law_proxy_reads_server_notice(job, clean, EXTRANONCE2_BYTES, seq);
    law_hex_reads_back(zeros(4));
    law_number_reads_back(job.time, 8);
    lemma_le_bytes_len(nonce as nat, 4);
    law_hex_of_four_bytes_is_big_endian(le_bytes(nonce as nat, 4));
}

proof fn lemma_call_reads(id: Json, method: Seq<char>, params: Seq<Json>)
    ensures
        method_of(call(id, method, params)) == method,
        id_of(call(id, method, params)) == id,
        list_of(call(id, method, params), "params"@) == Some(params),
        params_of(call(id, method, params)) == params,
{
    lemma_keys_differ();
}

proof fn lemma_methods_differ()
    ensures
        "mining.subscribe"@ != "mining.authorize"@,
        "mining.submit"@ != "mining.subscribe"@,
        "mining.submit"@ != "mining.authorize"@,
        "mining.notify"@ != "mining.set_difficulty"@,
        "mining.notify"@.len() > 0,
{
    reveal_strlit("mining.subscribe");
    reveal_strlit("mining.authorize");
    reveal_strlit("mining.submit");
    reveal_strlit("mining.notify");
    reveal_strlit("mining.set_difficulty");
    assert("mining.subscribe"@.len() == 16 && "mining.authorize"@.len() == 16);
    assert("mining.subscribe"@[7] == 's' && "mining.authorize"@[7] == 'a');
    assert("mining.submit"@.len() == 13 && "mining.notify"@.len() == 13);
    assert("mining.set_difficulty"@.len() == 21);
}

/// The two lines with which the proxy opens its connection leave the server with
/// a worker that has subscribed and logged in; the server answers the first with
/// the worker's extranonce 1, and both under their identifiers.
pub proof fn law_server_takes_opening(
    w: WorkerModel,
    first: Seq<char>,
    second: Seq<char>,
    difficulty: Json,
    current: Option<JobModel>,
)
    requires
        carries(first, opening_calls()[0]),
        carries(second, opening_calls()[1]),
    ensures
        ({
            let (w1, s1) = worker_line(w, first.drop_last(), difficulty, current);
            let (w2, s2) = worker_line(w1, second.drop_last(), difficulty, current);
            let told = difficulty_notice(difficulty);
            &&& w2 == (WorkerModel { authorized: true, subscribed: true, ..w })
            &&& s1 == (EventModel::Message {
                method: "mining.subscribe"@,
                job: None,
                step: StepModel::Send(seq![welcome(Json::Uint(1), w.extranonce1), told]),
            })
            &&& s2 == (EventModel::Message {
                method: "mining.authorize"@,
                job: None,
                step: StepModel::Send(
                    seq![granted(Json::Uint(2)), told] + current_notice(current, true),
                ),
            })
        }),
{
    lemma_call_reads(
        Json::Uint(1),
        "mining.subscribe"@,
        seq![Json::Str("csd-asic-proxy/1.0"@)],
    );
    lemma_call_reads(
        Json::Uint(2),
        "mining.authorize"@,
        seq![Json::Str("asic-proxy"@), Json::Str("x"@)],
    );
    lemma_methods_differ();
}

/// The proxy learns from the server's welcome the extranonce 1 that the server
/// assigned and the size of extranonce 2 that it expects, and nothing else.
pub proof fn law_proxy_takes_welcome(
    s: UpstreamModel,
    line: Seq<char>,
    id: Json,
    extranonce1: Seq<u8>,
)
    requires
        carries(line, welcome(id, extranonce1)),
    ensures
        ({
            let (next, action) = upstream_line(s, line.drop_last());
            &&& next == (UpstreamModel {
                en1_hex: hex_chars(extranonce1),
                en2_size: EXTRANONCE2_BYTES,
                ..s
            })
            &&& hex_splits(next.en1_hex)
            &&& hex_read(next.en1_hex) == extranonce1
            &&& action == Some(ActionModel::Subscribed)
        }),
{
    lemma_keys_differ();
    law_hex_reads_back(extranonce1);
    lemma_methods_differ();
    assert(method_of(welcome(id, extranonce1)).len() == 0);
}

/// The server's verdicts on blocks change nothing in the proxy.
pub proof fn law_proxy_ignores_verdicts(
    s: UpstreamModel,
    line: Seq<char>,
    id: Json,
    verdict: Result<ShareOutcome, ErrorModel>,
)
    requires
        carries(line, verdict_reply(id, verdict)),
    ensures
        upstream_line(s, line.drop_last()) == (s, Some(ActionModel::Ignore)),
{
    lemma_keys_differ();
    lemma_methods_differ();
    assert(method_of(verdict_reply(id, verdict)).len() == 0);
}

/// A line that carries a server's notice of a job makes the proxy publish, under
/// its next number, the job that it reads out of the notice.
pub proof fn law_proxy_publishes_server_job(
    s: UpstreamModel,
    line: Seq<char>,
    job: JobModel,
    clean: bool,
)
    requires
        carries(line, notify_message(job, clean)),
        job.prev_hash.len() == 32,
        forall|i: int| 0 <= i < job.merkle_branch.len() ==> (#[trigger] job.merkle_branch[i]).len()
            == 32,
        hex_splits(s.en1_hex),
        s.seq < u64::MAX,
        2 * s.en2_size <= isize::MAX,
    ensures
        ({
            let (next, action) = upstream_line(s, line.drop_last());
            let taken = job_of_params(notify_params(job, clean), s.en2_size, s.seq as nat + 1);
            &&& next == (UpstreamModel { seq: (s.seq + 1) as u64, ..s })
            &&& action matches Some(ActionModel::Publish { job, notice, .. }) && job == taken
                && notice == proxy_notice(taken, clean)
        }),
{
    law_proxy_reads_server_notice(job, clean, s.en2_size, s.seq as nat + 1);
    lemma_call_reads(Json::Null, "mining.notify"@, notify_params(job, clean));
    lemma_methods_differ();
}

/// A line that carries the proxy's submission of a block goes to be judged by the
/// server as an answer with what the proxy put into it.
pub proof fn law_server_judges_proxy_block(
    w: WorkerModel,
    line: Seq<char>,
    taken: ProxyJob,
    nonce: u32,
    msg_id: u64,
    difficulty: Json,
    current: Option<JobModel>,
)
    requires
        carries(line, block_submission(taken, nonce, msg_id)),
    ensures
        worker_line(w, line.drop_last(), difficulty, current) == (
            w,
            EventModel::Message {
                method: "mining.submit"@,
                job: Some(taken.csd_job_id),
                step: StepModel::Judge {
                    id: Json::Uint(msg_id),
                    job_id: taken.csd_job_id,
                    en2_hex: taken.en2_hex,
                    ntime_hex: taken.ntime_hex,
                    nonce_hex: hex_chars(le_bytes(nonce as nat, 4)),
                },
            },
        ),
{
    let params = seq![
        Json::Str("asic-proxy"@),
        Json::Str(taken.csd_job_id),
        Json::Str(taken.en2_hex),
        Json::Str(taken.ntime_hex),
        Json::Str(hex_chars(le_bytes(nonce as nat, 4))),
    ];
    lemma_call_reads(Json::Uint(msg_id), "mining.submit"@, params);
    lemma_methods_differ();
}

}
