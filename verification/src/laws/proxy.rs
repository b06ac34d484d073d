//! What the proxy does, told by what goes in and what comes out.

use vstd::prelude::*;

use serde_json::Value;

use crate::bytes::{be_value, le_bytes, le_value, lemma_le_bytes_len, word_swapped, zeros};
use crate::digest::double_sha256;
use crate::hextext::{
    hex_chars, hex_number, hex_read, hex_splits, hex_u32, law_hex_reads_back, law_number_reads_back,
};
use crate::json::{
    carries, json_field, json_items, json_parse, json_view, line_of, method_of, reads_as, Json,
};
use crate::laws::chain::{bits_number, law_target_is_number_of_bits};
use crate::laws::encoding::law_byte_is_two_digits;
use crate::laws::messages::{
    calls, grants, law_call_has_its_members, law_difficulty_is_told, law_message_is_read_as_it_is,
    law_refusal_has_its_parts, law_reply_has_its_members, law_subscription_has_its_parts,
    lemma_all_methods_differ, refuses, says, subscribes, tells_difficulty, under_id, with_params,
};
use crate::merkle::{fold_branch, hashes};
use crate::proxy::asic::{
    answer_header, asic_line, asic_step, block_found, granted, miner_extranonce1, nonce_of,
    param_text, subscribe_replies, text_view, AsicEvent, AsicSession, AsicStep, FoundBlock,
};
use crate::proxy::book::{announced, lookup, JobBook};
use crate::proxy::job::{csd_header, header_time, job_merkle, notify_message, notify_params, Job};
use crate::proxy::upstream::{
    branch_hashes, clean_flag, item_splits, items_in, job_of_params, notice_splits, opening_calls,
    upstream_line, Upstream, UpstreamAction,
};
use crate::text::is_blank_text;

verus! {

/// The hashes of a job's branch, in order.
pub open spec fn branch_of(job: Job) -> Seq<Seq<u8>> {
    Seq::new(job.merkle_branch@.len(), |i: int| job.merkle_branch@[i]@)
}

/// Whether two jobs are the same in every field.
pub open spec fn same_fields(a: Job, b: Job) -> bool {
    &&& a.proxy_job_id@ == b.proxy_job_id@
    &&& a.csd_job_id@ == b.csd_job_id@
    &&& a.target@ == b.target@
    &&& a.en2_hex@ == b.en2_hex@
    &&& a.ntime_hex@ == b.ntime_hex@
    &&& a.coinbase1@ == b.coinbase1@
    &&& a.coinbase2@ == b.coinbase2@
    &&& branch_of(a) == branch_of(b)
    &&& a.version == b.version
    &&& a.bits == b.bits
    &&& a.prev@ == b.prev@
    &&& a.time64 == b.time64
}

/// Jobs that are seen as equal are the same in every field; so a copy of a job is.
pub proof fn law_equal_jobs_are_the_same(a: Job, b: Job)
    requires
        a@ == b@,
    ensures
        same_fields(a, b),
{
    assert(branch_of(a) =~= hashes(a.merkle_branch@));
    assert(branch_of(b) =~= hashes(b.merkle_branch@));
}

/// Whether a message is the notice of a job: its identifier, its previous hash with
/// the words reversed, the two parts of its coinbase, its branch, version, bits and
/// time as hexadecimal text, and the clean flag.
pub open spec fn notifies(msg: Json, job: Job, clean: bool) -> bool {
    json_field(msg, "params"@) matches Some(Json::Arr(p)) && {
        &&& calls(msg, Json::Null, "mining.notify"@, p)
        &&& p.len() == 9
        &&& p[0] == Json::Str(job.proxy_job_id@)
        &&& p[1] == Json::Str(hex_chars(word_swapped(job.prev@)))
        &&& p[2] == Json::Str(hex_chars(job.coinbase1@))
        &&& p[3] == Json::Str(hex_chars(job.coinbase2@))
        &&& p[4] matches Json::Arr(branch) && branch.len() == job.merkle_branch@.len() && forall|
            i: int,
        |
            0 <= i < branch.len() ==> #[trigger] branch[i] == Json::Str(
                hex_chars(job.merkle_branch@[i]@),
            )
        &&& p[5] == Json::Str(hex_number(job.version as nat, 8))
        &&& p[6] == Json::Str(hex_number(job.bits as nat, 8))
        &&& p[7] == Json::Str(job.ntime_hex@)
        &&& p[8] == Json::Bool(clean)
    }
}

/// The notice of a job tells every field that miners need, for either value of the
/// clean flag.
pub proof fn law_notice_tells_the_job(job: Job, clean: bool, msg: Value)
    requires
        json_view(msg) == notify_message(job@, clean),
    ensures
        notifies(json_view(msg), job, clean),
{
    law_call_has_its_members(Json::Null, "mining.notify"@, notify_params(job@, clean));
}

/// The two notices of one job differ in the ninth parameter alone.
pub proof fn law_clean_flag_changes_nothing_else(job: Job, a: Value, b: Value, i: int)
    requires
        json_view(a) == notify_message(job@, true),
        json_view(b) == notify_message(job@, false),
        0 <= i < 8,
    ensures
        json_field(json_view(a), "params"@) matches Some(Json::Arr(p)) && (json_field(
            json_view(b),
            "params"@,
        ) matches Some(Json::Arr(q)) && p.len() == 9 && q.len() == 9 && p[i] == q[i] && p[8]
            == Json::Bool(true) && q[8] == Json::Bool(false)),
{
    law_call_has_its_members(Json::Null, "mining.notify"@, notify_params(job@, true));
    law_call_has_its_members(Json::Null, "mining.notify"@, notify_params(job@, false));
}

/// The bytes that a parameter is read as.
pub open spec fn read_param_bytes(param: Json) -> Seq<u8> {
    match param {
        Json::Str(text) => hex_read(text),
        _ => Seq::empty(),
    }
}

/// What a miner reads out of the notice of a job, coinbase and branch, gives with its
/// two extranonces the Merkle root that the proxy works out for its answer; and the
/// previous hash, version and bits are read back as the job has them.
pub proof fn law_miner_and_proxy_agree(
    job: Job,
    clean: bool,
    msg: Value,
    en1: Seq<u8>,
    en2: Seq<u8>,
)
    requires
        json_view(msg) == notify_message(job@, clean),
    ensures
        json_field(json_view(msg), "params"@) matches Some(Json::Arr(p)) && (p[4] matches Json::Arr(
            branch,
        ) && {
            let coinbase = read_param_bytes(p[2]) + en1 + en2 + read_param_bytes(p[3]);
            let read = Seq::new(branch.len(), |i: int| read_param_bytes(branch[i]));
            &&& fold_branch(double_sha256(coinbase), read) == job_merkle(job@, en1, en2)
            &&& read == branch_of(job)
            &&& read_param_bytes(p[1]) == word_swapped(job.prev@)
            &&& p[5] matches Json::Str(version) && hex_u32(version) == Some(job.version)
            &&& p[6] matches Json::Str(bits) && hex_u32(bits) == Some(job.bits)
        }),
{
    law_notice_tells_the_job(job, clean, msg);
    law_hex_reads_back(job.coinbase1@);
    law_hex_reads_back(job.coinbase2@);
    law_hex_reads_back(word_swapped(job.prev@));
    law_number_reads_back(job.version, 8);
    law_number_reads_back(job.bits, 8);
    let p = json_field(json_view(msg), "params"@)->Some_0->Arr_0;
    let branch = p[4]->Arr_0;
    let read = Seq::new(branch.len(), |i: int| read_param_bytes(branch[i]));
    assert forall|i: int| 0 <= i < branch.len() implies read[i] == branch_of(job)[i] by {
        law_hex_reads_back(job.merkle_branch@[i]@);
    }
    assert(read =~= branch_of(job));
    assert(hashes(job.merkle_branch@) =~= branch_of(job));
}

/// The Merkle root of a job with two extranonces: the coinbase around them is hashed
/// twice and the branch is folded onto it.
pub proof fn law_root_is_folded_coinbase(job: Job, en1: Seq<u8>, en2: Seq<u8>, root: [u8; 32])
    requires
        root@ == job_merkle(job@, en1, en2),
    ensures
        root@ == fold_branch(
            double_sha256(job.coinbase1@ + en1 + en2 + job.coinbase2@),
            branch_of(job),
        ),
{
    assert(hashes(job.merkle_branch@) =~= branch_of(job));
}

/// The 84 bytes of a header: version, previous hash, Merkle root, the miner's time,
/// the upper half of the job's time, bits and nonce, numbers lowest byte first.
pub proof fn law_header_has_its_fields(
    job: Job,
    merkle: [u8; 32],
    ntime32: u32,
    nonce: u32,
    header: [u8; 84],
)
    requires
        header@ == csd_header(job@, merkle@, ntime32, nonce),
    ensures
        le_value(header@.subrange(0, 4)) == job.version,
        header@.subrange(4, 36) == job.prev@,
        header@.subrange(36, 68) == merkle@,
        le_value(header@.subrange(68, 72)) == ntime32,
        le_value(header@.subrange(72, 76)) == job.time64 as int / 0x1_0000_0000,
        le_value(header@.subrange(76, 80)) == job.bits,
        le_value(header@.subrange(80, 84)) == nonce,
{
    let h = header@;
    let time = header_time(job.time64, ntime32);
    lemma_le_bytes_len(job.version as nat, 4);
    lemma_le_bytes_len(time, 8);
    lemma_le_bytes_len(job.bits as nat, 4);
    lemma_le_bytes_len(nonce as nat, 4);
    assert(h.subrange(0, 4) =~= le_bytes(job.version as nat, 4));
    assert(h.subrange(4, 36) =~= job.prev@);
    assert(h.subrange(36, 68) =~= merkle@);
    let t = le_bytes(time, 8);
    assert(h.subrange(68, 76) =~= t);
    assert(h.subrange(76, 80) =~= le_bytes(job.bits as nat, 4));
    assert(h.subrange(80, 84) =~= le_bytes(nonce as nat, 4));
    lemma_four_bytes(job.version);
    lemma_four_bytes(job.bits);
    lemma_four_bytes(nonce);
    lemma_four_bytes(ntime32);
    let upper = (job.time64 / 0x1_0000_0000) as u32;
    lemma_four_bytes(upper);
    lemma_eight_bytes(upper, ntime32);
    assert(h.subrange(68, 72) =~= t.subrange(0, 4));
    assert(h.subrange(72, 76) =~= t.subrange(4, 8));
}

proof fn lemma_four_bytes(n: u32)
    ensures
        le_value(le_bytes(n as nat, 4)) == n,
{
    reveal_with_fuel(crate::bytes::bytes_span, 5);
    crate::bytes::law_le_bytes_read_back(n as nat, 4);
}

proof fn lemma_eight_bytes(upper: u32, lower: u32)
    ensures
        ({
            let t = le_bytes(upper as nat * 0x1_0000_0000 + lower as nat, 8);
            &&& t.subrange(0, 4) == le_bytes(lower as nat, 4)
            &&& t.subrange(4, 8) == le_bytes(upper as nat, 4)
        }),
{
    let n = upper as nat * 0x1_0000_0000 + lower as nat;
    reveal_with_fuel(le_bytes, 9);
    let t = le_bytes(n, 8);
    lemma_le_bytes_len(n, 8);
    lemma_le_bytes_len(lower as nat, 4);
    lemma_le_bytes_len(upper as nat, 4);
    assert(n / 256 / 256 / 256 / 256 == upper as nat);
    assert(t =~= seq![
        (n % 256) as u8,
        (n / 256 % 256) as u8,
        (n / 256 / 256 % 256) as u8,
        (n / 256 / 256 / 256 % 256) as u8,
    ] + le_bytes(upper as nat, 4));
    assert(t.subrange(4, 8) =~= le_bytes(upper as nat, 4));
    assert(t.subrange(0, 4) =~= le_bytes(lower as nat, 4));
}

/// The number that a parameter is read as, in base 16: a number of its own where it
/// is no text, and a default where the text is no number.
pub open spec fn read_param_u32(param: Json, absent: u32, default: u32) -> u32 {
    match param {
        Json::Str(text) => match hex_u32(text) {
            Some(n) => n,
            None => default,
        },
        _ => absent,
    }
}

/// The job that is taken from a notice has what the parameters say: every field is
/// told by its own parameter, and the target is the number of the job's own bits.
pub proof fn law_taken_job_has_the_parameters(
    p: Seq<Json>,
    en2_size: usize,
    seq: u64,
    job: Job,
    i: int,
)
    requires
        p.len() >= 9,
        job@ == job_of_params(p, en2_size, seq as nat),
    ensures
        job.proxy_job_id@ == hex_number(seq as nat, 8),
        match p[0] {
            Json::Str(id) => job.csd_job_id@ == id,
            _ => job.csd_job_id@.len() == 0,
        },
        ({
            let prev = read_param_bytes(p[1]);
            if prev.len() == 32 {
                job.prev@ == prev
            } else {
                0 <= i < 32 ==> job.prev@[i] == 0
            }
        }),
        job.coinbase1@ == read_param_bytes(p[2]),
        job.coinbase2@ == read_param_bytes(p[3]),
        match p[4] {
            Json::Arr(items) => branch_of(job) == branch_hashes(items),
            _ => job.merkle_branch@.len() == 0,
        },
        job.version == read_param_u32(p[5], 1, 1),
        job.bits == read_param_u32(p[6], 0, 0),
        job.time64 == read_param_u32(p[7], 0, 0),
        job.ntime_hex@ == hex_number(job.time64 as nat, 8),
        be_value(job.target@) == bits_number(job.bits),
        job.en2_hex@.len() == 2 * en2_size,
        0 <= i < 2 * en2_size ==> job.en2_hex@[i] == '0',
{
    lemma_default_numbers();
    lemma_nothing_is_read();
    law_target_is_number_of_bits(job.bits);
    assert(branch_of(job) =~= hashes(job.merkle_branch@));
    assert(job@.merkle_branch == branch_of(job));
    let en2 = zeros(en2_size as nat);
    if 0 <= i < 2 * en2_size {
        law_byte_is_two_digits(en2, i / 2);
        reveal_strlit("0123456789abcdef");
        assert(i == 2 * (i / 2) || i == 2 * (i / 2) + 1);
    }
}

/// The values of a list are seen one by one, in order.
pub proof fn law_values_are_seen_in_order(values: Vec<Value>, i: int)
    ensures
        json_items(values@).len() == values@.len(),
        0 <= i < values@.len() ==> json_items(values@)[i] == json_view(values@[i]),
{
}

/// The texts of a notice fall into pairs exactly where the previous hash, the two
/// parts of the coinbase and every hash of the branch do; what is no text does.
pub proof fn law_notice_splits_text_by_text(p: Seq<Json>)
    requires
        p.len() >= 9,
    ensures
        notice_splits(p) <==> {
            &&& hex_splits(text_at(p, 1))
            &&& hex_splits(text_at(p, 2))
            &&& hex_splits(text_at(p, 3))
            &&& p[4] matches Json::Arr(branch) ==> forall|i: int|
                0 <= i < branch.len() ==> hex_splits(#[trigger] text_at(branch, i))
        },
{
    if let Json::Arr(branch) = p[4] {
        let all = items_in(p[4]);
        assert forall|i: int| 0 <= i < branch.len() implies item_splits(#[trigger] all[i])
            == hex_splits(text_at(branch, i)) by {}
        if forall|i: int| 0 <= i < branch.len() ==> hex_splits(#[trigger] text_at(branch, i)) {
            assert forall|i: int| 0 <= i < all.len() implies item_splits(#[trigger] all[i]) by {
                assert(hex_splits(text_at(branch, i)));
            }
        }
        if forall|i: int| 0 <= i < all.len() ==> item_splits(#[trigger] all[i]) {
            assert forall|i: int| 0 <= i < branch.len() implies hex_splits(
                #[trigger] text_at(branch, i),
            ) by {
                assert(item_splits(all[i]));
            }
        }
    }
}

proof fn lemma_default_numbers()
    ensures
        hex_u32("0"@) == Some(0u32),
        hex_u32("1"@) == Some(1u32),
{
    reveal_strlit("0");
    reveal_strlit("1");
    assert("0"@ =~= hex_number(0, 0));
    assert("1"@ =~= hex_number(1, 0));
    law_number_reads_back(0, 0);
    law_number_reads_back(1, 0);
}

proof fn lemma_nothing_is_read()
    ensures
        hex_read(Seq::empty()).len() == 0,
        hex_read(Seq::empty()) == Seq::<u8>::empty(),
{
    law_hex_reads_back(Seq::empty());
    assert(hex_chars(Seq::empty()) =~= Seq::empty());
}

/// A branch is taken item by item, in order: one that is read as 32 bytes is a hash
/// of it, and any other is left out.
pub proof fn law_branch_is_taken_item_by_item(items: Seq<Json>, next: Json)
    ensures
        branch_hashes(Seq::empty()).len() == 0,
        branch_hashes(items.push(next)) == if read_param_bytes(next).len() == 32 {
            branch_hashes(items).push(read_param_bytes(next))
        } else {
            branch_hashes(items)
        },
{
    lemma_nothing_is_read();
    assert(items.push(next).drop_last() =~= items);
}

/// Whether a line from the node was handled as [`Upstream::on_line`] handles it.
pub open spec fn upstream_took(
    before: Upstream,
    line: Seq<char>,
    after: Upstream,
    r: Option<UpstreamAction>,
) -> bool {
    &&& after@ == upstream_line(before@, line).0
    &&& match (r, upstream_line(before@, line).1) {
        (Some(action), Some(model)) => action.shows(model),
        (None, None) => true,
        _ => false,
    }
}

/// Whether nothing of what is remembered of the node changed.
pub open spec fn upstream_kept(before: Upstream, after: Upstream) -> bool {
    after.en1_hex@ == before.en1_hex@ && after.en2_size == before.en2_size && after.seq
        == before.seq
}

/// A line that is blank, no JSON, or a message that neither replies nor tells a
/// difficulty or a job, is ignored.
pub proof fn law_upstream_ignores_the_rest(
    before: Upstream,
    line: Seq<char>,
    after: Upstream,
    r: Option<UpstreamAction>,
    method: Seq<char>,
)
    requires
        upstream_took(before, line, after, r),
        is_blank_text(line) || json_parse(line) is None || (json_parse(line) matches Some(msg)
            && says(msg, method) && method.len() > 0 && method != "mining.set_difficulty"@ && method
            != "mining.notify"@),
    ensures
        upstream_kept(before, after),
        r matches Some(UpstreamAction::Ignore),
{
    if !is_blank_text(line) && json_parse(line) is Some {
        law_message_is_read_as_it_is(
            json_parse(line).unwrap(),
            method,
            Json::Null,
            Seq::empty(),
            Seq::empty(),
        );
    }
}

/// A message without a method, or with an empty one, is a reply. A result of three items or more assigns
/// the second, a text, as the extranonce 1 and the third, a number, as the size of
/// extranonce 2; what is no text counts as empty, what is no number as four. Any
/// other reply is ignored.
pub proof fn law_upstream_takes_a_subscription(
    before: Upstream,
    line: Seq<char>,
    msg: Json,
    after: Upstream,
    r: Option<UpstreamAction>,
)
    requires
        upstream_took(before, line, after, r),
        reads_as(line, msg),
        forall|m: Seq<char>| m.len() > 0 ==> !says(msg, m),
    ensures
        after.seq == before.seq,
        match json_field(msg, "result"@) {
            Some(Json::Arr(result)) => if result.len() >= 3 {
                &&& r matches Some(UpstreamAction::Subscribed)
                &&& match result[1] {
                    Json::Str(en1) => after.en1_hex@ == en1,
                    _ => after.en1_hex@.len() == 0,
                }
                &&& match result[2] {
                    Json::Uint(n) => after.en2_size == n as usize,
                    _ => after.en2_size == 4,
                }
            } else {
                upstream_kept(before, after) && r matches Some(UpstreamAction::Ignore)
            },
            _ => upstream_kept(before, after) && r matches Some(UpstreamAction::Ignore),
        },
{
    law_message_is_read_as_it_is(msg, method_of(msg), Json::Null, Seq::empty(), "result"@);
    lemma_all_methods_differ();
}

/// A difficulty is passed on to the miners as it came, and nothing changes.
pub proof fn law_upstream_passes_difficulty_on(
    before: Upstream,
    line: Seq<char>,
    msg: Json,
    after: Upstream,
    r: Option<UpstreamAction>,
)
    requires
        upstream_took(before, line, after, r),
        reads_as(line, msg),
        says(msg, "mining.set_difficulty"@),
    ensures
        upstream_kept(before, after),
        r matches Some(UpstreamAction::Forward(sent)) && sent@ == line_of(msg),
{
    lemma_all_methods_differ();
    law_message_is_read_as_it_is(
        msg,
        "mining.set_difficulty"@,
        Json::Null,
        Seq::empty(),
        Seq::empty(),
    );
}

/// A notice with fewer than nine parameters is ignored. Any other is published under
/// the next number, with a line that miners read as the notice of that job, clean
/// where the ninth parameter is true, and with the root for the node's extranonce 1
/// and an extranonce 2 of zeros; unless its texts do not fall into pairs, the numbers
/// are used up or the extranonce 2 is too long.
pub proof fn law_upstream_publishes_a_job(
    before: Upstream,
    line: Seq<char>,
    msg: Json,
    p: Seq<Json>,
    after: Upstream,
    r: Option<UpstreamAction>,
)
    requires
        upstream_took(before, line, after, r),
        reads_as(line, msg),
        says(msg, "mining.notify"@),
        with_params(msg, p),
    ensures
        after.en1_hex@ == before.en1_hex@,
        after.en2_size == before.en2_size,
        p.len() < 9 ==> upstream_kept(before, after) && r matches Some(UpstreamAction::Ignore),
        p.len() >= 9 ==> match r {
            Some(UpstreamAction::Publish(a)) => {
                &&& after.seq == before.seq + 1
                &&& a.job@ == job_of_params(p, before.en2_size, after.seq as nat)
                &&& a.template_root@ == fold_branch(
                    double_sha256(
                        a.job.coinbase1@ + hex_read(before.en1_hex@) + zeros(
                            before.en2_size as nat,
                        ) + a.job.coinbase2@,
                    ),
                    branch_of(a.job),
                )
                &&& json_parse(a.line@.drop_last()) matches Some(told) && notifies(
                    told,
                    a.job,
                    p[8] == Json::Bool(true),
                )
            },
            None => {
                &&& upstream_kept(before, after)
                &&& !hex_splits(before.en1_hex@) || !notice_splits(p) || before.seq == u64::MAX || 2
                    * before.en2_size > isize::MAX
            },
            _ => false,
        },
        p.len() >= 9 && hex_splits(before.en1_hex@) && notice_splits(p) && before.seq < u64::MAX && 2
            * before.en2_size <= isize::MAX ==> r is Some,
{
    lemma_all_methods_differ();
    law_message_is_read_as_it_is(msg, "mining.notify"@, Json::Null, p, "params"@);
    if let Some(UpstreamAction::Publish(a)) = r {
        assert(hashes(a.job.merkle_branch@) =~= branch_of(a.job));
        law_call_has_its_members(Json::Null, "mining.notify"@, notify_params(a.job@, clean_flag(p)));
    }
}

/// The first lines to the node: a subscription under identifier 1 with the name of
/// the program, and a login under identifier 2.
pub proof fn law_opening_calls(lines: Vec<String>)
    requires
        lines@.len() == 2,
        forall|k: int| 0 <= k < 2 ==> carries((#[trigger] lines@[k])@, opening_calls()[k]),
    ensures
        json_parse(lines@[0]@.drop_last()) matches Some(m) && calls(
            m,
            Json::Uint(1),
            "mining.subscribe"@,
            seq![Json::Str("csd-asic-proxy/1.0"@)],
        ),
        json_parse(lines@[1]@.drop_last()) matches Some(m) && calls(
            m,
            Json::Uint(2),
            "mining.authorize"@,
            seq![Json::Str("asic-proxy"@), Json::Str("x"@)],
        ),
{
    assert(carries(lines@[0]@, opening_calls()[0]));
    assert(carries(lines@[1]@, opening_calls()[1]));
    law_call_has_its_members(
        Json::Uint(1),
        "mining.subscribe"@,
        seq![Json::Str("csd-asic-proxy/1.0"@)],
    );
    law_call_has_its_members(
        Json::Uint(2),
        "mining.authorize"@,
        seq![Json::Str("asic-proxy"@), Json::Str("x"@)],
    );
}

/// A job that is announced is the current one and is under its identifier; every
/// other stays where it was.
pub proof fn law_book_keeps_every_job(before: JobBook, job: Job, after: JobBook, id: Seq<char>)
    requires
        after@ == announced(before@, job@),
    ensures
        after.current matches Some(j) && same_fields(j, job),
        after.recent@.contains_key(job.proxy_job_id@),
        same_fields(after.recent@[job.proxy_job_id@], job),
        id != job.proxy_job_id@ ==> after.recent@.contains_key(id) == before.recent@.contains_key(
            id,
        ),
        id != job.proxy_job_id@ && before.recent@.contains_key(id) ==> same_fields(
            after.recent@[id],
            before.recent@[id],
        ),
{
    let now = after@.recent;
    assert(now.contains_key(id) == after.recent@.contains_key(id));
    assert(now.contains_key(job.proxy_job_id@) == after.recent@.contains_key(job.proxy_job_id@));
    assert(before@.recent.contains_key(id) == before.recent@.contains_key(id));
    law_equal_jobs_are_the_same(after.current.unwrap(), job);
    assert(now[job.proxy_job_id@] == job@);
    law_equal_jobs_are_the_same(after.recent@[job.proxy_job_id@], job);
    if id != job.proxy_job_id@ && before.recent@.contains_key(id) {
        assert(now[id] == before@.recent[id]);
        law_equal_jobs_are_the_same(after.recent@[id], before.recent@[id]);
    }
}

/// A job is found exactly where the book has it under the identifier.
pub proof fn law_book_finds_what_it_has(book: JobBook, id: Seq<char>)
    ensures
        lookup(book@, id) is Some <==> book.recent@.contains_key(id),
        lookup(book@, id) is Some ==> lookup(book@, id) == Some(book.recent@[id]@),
{
    assert(book@.recent.contains_key(id) == book.recent@.contains_key(id));
}

/// The nonce of an answer is its four bytes, the first the lowest; a text of another
/// length gives zero.
pub proof fn law_nonce_is_lowest_byte_first(text: Seq<char>)
    ensures
        ({
            let b = hex_read(text);
            if b.len() == 4 {
                nonce_of(text) == b[0] + 0x100 * b[1] + 0x1_0000 * b[2] + 0x100_0000 * b[3]
            } else {
                nonce_of(text) == 0
            }
        }),
{
    let b = hex_read(text);
    if b.len() == 4 {
        reveal_with_fuel(le_value, 5);
        assert(b.drop_first().first() == b[1]);
        assert(b.drop_first().drop_first().first() == b[2]);
        assert(b.drop_first().drop_first().drop_first().first() == b[3]);
        assert(b.drop_first().drop_first().drop_first().drop_first().len() == 0);
    }
}

/// An answer stands for the header with its own time, zero where that is no number,
/// its own nonce, and the Merkle root for the extranonces 00000001 and its own.
pub proof fn law_answer_is_the_job_with_its_numbers(
    job: Job,
    en2_hex: Seq<char>,
    ntime_hex: Seq<char>,
    nonce_hex: Seq<char>,
)
    ensures
        answer_header(job@, en2_hex, ntime_hex, nonce_hex) == csd_header(
            job@,
            job_merkle(job@, seq![0u8, 0u8, 0u8, 1u8], hex_read(en2_hex)),
            match hex_u32(ntime_hex) {
                Some(t) => t,
                None => 0,
            },
            nonce_of(nonce_hex),
        ),
{
}

/// Whether a message submits a block of a job to the node: the node's own identifier
/// of the job, the job's extranonce 2 and time, and the four bytes of the nonce, the
/// lowest first.
pub open spec fn submits(msg: Json, job: Job, nonce: u32, msg_id: u64) -> bool {
    calls(
        msg,
        Json::Uint(msg_id),
        "mining.submit"@,
        seq![
            Json::Str("asic-proxy"@),
            Json::Str(job.csd_job_id@),
            Json::Str(job.en2_hex@),
            Json::Str(job.ntime_hex@),
            Json::Str(hex_chars(le_bytes(nonce as nat, 4))),
        ],
    )
}

/// A hash makes a block exactly where, read highest byte first, it is at most the
/// job's target; the line that submits it says which job, and with which nonce.
pub proof fn law_block_is_a_hash_within_the_target(
    job: Job,
    hash: [u8; 32],
    nonce: u32,
    msg_id: u64,
    r: Option<FoundBlock>,
)
    requires
        match r {
            Some(f) => block_found(job@, hash@, nonce, msg_id) matches Some(m) && f.shows(m),
            None => block_found(job@, hash@, nonce, msg_id) is None,
        },
    ensures
        r is Some <==> be_value(hash@) <= be_value(job.target@),
        r matches Some(f) ==> f.hash@ == hash@ && (json_parse(f.line@.drop_last()) matches Some(msg)
            && submits(msg, job, nonce, msg_id)),
{
    law_call_has_its_members(
        Json::Uint(msg_id),
        "mining.submit"@,
        seq![
            Json::Str("asic-proxy"@),
            Json::Str(job.csd_job_id@),
            Json::Str(job.en2_hex@),
            Json::Str(job.ntime_hex@),
            Json::Str(hex_chars(le_bytes(nonce as nat, 4))),
        ],
    );
}

/// Whether a line from a miner was handled as [`AsicSession::on_line`] handles it.
pub open spec fn miner_was_heard(
    before: AsicSession,
    line: Seq<char>,
    difficulty: Json,
    password: Option<&str>,
    book: JobBook,
    after: AsicSession,
    r: AsicEvent,
) -> bool {
    let (next, event) = asic_line(before@, line, difficulty, text_view(password), book@);
    after@ == next && r.shows(event)
}

/// Whether a step only sends lines, one for each of some messages.
pub open spec fn only_sends(step: AsicStep, n: int) -> bool {
    step.replies@.len() == n && step.found is None && step.stale is None && !step.close
}

/// Whether nothing of what is remembered of a miner changed.
pub open spec fn session_kept(before: AsicSession, after: AsicSession) -> bool {
    after.authorized == before.authorized && after.msg_id == before.msg_id
}

/// A blank line and one that is no JSON change nothing and are not answered.
pub proof fn law_miner_may_send_nonsense(
    before: AsicSession,
    line: Seq<char>,
    difficulty: Json,
    password: Option<&str>,
    book: JobBook,
    after: AsicSession,
    r: AsicEvent,
)
    requires
        miner_was_heard(before, line, difficulty, password, book, after, r),
    ensures
        is_blank_text(line) ==> r is Blank && session_kept(before, after),
        !is_blank_text(line) && json_parse(line) is None ==> r is BadJson && session_kept(
            before,
            after,
        ),
{
}

/// A message is left unhandled only where the identifiers for blocks are used up, a
/// logged-in miner answers, and the book has the job; nothing changes then.
pub proof fn law_message_is_left_only_without_identifiers(
    before: AsicSession,
    line: Seq<char>,
    difficulty: Json,
    password: Option<&str>,
    book: JobBook,
    after: AsicSession,
    r: AsicEvent,
)
    requires
        miner_was_heard(before, line, difficulty, password, book, after, r),
        r is Exhausted,
    ensures
        session_kept(before, after),
        before.msg_id == u64::MAX,
        before.authorized,
        json_parse(line) matches Some(msg) && says(msg, "mining.submit"@),
{
    if let Some(msg) = json_parse(line) {
        lemma_all_methods_differ();
        law_message_is_read_as_it_is(
            msg,
            "mining.submit"@,
            Json::Null,
            Seq::empty(),
            Seq::empty(),
        );
    }
}

/// A subscribing miner is told the extranonce 1 `00000001` with four bytes for
/// extranonce 2, then the difficulty, then the current job where there is one, which
/// it is to start on at once. Nothing changes.
pub proof fn law_miner_subscribes(
    before: AsicSession,
    line: Seq<char>,
    msg: Json,
    id: Json,
    difficulty: Json,
    password: Option<&str>,
    book: JobBook,
    after: AsicSession,
    r: AsicEvent,
) -> (sent: Seq<Json>)
    requires
        miner_was_heard(before, line, difficulty, password, book, after, r),
        reads_as(line, msg),
        under_id(msg, id),
        says(msg, "mining.subscribe"@),
    ensures
        session_kept(before, after),
        r matches AsicEvent::Message { method, step } && {
            &&& method@ == "mining.subscribe"@
            &&& only_sends(step, sent.len() as int)
            &&& forall|i: int|
                0 <= i < sent.len() ==> (#[trigger] step.replies@[i])@ == line_of(sent[i])
        },
        sent.len() == if book.current is Some {
            3nat
        } else {
            2nat
        },
        subscribes(sent[0], id, "d"@, "n"@, hex_chars(seq![0u8, 0u8, 0u8, 1u8]), 4),
        tells_difficulty(sent[1], difficulty),
        book.current matches Some(job) ==> notifies(sent[2], job, true),
{
    law_message_is_read_as_it_is(msg, "mining.subscribe"@, id, Seq::empty(), Seq::empty());
    lemma_all_methods_differ();
    law_subscription_has_its_parts(id, "d"@, "n"@, hex_chars(miner_extranonce1()), 4);
    law_difficulty_is_told(difficulty);
    if let Some(job) = book.current {
        law_call_has_its_members(Json::Null, "mining.notify"@, notify_params(job@, true));
    }
    subscribe_replies(id, difficulty, book@)
}

/// Whether an event is a message answered by one line and nothing else.
pub open spec fn one_reply(r: AsicEvent, method: Seq<char>, line: Seq<char>, close: bool) -> bool {
    r matches AsicEvent::Message { method: m, step } && m@ == method && step.replies@.len() == 1
        && step.replies@[0]@ == line && step.found is None && step.stale is None && step.close
        == close
}

/// The text of a parameter, empty where it is missing or no text.
pub open spec fn text_at(p: Seq<Json>, i: int) -> Seq<char> {
    if i < p.len() {
        match p[i] {
            Json::Str(text) => text,
            _ => Seq::empty(),
        }
    } else {
        Seq::empty()
    }
}

/// A miner that logs in with the password, or with anything where there is none, is
/// granted that and logged in; with any other it is refused and sent away.
pub proof fn law_miner_logs_in(
    before: AsicSession,
    line: Seq<char>,
    msg: Json,
    id: Json,
    p: Seq<Json>,
    difficulty: Json,
    password: Option<&str>,
    book: JobBook,
    after: AsicSession,
    r: AsicEvent,
) -> (sent: Json)
    requires
        miner_was_heard(before, line, difficulty, password, book, after, r),
        reads_as(line, msg),
        under_id(msg, id),
        with_params(msg, p),
        says(msg, "mining.authorize"@),
    ensures
        after.msg_id == before.msg_id,
        ({
            let refused = password matches Some(needed) && text_at(p, 1) != needed@;
            &&& one_reply(r, "mining.authorize"@, line_of(sent), refused)
            &&& refused ==> refuses(sent, id, Json::Bool(false), 24, "Unauthorized"@)
                && after.authorized == before.authorized
            &&& !refused ==> grants(sent, id) && after.authorized
        }),
{
    law_message_is_read_as_it_is(msg, "mining.authorize"@, id, p, Seq::empty());
    lemma_all_methods_differ();
    law_refusal_has_its_parts(id, Json::Bool(false), 24, "Unauthorized"@);
    law_reply_has_its_members(id, Json::Bool(true), Json::Null);
    asic_step(before@, msg, difficulty, text_view(password), book@).1.replies[0]
}

/// A request to be told of extranonces is granted, and a method that is none of the
/// five is refused; nothing changes either way.
pub proof fn law_miner_asks_for_something_else(
    before: AsicSession,
    line: Seq<char>,
    msg: Json,
    id: Json,
    difficulty: Json,
    password: Option<&str>,
    book: JobBook,
    after: AsicSession,
    r: AsicEvent,
) -> (sent: Json)
    requires
        miner_was_heard(before, line, difficulty, password, book, after, r),
        reads_as(line, msg),
        under_id(msg, id),
        !says(msg, "mining.subscribe"@),
        !says(msg, "mining.authorize"@),
        !says(msg, "mining.submit"@),
    ensures
        session_kept(before, after),
        one_reply(r, method_of(msg), line_of(sent), false),
        says(msg, "mining.extranonce.subscribe"@) ==> grants(sent, id),
        !says(msg, "mining.extranonce.subscribe"@) ==> refuses(
            sent,
            id,
            Json::Null,
            20,
            "unknown"@,
        ),
{
    lemma_all_methods_differ();
    law_message_is_read_as_it_is(msg, "mining.subscribe"@, id, Seq::empty(), Seq::empty());
    law_message_is_read_as_it_is(msg, "mining.authorize"@, id, Seq::empty(), Seq::empty());
    law_message_is_read_as_it_is(msg, "mining.submit"@, id, Seq::empty(), Seq::empty());
    law_message_is_read_as_it_is(
        msg,
        "mining.extranonce.subscribe"@,
        id,
        Seq::empty(),
        Seq::empty(),
    );
    law_refusal_has_its_parts(id, Json::Null, 20, "unknown"@);
    law_reply_has_its_members(id, Json::Bool(true), Json::Null);
    asic_step(before@, msg, difficulty, text_view(password), book@).1.replies[0]
}

/// An answer from a miner that is not logged in is refused, and so is one with fewer
/// than five parameters; nothing changes and nothing reaches the node.
pub proof fn law_miner_answers_out_of_order(
    before: AsicSession,
    line: Seq<char>,
    msg: Json,
    id: Json,
    p: Seq<Json>,
    difficulty: Json,
    password: Option<&str>,
    book: JobBook,
    after: AsicSession,
    r: AsicEvent,
) -> (sent: Json)
    requires
        miner_was_heard(before, line, difficulty, password, book, after, r),
        reads_as(line, msg),
        under_id(msg, id),
        with_params(msg, p),
        says(msg, "mining.submit"@),
        !before.authorized || p.len() < 5,
    ensures
        session_kept(before, after),
        one_reply(r, "mining.submit"@, line_of(sent), false),
        !before.authorized ==> refuses(sent, id, Json::Bool(false), 24, "Unauthorized"@),
        before.authorized ==> refuses(sent, id, Json::Bool(false), 20, "bad params"@),
{
    law_message_is_read_as_it_is(msg, "mining.submit"@, id, p, Seq::empty());
    lemma_all_methods_differ();
    law_refusal_has_its_parts(id, Json::Bool(false), 24, "Unauthorized"@);
    law_refusal_has_its_parts(id, Json::Bool(false), 20, "bad params"@);
    asic_step(before@, msg, difficulty, text_view(password), book@).1.replies[0]
}

/// An answer from a miner that is logged in is granted, whatever it is. One to a job
/// that the book has, with texts that fall into pairs, is a block exactly where the
/// double hash of its header is at most the job's target; the block is then submitted
/// under the miner's next identifier. One to any other job is noted as stale.
pub proof fn law_miner_answers(
    before: AsicSession,
    line: Seq<char>,
    msg: Json,
    id: Json,
    p: Seq<Json>,
    difficulty: Json,
    password: Option<&str>,
    book: JobBook,
    after: AsicSession,
    r: AsicEvent,
) -> (sent: Json)
    requires
        miner_was_heard(before, line, difficulty, password, book, after, r),
        reads_as(line, msg),
        under_id(msg, id),
        with_params(msg, p),
        says(msg, "mining.submit"@),
        before.authorized,
        p.len() >= 5,
        before.msg_id < u64::MAX,
    ensures
        grants(sent, id),
        after.authorized,
        r matches AsicEvent::Message { method, step } && {
            let known = book.recent@.contains_key(text_at(p, 1));
            let job = book.recent@[text_at(p, 1)];
            let readable = hex_splits(text_at(p, 2)) && hex_splits(text_at(p, 4));
            let hash = double_sha256(
                answer_header(job@, text_at(p, 2), text_at(p, 3), text_at(p, 4)),
            );
            &&& method@ == "mining.submit"@
            &&& step.replies@.len() == 1
            &&& step.replies@[0]@ == line_of(sent)
            &&& !step.close
            &&& step.stale is Some <==> !known
            &&& step.stale matches Some(stale) ==> stale@ == text_at(p, 1)
            &&& step.found is Some <==> known && readable && be_value(hash) <= be_value(job.target@)
            &&& step.found matches Some(f) ==> {
                &&& f.hash@ == hash
                &&& json_parse(f.line@.drop_last()) matches Some(m) && submits(
                    m,
                    job,
                    nonce_of(text_at(p, 4)),
                    before.msg_id,
                )
            }
            &&& after.msg_id == if step.found is Some {
                before.msg_id + 1
            } else {
                before.msg_id as int
            }
        },
{
    law_message_is_read_as_it_is(msg, "mining.submit"@, id, p, Seq::empty());
    lemma_all_methods_differ();
    law_reply_has_its_members(id, Json::Bool(true), Json::Null);
    law_book_finds_what_it_has(book, text_at(p, 1));
    assert(param_text(p, 1) == text_at(p, 1) && param_text(p, 2) == text_at(p, 2));
    assert(param_text(p, 3) == text_at(p, 3) && param_text(p, 4) == text_at(p, 4));
    let job = book.recent@[text_at(p, 1)];
    law_call_has_its_members(
        Json::Uint(before.msg_id),
        "mining.submit"@,
        seq![
            Json::Str("asic-proxy"@),
            Json::Str(job.csd_job_id@),
            Json::Str(job.en2_hex@),
            Json::Str(job.ntime_hex@),
            Json::Str(hex_chars(le_bytes(nonce_of(text_at(p, 4)) as nat, 4))),
        ],
    );
    granted(id)
}

}
