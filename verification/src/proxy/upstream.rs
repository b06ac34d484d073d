//! The proxy's side of the connection to the upstream node.

use vstd::prelude::*;

use serde_json::Value;

use crate::bytes::{zero_bytes, zeros};
use crate::hextext::{
    format_hex, from_hex, hex_chars, hex_number, hex_read, hex_splits, hex_u32, law_numbers_differ,
    parse_hex_u32, splits_into_pairs, to_hex,
};
use crate::json::{
    call, carries, json_as_array, json_as_bool, json_as_u64, json_items, json_parse, json_string,
    json_uint, json_view, lemma_plain_call, list_of, make_call, make_line, method_of,
    parse_json, read_list, read_method, read_text, sent, text_or, Json,
};
use crate::merkle::hashes;
use crate::proxy::job::{
    job_merkle, lemma_notify_is_plain, make_notify, notify_message, reconstruct_merkle, Job, JobModel,
};
use crate::target::{bits_to_target, compact_bytes};
use crate::text::{is_blank, is_blank_text, same_text};

verus! {

/// What the proxy remembers of the upstream connection.
#[derive(Debug)]
pub struct Upstream {
    /// The extranonce 1 that the node assigned.
    pub en1_hex: String,
    /// The size of the extranonce 2 that the node expects.
    pub en2_size: usize,
    /// The number of jobs taken so far.
    pub seq: u64,
}

/// What an [`Upstream`] holds.
#[verifier::ext_equal]
pub struct UpstreamModel {
    pub en1_hex: Seq<char>,
    pub en2_size: usize,
    pub seq: u64,
}

impl View for Upstream {
    type V = UpstreamModel;

    open spec fn view(&self) -> UpstreamModel {
        UpstreamModel { en1_hex: self.en1_hex@, en2_size: self.en2_size, seq: self.seq }
    }
}

/// What a line from the node asks of the proxy.
#[derive(Debug)]
pub enum UpstreamAction {
    /// Nothing.
    Ignore,
    /// Nothing further: the subscription was noted.
    Subscribed,
    /// To send this line to every miner.
    Forward(String),
    /// To announce a job.
    Publish(Announcement),
}

/// A job to announce.
#[derive(Debug)]
pub struct Announcement {
    pub job: Job,
    /// The Merkle root with the node's extranonce 1 and an extranonce 2 of zeros.
    pub template_root: [u8; 32],
    /// The notice to send to every miner.
    pub line: String,
}

/// What a line from the node asks for, with messages in place of the lines that are
/// sent for them.
pub enum ActionModel {
    Ignore,
    Subscribed,
    Forward(Json),
    Publish { job: JobModel, template_root: Seq<u8>, notice: Json },
}

impl UpstreamAction {
    /// Whether the action is the one described. The notice of a job is one that
    /// miners read as it was meant.
    pub open spec fn shows(self, model: ActionModel) -> bool {
        match (self, model) {
            (UpstreamAction::Ignore, ActionModel::Ignore) => true,
            (UpstreamAction::Subscribed, ActionModel::Subscribed) => true,
            (UpstreamAction::Forward(line), ActionModel::Forward(msg)) => sent(line@, msg),
            (
                UpstreamAction::Publish(a),
                ActionModel::Publish { job, template_root, notice },
            ) => {
                &&& a.job@ == job
                &&& a.template_root@ == template_root
                &&& sent(a.line@, notice)
                &&& carries(a.line@, notice)
            },
            _ => false,
        }
    }
}

/// The hash that bytes are, or zeros where they are not 32.
pub open spec fn hash_or_zeros(b: Seq<u8>) -> Seq<u8> {
    if b.len() == 32 {
        b
    } else {
        zeros(32)
    }
}

/// The bytes that an item reads as; none for anything but a string.
pub open spec fn item_bytes(item: Json) -> Seq<u8> {
    hex_read(text_or(item, Seq::empty()))
}

/// Whether the text of an item can be read in pairs.
pub open spec fn item_splits(item: Json) -> bool {
    hex_splits(text_or(item, Seq::empty()))
}

/// The number of an item in base 16: of a default text for anything but a
/// string, and a default number for a text that is none.
pub open spec fn item_u32(item: Json, text: Seq<char>, default: u32) -> u32 {
    match hex_u32(text_or(item, text)) {
        Some(n) => n,
        None => default,
    }
}

/// The items of an array; none for another kind of value.
pub open spec fn items_in(value: Json) -> Seq<Json> {
    match value {
        Json::Arr(items) => items,
        _ => Seq::empty(),
    }
}

/// The hashes among the items of a branch: an item that is not the text of 32
/// bytes is left out.
pub open spec fn branch_hashes(items: Seq<Json>) -> Seq<Seq<u8>>
    decreases items.len(),
{
    if items.len() == 0 {
        Seq::empty()
    } else {
        let rest = branch_hashes(items.drop_last());
        let h = item_bytes(items.last());
        if h.len() == 32 {
            rest.push(h)
        } else {
            rest
        }
    }
}

/// The job that nine parameters of a notice describe.
pub open spec fn job_of_params(p: Seq<Json>, en2_size: usize, seq: nat) -> JobModel {
    let bits = item_u32(p[6], "0"@, 0);
    let ntime32 = item_u32(p[7], "0"@, 0);
    JobModel {
        proxy_job_id: hex_number(seq, 8),
        csd_job_id: text_or(p[0], Seq::empty()),
        target: compact_bytes(bits),
        en2_hex: hex_chars(zeros(en2_size as nat)),
        ntime_hex: hex_number(ntime32 as nat, 8),
        coinbase1: item_bytes(p[2]),
        coinbase2: item_bytes(p[3]),
        merkle_branch: branch_hashes(items_in(p[4])),
        version: item_u32(p[5], "1"@, 1),
        bits,
        prev: hash_or_zeros(item_bytes(p[1])),
        time64: ntime32 as u64,
    }
}

/// Whether miners are to drop earlier jobs: the ninth parameter of a notice.
pub open spec fn clean_flag(p: Seq<Json>) -> bool {
    p[8] == Json::Bool(true)
}

/// The parameters of a message that is the notice of a job.
pub open spec fn notice_params(msg: Json) -> Option<Seq<Json>> {
    if method_of(msg) == "mining.notify"@ {
        match list_of(msg, "params"@) {
            Some(p) => if p.len() >= 9 {
                Some(p)
            } else {
                None
            },
            None => None,
        }
    } else {
        None
    }
}

/// Whether the hexadecimal texts of a notice can be read in pairs of whole
/// characters.
pub open spec fn notice_splits(p: Seq<Json>) -> bool {
    &&& item_splits(p[1])
    &&& item_splits(p[2])
    &&& item_splits(p[3])
    &&& forall|i: int| 0 <= i < items_in(p[4]).len() ==> item_splits(#[trigger] items_in(p[4])[i])
}

/// Whether a message can be handled: a notice of a job needs texts that fall
/// into pairs, a number for the job, and room for the extranonce 2 as text.
pub open spec fn can_take(state: UpstreamModel, msg: Json) -> bool {
    match notice_params(msg) {
        Some(p) => {
            &&& hex_splits(state.en1_hex)
            &&& notice_splits(p)
            &&& state.seq < u64::MAX
            &&& 2 * state.en2_size <= isize::MAX
        },
        None => true,
    }
}

/// The state after a reply: a result of at least three items assigns the
/// extranonces.
pub open spec fn subscribed(state: UpstreamModel, result: Seq<Json>) -> UpstreamModel {
    UpstreamModel {
        en1_hex: text_or(result[1], Seq::empty()),
        en2_size: match result[2] {
            Json::Uint(n) => n as usize,
            _ => 4,
        },
        ..state
    }
}

/// What a message from the node changes, and what it asks for.
pub open spec fn upstream_step(state: UpstreamModel, msg: Json) -> (UpstreamModel, ActionModel) {
    let method = method_of(msg);
    if method.len() == 0 {
        match list_of(msg, "result"@) {
            Some(result) => if result.len() >= 3 {
                (subscribed(state, result), ActionModel::Subscribed)
            } else {
                (state, ActionModel::Ignore)
            },
            None => (state, ActionModel::Ignore),
        }
    } else if method == "mining.set_difficulty"@ {
        (state, ActionModel::Forward(msg))
    } else {
        match notice_params(msg) {
            Some(p) => {
                let seq = (state.seq + 1) as u64;
                let job = job_of_params(p, state.en2_size, seq as nat);
                (
                    UpstreamModel { seq, ..state },
                    ActionModel::Publish {
                        job,
                        template_root: job_merkle(
                            job,
                            hex_read(state.en1_hex),
                            zeros(state.en2_size as nat),
                        ),
                        notice: notify_message(job, clean_flag(p)),
                    },
                )
            },
            None => (state, ActionModel::Ignore),
        }
    }
}

/// What a line from the node changes and asks for: nothing where it is blank or
/// no JSON. `None` stands for a message that cannot be handled.
pub open spec fn upstream_line(state: UpstreamModel, line: Seq<char>) -> (
    UpstreamModel,
    Option<ActionModel>,
) {
    if is_blank_text(line) {
        (state, Some(ActionModel::Ignore))
    } else {
        match json_parse(line) {
            Some(msg) => if can_take(state, msg) {
                let (next, action) = upstream_step(state, msg);
                (next, Some(action))
            } else {
                (state, None)
            },
            None => (state, Some(ActionModel::Ignore)),
        }
    }
}

fn read_u32(item: &Value, text: &str, default: u32) -> (r: u32)
    ensures
        r == item_u32(json_view(*item), text@, default),
{
    let s = read_text(item, text);
    match parse_hex_u32(s.as_str()) {
        Some(n) => n,
        None => default,
    }
}

proof fn lemma_empty_text()
    ensures
        ""@ == Seq::<char>::empty(),
{
    reveal_strlit("");
    assert(""@ =~= Seq::<char>::empty());
}

fn read_bytes(item: &Value) -> (r: Vec<u8>)
    requires
        item_splits(json_view(*item)),
    ensures
        r@ == item_bytes(json_view(*item)),
{
    proof {
        lemma_empty_text();
    }
    let s = read_text(item, "");
    from_hex(s.as_str())
}

fn text_splits(item: &Value) -> (r: bool)
    ensures
        r == item_splits(json_view(*item)),
{
    proof {
        lemma_empty_text();
    }
    let s = read_text(item, "");
    splits_into_pairs(s.as_str())
}

fn hash_of(b: &Vec<u8>) -> (r: Option<[u8; 32]>)
    ensures
        match r {
            Some(h) => b@.len() == 32 && h@ == b@,
            None => b@.len() != 32,
        },
{
    if b.len() != 32 {
        return None;
    }
    let mut h = [0u8; 32];
    let mut i: usize = 0;
    while i < 32
        invariant
            i <= 32,
            b@.len() == 32,
            forall|k: int| 0 <= k < i ==> h@[k] == b@[k],
        decreases 32 - i,
    {
        h[i] = b[i];
        i = i + 1;
    }
    assert(h@ =~= b@);
    Some(h)
}

fn read_branch(item: &Value) -> (r: Vec<[u8; 32]>)
    requires
        forall|i: int|
            0 <= i < items_in(json_view(*item)).len() ==> item_splits(
                #[trigger] items_in(json_view(*item))[i],
            ),
    ensures
        hashes(r@) == branch_hashes(items_in(json_view(*item))),
{
    let mut out: Vec<[u8; 32]> = Vec::new();
    let ghost all = items_in(json_view(*item));
    match json_as_array(item) {
        Some(items) => {
            let mut i: usize = 0;
            assert(hashes(out@) =~= branch_hashes(all.take(0)));
            while i < items.len()
                invariant
                    i <= items@.len(),
                    all == json_items(items@),
                    forall|k: int| 0 <= k < all.len() ==> item_splits(#[trigger] all[k]),
                    hashes(out@) == branch_hashes(all.take(i as int)),
                decreases items@.len() - i,
            {
                assert(all[i as int] == json_view(items@[i as int]));
                let b = read_bytes(&items[i]);
                let ghost before = hashes(out@);
                match hash_of(&b) {
                    Some(h) => {
                        out.push(h);
                        assert(hashes(out@) =~= before.push(h@));
                    },
                    None => {},
                }
                i = i + 1;
                assert(all.take(i as int).drop_last() =~= all.take(i - 1));
            }
            assert(all.take(i as int) =~= all);
        },
        None => {
            assert(hashes(out@) =~= branch_hashes(all));
        },
    }
    out
}

fn branch_splits(item: &Value) -> (r: bool)
    ensures
        r == (forall|i: int|
            0 <= i < items_in(json_view(*item)).len() ==> item_splits(
                #[trigger] items_in(json_view(*item))[i],
            )),
{
    match json_as_array(item) {
        Some(items) => {
            let ghost all = items_in(json_view(*item));
            let mut i: usize = 0;
            while i < items.len()
                invariant
                    i <= items@.len(),
                    all == json_items(items@),
                    all == items_in(json_view(*item)),
                    forall|k: int| 0 <= k < i ==> item_splits(#[trigger] all[k]),
                decreases items@.len() - i,
            {
                assert(all[i as int] == json_view(items@[i as int]));
                if !text_splits(&items[i]) {
                    return false;
                }
                i = i + 1;
            }
            true
        },
        None => true,
    }
}

fn find_params<'a>(msg: &'a Value) -> (r: Option<&'a Vec<Value>>)
    ensures
        match r {
            Some(p) => notice_params(json_view(*msg)) == Some(json_items(p@)),
            None => notice_params(json_view(*msg)) is None,
        },
{
    let method = read_method(msg);
    if !same_text(method.as_str(), "mining.notify") {
        return None;
    }
    match read_list(msg, "params") {
        Some(p) => if p.len() >= 9 {
            Some(p)
        } else {
            None
        },
        None => None,
    }
}

/// Makes the job that the parameters of a notice describe.
pub fn take_job(p: &Vec<Value>, en2_size: usize, seq: u64) -> (r: Job)
    requires
        p@.len() >= 9,
        notice_splits(json_items(p@)),
    ensures
        r@ == job_of_params(json_items(p@), en2_size, seq as nat),
{
    let ghost items = json_items(p@);
    proof {
        lemma_empty_text();
        assert(items[0] == json_view(p@[0]) && items[1] == json_view(p@[1]));
        assert(items[2] == json_view(p@[2]) && items[3] == json_view(p@[3]));
        assert(items[4] == json_view(p@[4]) && items[5] == json_view(p@[5]));
        assert(items[6] == json_view(p@[6]) && items[7] == json_view(p@[7]));
        assert(item_splits(items[1]) && item_splits(items[2]) && item_splits(items[3]));
    }
    let prev_bytes = read_bytes(&p[1]);
    let prev = match hash_of(&prev_bytes) {
        Some(h) => h,
        None => {
            let h = [0u8; 32];
            assert(h@ =~= zeros(32));
            h
        },
    };
    let bits: u32 = read_u32(&p[6], "0", 0);
    let ntime32: u32 = read_u32(&p[7], "0", 0);
    let job = Job {
        proxy_job_id: format_hex(seq, 8),
        csd_job_id: read_text(&p[0], ""),
        target: bits_to_target(bits),
        en2_hex: to_hex(zero_bytes(en2_size).as_slice()),
        ntime_hex: format_hex(ntime32 as u64, 8),
        coinbase1: read_bytes(&p[2]),
        coinbase2: read_bytes(&p[3]),
        merkle_branch: read_branch(&p[4]),
        version: read_u32(&p[5], "1", 1),
        bits,
        prev,
        time64: ntime32 as u64,
    };
    assert(job@ =~= job_of_params(items, en2_size, seq as nat));
    job
}

impl Upstream {
    /// The state of a fresh connection.
    pub fn new() -> (r: Self)
        ensures
            r@ == (UpstreamModel { en1_hex: Seq::empty(), en2_size: 4, seq: 0 }),
    {
        Upstream { en1_hex: String::new(), en2_size: 4, seq: 0 }
    }

    /// Whether a message can be handled.
    pub fn can_handle(&self, msg: &Value) -> (r: bool)
        ensures
            r == can_take(self@, json_view(*msg)),
    {
        match find_params(msg) {
            Some(p) => {
                let ghost items = json_items(p@);
                assert(items[1] == json_view(p@[1]) && items[2] == json_view(p@[2]));
                assert(items[3] == json_view(p@[3]) && items[4] == json_view(p@[4]));
                splits_into_pairs(self.en1_hex.as_str()) && text_splits(&p[1]) && text_splits(&p[2])
                    && text_splits(&p[3]) && branch_splits(&p[4]) && self.seq < u64::MAX
                    && self.en2_size <= isize::MAX as usize / 2
            },
            None => true,
        }
    }

    /// Handles a message from the node.
    pub fn on_message(&mut self, msg: &Value) -> (r: UpstreamAction)
        requires
            can_take(old(self)@, json_view(*msg)),
        ensures
            final(self)@ == upstream_step(old(self)@, json_view(*msg)).0,
            r.shows(upstream_step(old(self)@, json_view(*msg)).1),
    {
        proof {
            lemma_empty_text();
            reveal_strlit("mining.notify");
        }
        let method = read_method(msg);
        if method.as_str().is_empty() {
            match read_list(msg, "result") {
                Some(result) => {
                    let ghost items = json_items(result@);
                    if result.len() >= 3 {
                        assert(items[1] == json_view(result@[1]) && items[2] == json_view(
                            result@[2],
                        ));
                        self.en1_hex = read_text(&result[1], "");
                        self.en2_size = match json_as_u64(&result[2]) {
                            Some(n) => n as usize,
                            None => 4,
                        };
                        assert(self@ =~= subscribed(old(self)@, items));
                        return UpstreamAction::Subscribed;
                    }
                },
                None => {},
            }
            return UpstreamAction::Ignore;
        }
        if same_text(method.as_str(), "mining.set_difficulty") {
            return UpstreamAction::Forward(make_line(msg));
        }
        match find_params(msg) {
            Some(p) => {
                let ghost items = json_items(p@);
                assert(items[8] == json_view(p@[8]));
                self.seq = self.seq + 1;
                let job = take_job(p, self.en2_size, self.seq);
                let clean: bool = match json_as_bool(&p[8]) {
                    Some(b) => b,
                    None => false,
                };
                let en1 = from_hex(self.en1_hex.as_str());
                let en2 = zero_bytes(self.en2_size);
                let template_root = reconstruct_merkle(&job, en1.as_slice(), en2.as_slice());
                proof {
                    lemma_notify_is_plain(job@, clean);
                }
                let line = make_line(&make_notify(&job, clean));
                UpstreamAction::Publish(Announcement { job, template_root, line })
            },
            None => UpstreamAction::Ignore,
        }
    }

    /// Handles a line from the node. `None` comes back, with nothing changed,
    /// for a notice whose texts do not fall into pairs of whole characters, once
    /// the numbers for jobs are used up, or for an extranonce 2 too long to write
    /// down.
    pub fn on_line(&mut self, line: &str) -> (r: Option<UpstreamAction>)
        ensures
            final(self)@ == upstream_line(old(self)@, line@).0,
            match (r, upstream_line(old(self)@, line@).1) {
                (Some(action), Some(model)) => action.shows(model),
                (None, None) => true,
                _ => false,
            },
    {
        if is_blank(line) {
            return Some(UpstreamAction::Ignore);
        }
        match parse_json(line) {
            Ok(msg) => if self.can_handle(&msg) {
                Some(self.on_message(&msg))
            } else {
                None
            },
            Err(_) => Some(UpstreamAction::Ignore),
        }
    }
}

/// The two requests that open the upstream connection: a subscription and a login.
pub open spec fn opening_calls() -> Seq<Json> {
    seq![
        call(Json::Uint(1), "mining.subscribe"@, seq![Json::Str("csd-asic-proxy/1.0"@)]),
        call(
            Json::Uint(2),
            "mining.authorize"@,
            seq![Json::Str("asic-proxy"@), Json::Str("x"@)],
        ),
    ]
}

/// The lines to send first: a subscription and a login.
pub fn opening() -> (r: Vec<String>)
    ensures
        r@.len() == 2,
        forall|i: int|
            0 <= i < 2 ==> sent((#[trigger] r@[i])@, opening_calls()[i]) && carries(
                r@[i]@,
                opening_calls()[i],
            ),
{
    let agent = vec![json_string("csd-asic-proxy/1.0".to_owned())];
    assert(json_items(agent@) =~= seq![Json::Str("csd-asic-proxy/1.0"@)]);
    let login = vec![json_string("asic-proxy".to_owned()), json_string("x".to_owned())];
    assert(json_items(login@) =~= seq![Json::Str("asic-proxy"@), Json::Str("x"@)]);
    proof {
        lemma_plain_call(Json::Uint(1), "mining.subscribe"@, json_items(agent@), 125);
        lemma_plain_call(Json::Uint(2), "mining.authorize"@, json_items(login@), 125);
    }
    vec![
        make_line(&make_call(json_uint(1), "mining.subscribe", agent)),
        make_line(&make_call(json_uint(2), "mining.authorize", login)),
    ]
}

/// A job is published exactly where the count of jobs grows, and then by one,
/// whatever line comes.
pub proof fn law_one_number_per_job(state: UpstreamModel, line: Seq<char>)
    ensures
        ({
            let (next, action) = upstream_line(state, line);
            if action matches Some(ActionModel::Publish { .. }) {
                next.seq == state.seq + 1
            } else {
                next.seq == state.seq
            }
        }),
{
    reveal_strlit("mining.notify");
}

/// Jobs published under different counts have different identifiers.
pub proof fn law_job_identifiers_differ(
    a: UpstreamModel,
    m: Seq<char>,
    b: UpstreamModel,
    n: Seq<char>,
)
    requires
        upstream_line(a, m).1 matches Some(ActionModel::Publish { .. }),
        upstream_line(b, n).1 matches Some(ActionModel::Publish { .. }),
        a.seq != b.seq,
    ensures
        upstream_line(a, m).1.unwrap()->job.proxy_job_id != upstream_line(
            b,
            n,
        ).1.unwrap()->job.proxy_job_id,
{
    law_one_number_per_job(a, m);
    law_one_number_per_job(b, n);
    law_numbers_differ(
        upstream_line(a, m).0.seq as nat,
        upstream_line(b, n).0.seq as nat,
        8,
    );
}

}
