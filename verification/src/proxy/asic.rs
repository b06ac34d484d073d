//! The proxy's side of a miner's connection.

use vstd::prelude::*;

use serde_json::Value;

use crate::bytes::{
    be_value, bytes_span, law_le_value_read_back, le_bytes, le_value, u32_from_le, u32_to_le,
};
use crate::digest::{double_sha256, sha256d};
use crate::hextext::{
    from_hex, hex_chars, hex_read, hex_splits, hex_u32, law_hex_reads_back, parse_hex_u32,
    splits_into_pairs, to_hex,
};
use crate::json::{
    all_sent, call, carries, difficulty_notice, id_of, json_bool, json_clone, json_items, json_null,
    json_parse, json_string, json_uint, json_view, lemma_plain_call, lemma_plain_refusal,
    lemma_plain_reply, lemma_plain_subscription, make_call, make_difficulty_notice, make_grant,
    make_line, make_refusal, make_reply, make_subscription, method_of, params_of, parse_json, plain,
    read_id, read_list, read_method, read_text, reads_as, refusal, reply, sent, subscription, text_or,
    Json, MAX_NESTING,
};
use crate::proxy::book::{lookup, BookModel, JobBook};
use crate::proxy::job::{
    build_csd_header, csd_header, job_merkle, lemma_notify_is_plain, make_notify, notify_message,
    reconstruct_merkle, Job, JobModel,
};
use crate::target::hash_meets_target;
use crate::text::{is_blank, is_blank_text, same_text};

verus! {

/// The extranonce 1 that every miner gets.
pub open spec fn miner_extranonce1() -> Seq<u8> {
    seq![0u8, 0u8, 0u8, 1u8]
}

/// The size of the extranonce 2 that every miner is told to use.
pub const MINER_EXTRANONCE2_SIZE: u64 = 4;

/// What the proxy remembers of a miner's connection.
#[derive(Debug)]
pub struct AsicSession {
    /// Whether the miner has logged in.
    pub authorized: bool,
    /// The identifier for the next block sent to the node.
    pub msg_id: u64,
}

/// What an [`AsicSession`] holds.
#[verifier::ext_equal]
pub struct SessionModel {
    pub authorized: bool,
    pub msg_id: u64,
}

impl View for AsicSession {
    type V = SessionModel;

    open spec fn view(&self) -> SessionModel {
        SessionModel { authorized: self.authorized, msg_id: self.msg_id }
    }
}

/// A block that a miner found.
#[derive(Debug)]
pub struct FoundBlock {
    pub hash: [u8; 32],
    /// The line that submits it to the node.
    pub line: String,
}

/// A block that a miner found, with the message that submits it to the node.
#[verifier::ext_equal]
pub struct FoundModel {
    pub hash: Seq<u8>,
    pub submission: Json,
}

impl FoundBlock {
    /// Whether the block is the one described, with a line that the node reads as
    /// its submission.
    pub open spec fn shows(self, model: FoundModel) -> bool {
        &&& self.hash@ == model.hash
        &&& sent(self.line@, model.submission)
        &&& carries(self.line@, model.submission)
    }
}

/// What a miner's message asks of the proxy.
#[derive(Debug)]
pub struct AsicStep {
    /// The lines to send to the miner, in order.
    pub replies: Vec<String>,
    /// The block to submit to the node.
    pub found: Option<FoundBlock>,
    /// The identifier of a job that the proxy does not know.
    pub stale: Option<String>,
    /// Whether to close the connection.
    pub close: bool,
}

/// What a miner's message asks for, with messages in place of the lines that are
/// sent for them.
#[verifier::ext_equal]
pub struct StepModel {
    pub replies: Seq<Json>,
    pub found: Option<FoundModel>,
    pub stale: Option<Seq<char>>,
    pub close: bool,
}

impl AsicStep {
    /// Whether the step is the one described.
    pub open spec fn shows(self, model: StepModel) -> bool {
        &&& all_sent(self.replies@, model.replies)
        &&& match (self.found, model.found) {
            (Some(f), Some(m)) => f.shows(m),
            (None, None) => true,
            _ => false,
        }
        &&& match (self.stale, model.stale) {
            (Some(id), Some(m)) => id@ == m,
            (None, None) => true,
            _ => false,
        }
        &&& self.close == model.close
    }
}

/// The nonce that a text stands for: its four bytes, lowest first, or zero where
/// it has not four.
pub open spec fn nonce_of(nonce_hex: Seq<char>) -> u32 {
    let b = hex_read(nonce_hex);
    if b.len() == 4 {
        le_value(b) as u32
    } else {
        0
    }
}

/// The time that a text stands for, or zero where it is no number.
pub open spec fn ntime_of(ntime_hex: Seq<char>) -> u32 {
    match hex_u32(ntime_hex) {
        Some(t) => t,
        None => 0,
    }
}

/// The header that a miner's answer to a job stands for.
pub open spec fn answer_header(
    job: JobModel,
    en2_hex: Seq<char>,
    ntime_hex: Seq<char>,
    nonce_hex: Seq<char>,
) -> Seq<u8> {
    csd_header(
        job,
        job_merkle(job, miner_extranonce1(), hex_read(en2_hex)),
        ntime_of(ntime_hex),
        nonce_of(nonce_hex),
    )
}

/// The call that submits a block to the node.
pub open spec fn block_submission(job: JobModel, nonce: u32, msg_id: u64) -> Json {
    call(
        Json::Uint(msg_id),
        "mining.submit"@,
        seq![
            Json::Str("asic-proxy"@),
            Json::Str(job.csd_job_id),
            Json::Str(job.en2_hex),
            Json::Str(job.ntime_hex),
            Json::Str(hex_chars(le_bytes(nonce as nat, 4))),
        ],
    )
}

/// The block that an answer with a given hash makes: one where the hash meets
/// the job's target.
pub open spec fn block_found(job: JobModel, hash: Seq<u8>, nonce: u32, msg_id: u64) -> Option<
    FoundModel,
> {
    if be_value(hash) <= be_value(job.target) {
        Some(FoundModel { hash, submission: block_submission(job, nonce, msg_id) })
    } else {
        None
    }
}

/// The text of a parameter; empty where it is missing or no string.
pub open spec fn param_text(params: Seq<Json>, i: int) -> Seq<char> {
    if i < params.len() {
        text_or(params[i], Seq::empty())
    } else {
        Seq::empty()
    }
}

/// A step that only sends messages.
pub open spec fn sends(replies: Seq<Json>) -> StepModel {
    StepModel { replies, found: None, stale: None, close: false }
}

/// The reply that grants a request.
pub open spec fn granted(id: Json) -> Json {
    reply(id, Json::Bool(true), Json::Null)
}

/// The reply to a miner without authorization.
pub open spec fn unauthorized(id: Json) -> Json {
    reply(id, Json::Bool(false), refusal(24, "Unauthorized"@))
}

/// What a subscription is answered: the extranonces, the difficulty and the
/// current job.
pub open spec fn subscribe_replies(id: Json, difficulty: Json, book: BookModel) -> Seq<Json> {
    let two = seq![
        reply(
            id,
            subscription("d"@, "n"@, hex_chars(miner_extranonce1()), MINER_EXTRANONCE2_SIZE),
            Json::Null,
        ),
        difficulty_notice(difficulty),
    ];
    match book.current {
        Some(job) => two.push(notify_message(job, true)),
        None => two,
    }
}

/// Whether the extranonce 2 and the nonce of an answer fall into pairs of whole
/// characters.
pub open spec fn answer_splits(params: Seq<Json>) -> bool {
    hex_splits(param_text(params, 2)) && hex_splits(param_text(params, 4))
}

/// What an authorized answer to a job brings about: it is granted whatever it
/// is, and a block is submitted to the node where it makes one. An answer whose
/// texts do not fall into pairs of whole characters makes none.
pub open spec fn submit_step(s: SessionModel, id: Json, params: Seq<Json>, book: BookModel) -> (
    SessionModel,
    StepModel,
) {
    let job_id = param_text(params, 1);
    match lookup(book, job_id) {
        Some(job) => if !answer_splits(params) {
            (s, sends(seq![granted(id)]))
        } else {
            let hash = double_sha256(
                answer_header(
                    job,
                    param_text(params, 2),
                    param_text(params, 3),
                    param_text(params, 4),
                ),
            );
            let found = block_found(job, hash, nonce_of(param_text(params, 4)), s.msg_id);
            (
                if found is Some {
                    SessionModel { msg_id: (s.msg_id + 1) as u64, ..s }
                } else {
                    s
                },
                StepModel { found, ..sends(seq![granted(id)]) },
            )
        },
        None => (s, StepModel { stale: Some(job_id), ..sends(seq![granted(id)]) }),
    }
}

/// What a miner's message changes, and what it asks for.
pub open spec fn asic_step(
    s: SessionModel,
    msg: Json,
    difficulty: Json,
    password: Option<Seq<char>>,
    book: BookModel,
) -> (SessionModel, StepModel) {
    let method = method_of(msg);
    let id = id_of(msg);
    let params = params_of(msg);
    if method == "mining.subscribe"@ {
        (s, sends(subscribe_replies(id, difficulty, book)))
    } else if method == "mining.authorize"@ {
        if password is Some && param_text(params, 1) != password.unwrap() {
            (s, StepModel { close: true, ..sends(seq![unauthorized(id)]) })
        } else {
            (SessionModel { authorized: true, ..s }, sends(seq![granted(id)]))
        }
    } else if method == "mining.extranonce.subscribe"@ {
        (s, sends(seq![granted(id)]))
    } else if method == "mining.submit"@ {
        if !s.authorized {
            (s, sends(seq![unauthorized(id)]))
        } else if params.len() < 5 {
            (s, sends(seq![reply(id, Json::Bool(false), refusal(20, "bad params"@))]))
        } else {
            submit_step(s, id, params, book)
        }
    } else {
        (s, sends(seq![reply(id, Json::Null, refusal(20, "unknown"@))]))
    }
}

/// Whether a message can be handled: an answer to a known job needs an identifier
/// for the block that it may make.
pub open spec fn can_answer(s: SessionModel, msg: Json, book: BookModel) -> bool {
    let params = params_of(msg);
    method_of(msg) == "mining.submit"@ && s.authorized && params.len() >= 5 && lookup(
        book,
        param_text(params, 1),
    ) is Some ==> s.msg_id < u64::MAX
}

/// What came of a line from a miner.
#[derive(Debug)]
pub enum AsicEvent {
    /// The line is blank.
    Blank,
    /// The line is no JSON.
    BadJson,
    /// The identifiers for blocks are used up.
    Exhausted,
    /// The message calls this method and asks for this step.
    Message { method: String, step: AsicStep },
}

/// What came of a line from a miner, with messages in place of the lines that are
/// sent for them.
pub enum EventModel {
    Blank,
    BadJson,
    Exhausted,
    Message { method: Seq<char>, step: StepModel },
}

impl AsicEvent {
    /// Whether the event is the one described.
    pub open spec fn shows(self, model: EventModel) -> bool {
        match (self, model) {
            (AsicEvent::Blank, EventModel::Blank) => true,
            (AsicEvent::BadJson, EventModel::BadJson) => true,
            (AsicEvent::Exhausted, EventModel::Exhausted) => true,
            (
                AsicEvent::Message { method, step },
                EventModel::Message { method: m, step: model },
            ) => method@ == m && step.shows(model),
            _ => false,
        }
    }
}

/// Whether a step that answers a subscription ends with the notice of the current
/// job, in a line that the miner reads as such.
pub open spec fn tells_current_job(step: AsicStep, msg: Json, book: BookModel) -> bool {
    method_of(msg) == "mining.subscribe"@ ==> (book.current matches Some(job) ==> {
        &&& step.replies@.len() == 3
        &&& carries(step.replies@[2]@, notify_message(job, true))
    })
}

/// What a line from a miner changes, and what comes of it.
pub open spec fn asic_line(
    s: SessionModel,
    line: Seq<char>,
    difficulty: Json,
    password: Option<Seq<char>>,
    book: BookModel,
) -> (SessionModel, EventModel) {
    if is_blank_text(line) {
        (s, EventModel::Blank)
    } else {
        match json_parse(line) {
            Some(msg) => if can_answer(s, msg, book) {
                let (next, step) = asic_step(s, msg, difficulty, password, book);
                (next, EventModel::Message { method: method_of(msg), step })
            } else {
                (s, EventModel::Exhausted)
            },
            None => (s, EventModel::BadJson),
        }
    }
}

/// Builds the line that submits a block, where a hash meets a job's target.
pub fn judge(job: &Job, hash: [u8; 32], nonce: u32, msg_id: u64) -> (r: Option<FoundBlock>)
    ensures
        match r {
            Some(f) => block_found(job@, hash@, nonce, msg_id) matches Some(m) && f.shows(m),
            None => block_found(job@, hash@, nonce, msg_id) is None,
        },
{
    if !hash_meets_target(&hash, &job.target) {
        return None;
    }
    let nonce_bytes = u32_to_le(nonce);
    let params = vec![
        json_string("asic-proxy".to_owned()),
        json_string(job.csd_job_id.clone()),
        json_string(job.en2_hex.clone()),
        json_string(job.ntime_hex.clone()),
        json_string(to_hex(nonce_bytes.as_slice())),
    ];
    assert(json_items(params@) =~= seq![
        Json::Str("asic-proxy"@),
        Json::Str(job@.csd_job_id),
        Json::Str(job@.en2_hex),
        Json::Str(job@.ntime_hex),
        Json::Str(hex_chars(le_bytes(nonce as nat, 4))),
    ]);
    proof {
        lemma_plain_call(Json::Uint(msg_id), "mining.submit"@, json_items(params@), 125);
    }
    let line = make_line(&make_call(json_uint(msg_id), "mining.submit", params));
    Some(FoundBlock { hash, line })
}

/// Reads the nonce of an answer.
pub fn read_nonce(nonce_hex: &str) -> (r: u32)
    requires
        hex_splits(nonce_hex@),
    ensures
        r == nonce_of(nonce_hex@),
{
    let b = from_hex(nonce_hex);
    if b.len() == 4 {
        let four = [b[0], b[1], b[2], b[3]];
        assert(four@ =~= b@);
        u32_from_le(four)
    } else {
        0
    }
}

/// Builds the header that an answer to a job stands for.
pub fn answer(job: &Job, en2_hex: &str, ntime_hex: &str, nonce_hex: &str) -> (r: [u8; 84])
    requires
        hex_splits(en2_hex@),
        hex_splits(nonce_hex@),
    ensures
        r@ == answer_header(job@, en2_hex@, ntime_hex@, nonce_hex@),
{
    let en1 = [0u8, 0u8, 0u8, 1u8];
    assert(en1@ =~= miner_extranonce1());
    let en2 = from_hex(en2_hex);
    let ntime32: u32 = match parse_hex_u32(ntime_hex) {
        Some(t) => t,
        None => 0,
    };
    let merkle = reconstruct_merkle(job, en1.as_slice(), en2.as_slice());
    build_csd_header(job, &merkle, ntime32, read_nonce(nonce_hex))
}

/// The text of an optional string.
pub open spec fn text_view(text: Option<&str>) -> Option<Seq<char>> {
    match text {
        Some(t) => Some(t@),
        None => None,
    }
}

fn one_line(msg: Value) -> (r: AsicStep)
    ensures
        r.shows(sends(seq![json_view(msg)])),
{
    AsicStep { replies: vec![make_line(&msg)], found: None, stale: None, close: false }
}

fn read_param(params: Option<&Vec<Value>>, i: usize) -> (r: String)
    ensures
        r@ == param_text(
            match params {
                Some(p) => json_items(p@),
                None => Seq::empty(),
            },
            i as int,
        ),
{
    proof {
        reveal_strlit("");
        assert(""@ =~= Seq::<char>::empty());
    }
    match params {
        Some(p) => if i < p.len() {
            assert(json_items(p@)[i as int] == json_view(p@[i as int]));
            read_text(&p[i], "")
        } else {
            String::new()
        },
        None => String::new(),
    }
}

fn count_params(params: Option<&Vec<Value>>) -> (r: usize)
    ensures
        r == match params {
            Some(p) => json_items(p@),
            None => Seq::<Json>::empty(),
        }.len(),
{
    match params {
        Some(p) => p.len(),
        None => 0,
    }
}

impl AsicSession {
    /// The state of a fresh connection.
    pub fn new() -> (r: Self)
        ensures
            r@ == (SessionModel { authorized: false, msg_id: 100 }),
    {
        AsicSession { authorized: false, msg_id: 100 }
    }

    /// Whether a message can be handled.
    pub fn can_handle(&self, msg: &Value, book: &JobBook) -> (r: bool)
        ensures
            r == can_answer(self@, json_view(*msg), book@),
    {
        let method = read_method(msg);
        let params = read_list(msg, "params");
        if !same_text(method.as_str(), "mining.submit") || !self.authorized || count_params(params)
            < 5 {
            return true;
        }
        let job_id = read_param(params, 1);
        match book.find(job_id.as_str()) {
            Some(_) => self.msg_id < u64::MAX,
            None => true,
        }
    }

    fn on_submit(&mut self, id: Value, params: &Vec<Value>, book: &JobBook) -> (r: AsicStep)
        requires
            json_items(params@).len() >= 5,
            lookup(book@, param_text(json_items(params@), 1)) is Some ==> old(self)@.msg_id
                < u64::MAX,
        ensures
            ({
                let (next, step) = submit_step(
                    old(self)@,
                    json_view(id),
                    json_items(params@),
                    book@,
                );
                final(self)@ == next && r.shows(step)
            }),
    {
        let mut step = one_line(make_grant(id));
        let job_id = read_param(Some(params), 1);
        match book.find(job_id.as_str()) {
            Some(job) => {
                let en2_hex = read_param(Some(params), 2);
                let ntime_hex = read_param(Some(params), 3);
                let nonce_hex = read_param(Some(params), 4);
                if !splits_into_pairs(en2_hex.as_str()) || !splits_into_pairs(nonce_hex.as_str()) {
                    return step;
                }
                let header = answer(
                    job,
                    en2_hex.as_str(),
                    ntime_hex.as_str(),
                    nonce_hex.as_str(),
                );
                let hash = sha256d(header.as_slice());
                let nonce: u32 = read_nonce(nonce_hex.as_str());
                let found = judge(job, hash, nonce, self.msg_id);
                if found.is_some() {
                    self.msg_id = self.msg_id + 1;
                }
                step.found = found;
            },
            None => {
                step.stale = Some(job_id);
            },
        }
        step
    }

    /// Handles a message from the miner. `difficulty` is what a subscribing miner
    /// is told, `password` what a miner has to log in with, if anything.
    pub fn on_message(
        &mut self,
        msg: &Value,
        difficulty: &Value,
        password: Option<&str>,
        book: &JobBook,
    ) -> (r: AsicStep)
        requires
            can_answer(old(self)@, json_view(*msg), book@),
        ensures
            ({
                let (next, step) = asic_step(
                    old(self)@,
                    json_view(*msg),
                    json_view(*difficulty),
                    text_view(password),
                    book@,
                );
                final(self)@ == next && r.shows(step)
            }),
            tells_current_job(r, json_view(*msg), book@),
    {
        let method = read_method(msg);
        let id = read_id(msg);
        let params = read_list(msg, "params");
        if same_text(method.as_str(), "mining.subscribe") {
            let en1 = [0u8, 0u8, 0u8, 1u8];
            assert(en1@ =~= miner_extranonce1());
            let result = make_subscription("d", "n", to_hex(en1.as_slice()), MINER_EXTRANONCE2_SIZE);
            let mut replies = vec![
                make_line(&make_reply(json_clone(&id), result, json_null())),
                make_line(&make_difficulty_notice(difficulty)),
            ];
            match &book.current {
                Some(job) => {
                    proof {
                        lemma_notify_is_plain(job@, true);
                    }
                    replies.push(make_line(&make_notify(job, true)));
                },
                None => {},
            }
            AsicStep { replies, found: None, stale: None, close: false }
        } else if same_text(method.as_str(), "mining.authorize") {
            match password {
                Some(required) => {
                    let given = read_param(params, 1);
                    if !same_text(given.as_str(), required) {
                        let mut step = one_line(
                            make_reply(id, json_bool(false), make_refusal(24, "Unauthorized")),
                        );
                        step.close = true;
                        return step;
                    }
                },
                None => {},
            }
            self.authorized = true;
            one_line(make_grant(id))
        } else if same_text(method.as_str(), "mining.extranonce.subscribe") {
            one_line(make_grant(id))
        } else if same_text(method.as_str(), "mining.submit") {
            if !self.authorized {
                return one_line(
                    make_reply(id, json_bool(false), make_refusal(24, "Unauthorized")),
                );
            }
            match params {
                Some(p) => if p.len() >= 5 {
                    return self.on_submit(id, p, book);
                },
                None => {},
            }
            one_line(make_reply(id, json_bool(false), make_refusal(20, "bad params")))
        } else {
            one_line(make_reply(id, json_null(), make_refusal(20, "unknown")))
        }
    }

    /// Handles a line from the miner. Nothing changes where the message cannot be
    /// handled: an answer to a known job when the identifiers are used up.
    pub fn on_line(
        &mut self,
        line: &str,
        difficulty: &Value,
        password: Option<&str>,
        book: &JobBook,
    ) -> (r: AsicEvent)
        ensures
            ({
                let (next, event) = asic_line(
                    old(self)@,
                    line@,
                    json_view(*difficulty),
                    text_view(password),
                    book@,
                );
                final(self)@ == next && r.shows(event)
            }),
            r matches AsicEvent::Message { step, .. } ==> tells_current_job(
                step,
                json_parse(line@).unwrap(),
                book@,
            ),
    {
        if is_blank(line) {
            return AsicEvent::Blank;
        }
        match parse_json(line) {
            Ok(msg) => if self.can_handle(&msg, book) {
                let method = read_method(&msg);
                let step = self.on_message(&msg, difficulty, password, book);
                AsicEvent::Message { method, step }
            } else {
                AsicEvent::Exhausted
            },
            Err(_) => AsicEvent::BadJson,
        }
    }
}

proof fn lemma_step_replies(
    s: SessionModel,
    msg: Json,
    difficulty: Json,
    password: Option<Seq<char>>,
    book: BookModel,
)
    ensures
        ({
            let step = asic_step(s, msg, difficulty, password, book).1;
            &&& step.replies.len() > 0
            &&& exists|result: Json, error: Json|
                step.replies[0] == #[trigger] reply(id_of(msg), result, error)
        }),
{
    let id = id_of(msg);
    let step = asic_step(s, msg, difficulty, password, book).1;
    let none = Json::Null;
    let grant = reply(id, Json::Bool(true), none);
    let refuse = reply(id, Json::Bool(false), refusal(24, "Unauthorized"@));
    let bad = reply(id, Json::Bool(false), refusal(20, "bad params"@));
    let unknown = reply(id, none, refusal(20, "unknown"@));
    let welcome = reply(
        id,
        subscription("d"@, "n"@, hex_chars(miner_extranonce1()), MINER_EXTRANONCE2_SIZE),
        none,
    );
    assert(step.replies[0] == grant || step.replies[0] == refuse || step.replies[0] == bad
        || step.replies[0] == unknown || step.replies[0] == welcome);
}

/// Every line that is a message and comes while there are identifiers for blocks
/// is answered, first of all by a reply under the message's identifier.
pub proof fn law_every_message_is_answered(
    s: SessionModel,
    line: Seq<char>,
    msg: Json,
    difficulty: Json,
    password: Option<Seq<char>>,
    book: BookModel,
)
    requires
        reads_as(line, msg),
        s.msg_id < u64::MAX,
    ensures
        asic_line(s, line, difficulty, password, book).1 matches EventModel::Message { method, step }
            && method == method_of(msg) && step.replies.len() > 0 && exists|
            result: Json,
            error: Json,
        |
            step.replies[0] == #[trigger] reply(id_of(msg), result, error),
{
    lemma_step_replies(s, msg, difficulty, password, book);
}

proof fn lemma_submit_is_no_other_method()
    ensures
        "mining.submit"@ != "mining.subscribe"@,
        "mining.submit"@ != "mining.authorize"@,
        "mining.submit"@ != "mining.extranonce.subscribe"@,
{
    reveal_strlit("mining.submit");
    reveal_strlit("mining.subscribe");
    reveal_strlit("mining.authorize");
    reveal_strlit("mining.extranonce.subscribe");
    assert("mining.submit"@.len() == 13);
    assert("mining.subscribe"@.len() == 16);
    assert("mining.authorize"@.len() == 16);
    assert("mining.extranonce.subscribe"@.len() == 27);
}

/// An answer from a miner that has not logged in is refused, and neither changes
/// anything nor reaches the node.
pub proof fn law_answer_needs_login(
    s: SessionModel,
    line: Seq<char>,
    msg: Json,
    difficulty: Json,
    password: Option<Seq<char>>,
    book: BookModel,
)
    requires
        reads_as(line, msg),
        !s.authorized,
        method_of(msg) == "mining.submit"@,
    ensures
        asic_line(s, line, difficulty, password, book) == (
            s,
            EventModel::Message {
                method: "mining.submit"@,
                step: sends(seq![unauthorized(id_of(msg))]),
            },
        ),
{
    lemma_submit_is_no_other_method();
}

/// A miner becomes authorized only by logging in with the password, where there
/// is one, and stays so, whatever line it sends.
pub proof fn law_login_needs_password(
    s: SessionModel,
    line: Seq<char>,
    difficulty: Json,
    password: Option<Seq<char>>,
    book: BookModel,
)
    ensures
        ({
            let next = asic_line(s, line, difficulty, password, book).0;
            &&& s.authorized ==> next.authorized
            &&& next.authorized && !s.authorized ==> {
                &&& json_parse(line) matches Some(msg) && reads_as(line, msg) && method_of(msg)
                    == "mining.authorize"@ && (password is Some ==> param_text(params_of(msg), 1)
                    == password.unwrap())
            }
        }),
{
}

/// A block goes to the node exactly where an authorized miner answers a known
/// job with a hash that meets the job's target; the answer itself is granted
/// either way.
pub proof fn law_block_needs_target(
    s: SessionModel,
    line: Seq<char>,
    msg: Json,
    difficulty: Json,
    password: Option<Seq<char>>,
    book: BookModel,
    job: JobModel,
)
    requires
        reads_as(line, msg),
        s.authorized,
        s.msg_id < u64::MAX,
        method_of(msg) == "mining.submit"@,
        params_of(msg).len() >= 5,
        answer_splits(params_of(msg)),
        lookup(book, param_text(params_of(msg), 1)) == Some(job),
    ensures
        ({
            let p = params_of(msg);
            let hash = double_sha256(
                answer_header(job, param_text(p, 2), param_text(p, 3), param_text(p, 4)),
            );
            let found = block_found(job, hash, nonce_of(param_text(p, 4)), s.msg_id);
            &&& found is Some <==> be_value(hash) <= be_value(job.target)
            &&& asic_line(s, line, difficulty, password, book) == (
                if found is Some {
                    SessionModel { msg_id: (s.msg_id + 1) as u64, ..s }
                } else {
                    s
                },
                EventModel::Message {
                    method: "mining.submit"@,
                    step: StepModel { found, ..sends(seq![granted(id_of(msg))]) },
                },
            )
        }),
{
    lemma_submit_is_no_other_method();
}

/// An answer to a known job whose texts do not fall into pairs of whole
/// characters is granted and goes no further.
pub proof fn law_unreadable_answer_goes_no_further(
    s: SessionModel,
    line: Seq<char>,
    msg: Json,
    difficulty: Json,
    password: Option<Seq<char>>,
    book: BookModel,
)
    requires
        reads_as(line, msg),
        s.authorized,
        s.msg_id < u64::MAX,
        method_of(msg) == "mining.submit"@,
        params_of(msg).len() >= 5,
        !answer_splits(params_of(msg)),
        lookup(book, param_text(params_of(msg), 1)) is Some,
    ensures
        asic_line(s, line, difficulty, password, book) == (
            s,
            EventModel::Message {
                method: "mining.submit"@,
                step: sends(seq![granted(id_of(msg))]),
            },
        ),
{
    lemma_submit_is_no_other_method();
}

/// An answer to a job that the proxy does not know is granted and goes no
/// further.
pub proof fn law_stale_answer_goes_no_further(
    s: SessionModel,
    line: Seq<char>,
    msg: Json,
    difficulty: Json,
    password: Option<Seq<char>>,
    book: BookModel,
)
    requires
        reads_as(line, msg),
        s.authorized,
        method_of(msg) == "mining.submit"@,
        params_of(msg).len() >= 5,
        lookup(book, param_text(params_of(msg), 1)) is None,
    ensures
        asic_line(s, line, difficulty, password, book) == (
            s,
            EventModel::Message {
                method: "mining.submit"@,
                step: StepModel {
                    stale: Some(param_text(params_of(msg), 1)),
                    ..sends(seq![granted(id_of(msg))])
                },
            },
        ),
{
    lemma_submit_is_no_other_method();
}

/// All that is sent to a miner whose requests have plain identifiers is plain, and so
/// read as it was meant, but for the difficulty where that is not plain.
pub proof fn law_replies_are_plain(
    s: SessionModel,
    msg: Json,
    difficulty: Json,
    password: Option<Seq<char>>,
    book: BookModel,
    i: int,
)
    requires
        plain(id_of(msg), 126),
        0 <= i < asic_step(s, msg, difficulty, password, book).1.replies.len(),
    ensures
        ({
            let m = asic_step(s, msg, difficulty, password, book).1.replies[i];
            plain(m, MAX_NESTING as nat) || m == difficulty_notice(difficulty)
        }),
{
    let id = id_of(msg);
    let none = Json::Null;
    let en1 = hex_chars(miner_extranonce1());
    lemma_plain_subscription("d"@, "n"@, en1, MINER_EXTRANONCE2_SIZE, 126);
    lemma_plain_refusal(24, "Unauthorized"@, 126);
    lemma_plain_refusal(20, "bad params"@, 126);
    lemma_plain_refusal(20, "unknown"@, 126);
    lemma_plain_reply(id, subscription("d"@, "n"@, en1, MINER_EXTRANONCE2_SIZE), none, 126);
    lemma_plain_reply(id, Json::Bool(true), none, 126);
    lemma_plain_reply(id, Json::Bool(false), refusal(24, "Unauthorized"@), 126);
    lemma_plain_reply(id, Json::Bool(false), refusal(20, "bad params"@), 126);
    lemma_plain_reply(id, none, refusal(20, "unknown"@), 126);
    if let Some(job) = book.current {
        lemma_notify_is_plain(job, true);
    }
}

/// The nonce in a block submission reads as the four bytes that the miner sent.
pub proof fn law_nonce_is_passed_on(nonce_hex: Seq<char>)
    requires
        hex_read(nonce_hex).len() == 4,
    ensures
        hex_read(hex_chars(le_bytes(nonce_of(nonce_hex) as nat, 4))) == hex_read(nonce_hex),
{
    let b = hex_read(nonce_hex);
    law_le_value_read_back(b);
    reveal_with_fuel(bytes_span, 5);
    law_hex_reads_back(b);
}

}
