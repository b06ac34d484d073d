//! The mining server's side of a worker's connection.

use vstd::prelude::*;

use serde_json::Value;

use crate::hextext::{hex_chars, hex_encode};
use crate::json::{
    all_sent, carries, difficulty_notice, id_of, json_array, json_clone, json_items, json_null,
    json_parse, json_view, lemma_plain_refusal, lemma_plain_reply, lemma_plain_subscription,
    make_difficulty_notice, make_grant, make_line, make_refusal, make_reply, make_subscription,
    method_of, params_of, parse_json, plain, read_id, read_list, read_method, read_text, reads_as,
    refusal, reply, sent, subscription, text_or, Json, MAX_NESTING,
};
use crate::proxy::asic::granted;
use crate::stratum::job::{lemma_notify_is_plain, notify_message, Job, JobModel};
use crate::stratum::share::{error_text, ErrorModel, ShareError, ShareOutcome};
use crate::stratum::state::StratumState;
use crate::stratum::template::EXTRANONCE2_BYTES;
use crate::stratum::vardiff::{after_share, Vardiff};
use crate::text::{is_blank, is_blank_text, same_text};

verus! {

/// What the server remembers of a worker.
#[derive(Debug)]
pub struct Worker {
    pub extranonce1: [u8; 4],
    /// Whether the worker has logged in.
    pub authorized: bool,
    /// Whether the worker wants to hear of new jobs.
    pub subscribed: bool,
}

/// What a [`Worker`] holds.
#[verifier::ext_equal]
pub struct WorkerModel {
    pub extranonce1: Seq<u8>,
    pub authorized: bool,
    pub subscribed: bool,
}

impl View for Worker {
    type V = WorkerModel;

    open spec fn view(&self) -> WorkerModel {
        WorkerModel {
            extranonce1: self.extranonce1@,
            authorized: self.authorized,
            subscribed: self.subscribed,
        }
    }
}

/// A worker's answer to a job, as it came.
pub struct Submission {
    /// The identifier of the request.
    pub id: Value,
    pub job_id: String,
    pub en2_hex: String,
    pub ntime_hex: String,
    pub nonce_hex: String,
}

/// What a message from a worker asks of the server.
pub enum WorkerStep {
    /// To send these lines.
    Send(Vec<String>),
    /// To send these lines; the method is not known.
    Unknown(Vec<String>),
    /// To judge this answer.
    Judge(Submission),
}

/// What a message from a worker asks for, with messages in place of the lines that
/// are sent for them.
pub enum StepModel {
    Send(Seq<Json>),
    Unknown(Seq<Json>),
    Judge {
        id: Json,
        job_id: Seq<char>,
        en2_hex: Seq<char>,
        ntime_hex: Seq<char>,
        nonce_hex: Seq<char>,
    },
}

impl WorkerStep {
    /// Whether the step is the one described.
    pub open spec fn shows(self, model: StepModel) -> bool {
        match (self, model) {
            (WorkerStep::Send(lines), StepModel::Send(msgs)) => all_sent(lines@, msgs),
            (WorkerStep::Unknown(lines), StepModel::Unknown(msgs)) => all_sent(lines@, msgs),
            (
                WorkerStep::Judge(s),
                StepModel::Judge { id, job_id, en2_hex, ntime_hex, nonce_hex },
            ) => {
                &&& json_view(s.id) == id
                &&& s.job_id@ == job_id
                &&& s.en2_hex@ == en2_hex
                &&& s.ntime_hex@ == ntime_hex
                &&& s.nonce_hex@ == nonce_hex
            },
            _ => false,
        }
    }
}

/// What came of a line from a worker.
pub enum WorkerEvent {
    /// The line is blank.
    Blank,
    /// The line is no JSON.
    BadJson,
    /// The message calls this method and asks for this step; an answer speaks of
    /// this job.
    Message { method: String, job: Option<String>, step: WorkerStep },
}

/// What came of a line from a worker, with messages in place of the lines that are
/// sent for them.
pub enum EventModel {
    Blank,
    BadJson,
    Message { method: Seq<char>, job: Option<Seq<char>>, step: StepModel },
}

impl WorkerEvent {
    /// Whether the event is the one described.
    pub open spec fn shows(self, model: EventModel) -> bool {
        match (self, model) {
            (WorkerEvent::Blank, EventModel::Blank) => true,
            (WorkerEvent::BadJson, EventModel::BadJson) => true,
            (
                WorkerEvent::Message { method, job, step },
                EventModel::Message { method: m, job: j, step: model },
            ) => {
                &&& method@ == m
                &&& match (job, j) {
                    (Some(label), Some(text)) => label@ == text,
                    (None, None) => true,
                    _ => false,
                }
                &&& step.shows(model)
            },
            _ => false,
        }
    }
}

/// The job that an answer speaks of, a question mark where that is no string;
/// `None` for another message.
pub open spec fn job_label(msg: Json) -> Option<Seq<char>> {
    if method_of(msg) == "mining.submit"@ {
        Some(
            if params_of(msg).len() > 1 {
                text_or(params_of(msg)[1], "?"@)
            } else {
                "?"@
            },
        )
    } else {
        None
    }
}

/// The reply to a subscription.
pub open spec fn welcome(id: Json, extranonce1: Seq<u8>) -> Json {
    reply(
        id,
        subscription(
            "sub_diff"@,
            "sub_notify"@,
            hex_chars(extranonce1),
            EXTRANONCE2_BYTES as u64,
        ),
        Json::Null,
    )
}

/// The notice of the current job, where there is one.
pub open spec fn current_notice(current: Option<JobModel>, clean: bool) -> Seq<Json> {
    match current {
        Some(job) => seq![notify_message(job, clean)],
        None => Seq::empty(),
    }
}

/// What a message of a worker changes, and what it asks for.
pub open spec fn worker_step(
    w: WorkerModel,
    msg: Json,
    difficulty: Json,
    current: Option<JobModel>,
) -> (WorkerModel, StepModel) {
    let method = method_of(msg);
    let id = id_of(msg);
    let params = params_of(msg);
    if method == "mining.subscribe"@ {
        (
            WorkerModel { subscribed: true, ..w },
            StepModel::Send(
                seq![welcome(id, w.extranonce1), difficulty_notice(difficulty)],
            ),
        )
    } else if method == "mining.authorize"@ {
        (
            WorkerModel { authorized: true, ..w },
            StepModel::Send(
                seq![granted(id), difficulty_notice(difficulty)] + current_notice(current, true),
            ),
        )
    } else if method == "mining.submit"@ {
        if params.len() < 5 {
            (
                w,
                StepModel::Send(
                    seq![reply(id, Json::Null, refusal(20, "malformed submit"@))],
                ),
            )
        } else {
            (
                w,
                StepModel::Judge {
                    id,
                    job_id: text_or(params[1], Seq::empty()),
                    en2_hex: text_or(params[2], Seq::empty()),
                    ntime_hex: text_or(params[3], Seq::empty()),
                    nonce_hex: text_or(params[4], Seq::empty()),
                },
            )
        }
    } else if method == "mining.get_transactions"@ {
        (
            w,
            StepModel::Send(seq![reply(id, Json::Arr(Seq::empty()), Json::Null)]),
        )
    } else if method == "mining.extranonce.subscribe"@ {
        (w, StepModel::Send(seq![granted(id)]))
    } else {
        (w, StepModel::Unknown(seq![reply(id, Json::Null, refusal(20, "unknown method"@))]))
    }
}

/// What a line of a worker changes, and what comes of it.
pub open spec fn worker_line(
    w: WorkerModel,
    line: Seq<char>,
    difficulty: Json,
    current: Option<JobModel>,
) -> (WorkerModel, EventModel) {
    if is_blank_text(line) {
        (w, EventModel::Blank)
    } else {
        match json_parse(line) {
            Some(msg) => {
                let (next, step) = worker_step(w, msg, difficulty, current);
                (next, EventModel::Message { method: method_of(msg), job: job_label(msg), step })
            },
            None => (w, EventModel::BadJson),
        }
    }
}

/// The reply to an answer: granted for a share or a block, and otherwise refused
/// with the text of the error.
pub open spec fn verdict_reply(id: Json, verdict: Result<ShareOutcome, ErrorModel>) -> Json {
    match verdict {
        Ok(_) => reply(id, Json::Bool(true), Json::Null),
        Err(e) => reply(id, Json::Null, refusal(20, error_text(e))),
    }
}

/// Whether a step that answers a login ends with the notice of the current job, in a
/// line that the worker reads as such.
pub open spec fn tells_current_job(step: WorkerStep, msg: Json, current: Option<JobModel>) -> bool {
    method_of(msg) == "mining.authorize"@ ==> (current matches Some(job) ==> (step matches
        WorkerStep::Send(lines) && lines@.len() == 3 && carries(
        lines@[2]@,
        notify_message(job, true),
    )))
}

fn send_one(msg: Value) -> (r: WorkerStep)
    ensures
        r.shows(StepModel::Send(seq![json_view(msg)])),
{
    WorkerStep::Send(vec![make_line(&msg)])
}

fn read_label(msg: &Value) -> (r: Option<String>)
    ensures
        match (r, job_label(json_view(*msg))) {
            (Some(label), Some(text)) => label@ == text,
            (None, None) => true,
            _ => false,
        },
{
    let method = read_method(msg);
    if !same_text(method.as_str(), "mining.submit") {
        return None;
    }
    match read_list(msg, "params") {
        Some(p) => if p.len() > 1 {
            assert(json_items(p@)[1] == json_view(p@[1]));
            return Some(read_text(&p[1], "?"));
        },
        None => {},
    }
    Some("?".to_owned())
}

fn read_submission(id: Value, p: &Vec<Value>) -> (r: WorkerStep)
    requires
        p@.len() >= 5,
    ensures
        r.shows(StepModel::Judge {
            id: json_view(id),
            job_id: text_or(json_items(p@)[1], Seq::empty()),
            en2_hex: text_or(json_items(p@)[2], Seq::empty()),
            ntime_hex: text_or(json_items(p@)[3], Seq::empty()),
            nonce_hex: text_or(json_items(p@)[4], Seq::empty()),
        }),
{
    proof {
        reveal_strlit("");
        assert(""@ =~= Seq::<char>::empty());
        let items = json_items(p@);
        assert(items[1] == json_view(p@[1]) && items[2] == json_view(p@[2]));
        assert(items[3] == json_view(p@[3]) && items[4] == json_view(p@[4]));
    }
    WorkerStep::Judge(
        Submission {
            id,
            job_id: read_text(&p[1], ""),
            en2_hex: read_text(&p[2], ""),
            ntime_hex: read_text(&p[3], ""),
            nonce_hex: read_text(&p[4], ""),
        },
    )
}

impl Worker {
    /// A worker that has just connected.
    pub fn new(extranonce1: [u8; 4]) -> (r: Self)
        ensures
            r@ == (WorkerModel {
                extranonce1: extranonce1@,
                authorized: false,
                subscribed: false,
            }),
    {
        Worker { extranonce1, authorized: false, subscribed: false }
    }

    /// Handles a message from the worker. `difficulty` is the worker's own.
    pub fn on_message(&mut self, msg: &Value, difficulty: &Value, state: &StratumState) -> (r:
        WorkerStep)
        ensures
            ({
                let (next, step) = worker_step(
                    old(self)@,
                    json_view(*msg),
                    json_view(*difficulty),
                    state@.current_job,
                );
                final(self)@ == next && r.shows(step)
            }),
            tells_current_job(r, json_view(*msg), state@.current_job),
    {
        let method = read_method(msg);
        let id = read_id(msg);
        proof {
            reveal_strlit("mining.subscribe");
            reveal_strlit("mining.authorize");
            assert("mining.subscribe"@[7] != "mining.authorize"@[7]);
        }
        if same_text(method.as_str(), "mining.subscribe") {
            self.subscribed = true;
            let result = make_subscription(
                "sub_diff",
                "sub_notify",
                hex_encode(self.extranonce1.as_slice()),
                EXTRANONCE2_BYTES as u64,
            );
            let lines = vec![
                make_line(&make_reply(json_clone(&id), result, json_null())),
                make_line(&make_difficulty_notice(difficulty)),
            ];
            WorkerStep::Send(lines)
        } else if same_text(method.as_str(), "mining.authorize") {
            self.authorized = true;
            let mut lines = vec![
                make_line(&make_grant(json_clone(&id))),
                make_line(&make_difficulty_notice(difficulty)),
            ];
            match &state.current_job {
                Some(job) => {
                    proof {
                        lemma_notify_is_plain(job@, true);
                    }
                    lines.push(make_line(&job.to_notify(true)));
                },
                None => {},
            }
            WorkerStep::Send(lines)
        } else if same_text(method.as_str(), "mining.submit") {
            match read_list(msg, "params") {
                Some(p) => if p.len() >= 5 {
                    return read_submission(id, p);
                },
                None => {},
            }
            send_one(make_reply(id, json_null(), make_refusal(20, "malformed submit")))
        } else if same_text(method.as_str(), "mining.get_transactions") {
            let none: Vec<Value> = Vec::new();
            assert(json_items(none@) =~= Seq::empty());
            send_one(make_reply(id, json_array(none), json_null()))
        } else if same_text(method.as_str(), "mining.extranonce.subscribe") {
            send_one(make_grant(id))
        } else {
            let refused = make_reply(id, json_null(), make_refusal(20, "unknown method"));
            WorkerStep::Unknown(vec![make_line(&refused)])
        }
    }

    /// Handles a line from the worker.
    pub fn on_line(&mut self, line: &str, difficulty: &Value, state: &StratumState) -> (r:
        WorkerEvent)
        ensures
            ({
                let (next, event) = worker_line(
                    old(self)@,
                    line@,
                    json_view(*difficulty),
                    state@.current_job,
                );
                final(self)@ == next && r.shows(event)
            }),
            r matches WorkerEvent::Message { step, .. } ==> tells_current_job(
                step,
                json_parse(line@).unwrap(),
                state@.current_job,
            ),
    {
        if is_blank(line) {
            return WorkerEvent::Blank;
        }
        match parse_json(line) {
            Ok(msg) => {
                let method = read_method(&msg);
                let job = read_label(&msg);
                let step = self.on_message(&msg, difficulty, state);
                WorkerEvent::Message { method, job, step }
            },
            Err(_) => WorkerEvent::BadJson,
        }
    }

    /// The line that tells the worker of a new job, where it wants to hear of it.
    pub fn on_job(&self, job: &Job) -> (r: Option<String>)
        ensures
            match r {
                Some(line) => {
                    &&& self@.subscribed
                    &&& sent(line@, notify_message(job@, true))
                    &&& carries(line@, notify_message(job@, true))
                },
                None => !self@.subscribed,
            },
    {
        if self.subscribed {
            proof {
                lemma_notify_is_plain(job@, true);
            }
            Some(make_line(&job.to_notify(true)))
        } else {
            None
        }
    }
}

/// What comes to a worker about jobs.
#[derive(Debug)]
pub enum JobEvent {
    /// This job is new.
    New(Job),
    /// Jobs were missed because too many came.
    Lagged,
    /// No more jobs will come.
    Closed,
}

/// What is to be done with a worker about a job.
#[derive(Debug)]
pub enum JobStep {
    /// Nothing.
    Nothing,
    /// To send this line.
    Send(String),
    /// To close the connection.
    Close,
}

/// What is to be done with a worker about a job, with a message in place of the line
/// that is sent for it.
pub enum JobStepModel {
    Nothing,
    Send(Json),
    Close,
}

impl JobStep {
    /// Whether the step is the one described, with a line that the worker reads as
    /// the message.
    pub open spec fn shows(self, model: JobStepModel) -> bool {
        match (self, model) {
            (JobStep::Nothing, JobStepModel::Nothing) => true,
            (JobStep::Send(line), JobStepModel::Send(msg)) => sent(line@, msg) && carries(
                line@,
                msg,
            ),
            (JobStep::Close, JobStepModel::Close) => true,
            _ => false,
        }
    }
}

/// The job that an event is about: the new one, or the current one after some
/// were missed.
pub open spec fn event_job(event: JobEvent, current: Option<JobModel>) -> Option<JobModel> {
    match event {
        JobEvent::New(job) => Some(job@),
        JobEvent::Lagged => current,
        JobEvent::Closed => None,
    }
}

/// What an event about jobs asks for: a subscribed worker is told of the job, and
/// drops earlier ones.
pub open spec fn job_step(w: WorkerModel, event: JobEvent, current: Option<JobModel>) -> JobStepModel {
    if event is Closed {
        JobStepModel::Close
    } else {
        match event_job(event, current) {
            Some(job) => if w.subscribed {
                JobStepModel::Send(notify_message(job, true))
            } else {
                JobStepModel::Nothing
            },
            None => JobStepModel::Nothing,
        }
    }
}

impl Worker {
    /// Handles what comes to the worker about jobs.
    pub fn on_job_event(&self, event: JobEvent, state: &StratumState) -> (r: JobStep)
        ensures
            r.shows(job_step(self@, event, state@.current_job)),
    {
        let line = match event {
            JobEvent::New(job) => self.on_job(&job),
            JobEvent::Lagged => match &state.current_job {
                Some(job) => self.on_job(job),
                None => None,
            },
            JobEvent::Closed => {
                return JobStep::Close;
            },
        };
        match line {
            Some(line) => JobStep::Send(line),
            None => JobStep::Nothing,
        }
    }
}

/// Counts an answer that comes some whole seconds after the difficulty was last
/// reconsidered: a share where it was accepted, and nothing where it was refused.
/// The shares to reconsider the difficulty by come back, where the time is up.
pub fn after_verdict(
    verdict: &Result<ShareOutcome, ShareError>,
    shares: &mut Vardiff,
    elapsed_secs: u64,
) -> (r: Option<u64>)
    requires
        verdict is Ok ==> old(shares).shares_since_retarget < u64::MAX,
    ensures
        match verdict {
            Ok(_) => {
                let (count, due) = after_share(
                    old(shares).shares_since_retarget as nat,
                    elapsed_secs,
                );
                &&& final(shares).shares_since_retarget == count
                &&& match r {
                    Some(n) => due == Some(n as nat),
                    None => due is None,
                }
            },
            Err(_) => r is None && *final(shares) == *old(shares),
        },
{
    match verdict {
        Ok(_) => shares.on_share(elapsed_secs),
        Err(_) => None,
    }
}

/// What a verdict on an answer holds.
pub open spec fn verdict_view(verdict: Result<ShareOutcome, ShareError>) -> Result<
    ShareOutcome,
    ErrorModel,
> {
    match verdict {
        Ok(outcome) => Ok(outcome),
        Err(e) => Err(e@),
    }
}

/// The line that answers a worker's answer.
pub fn verdict_line(id: Value, verdict: &Result<ShareOutcome, ShareError>) -> (r: String)
    ensures
        sent(r@, verdict_reply(json_view(id), verdict_view(*verdict))),
        plain(json_view(id), 126) ==> carries(
            r@,
            verdict_reply(json_view(id), verdict_view(*verdict)),
        ),
{
    proof {
        let (id, none) = (json_view(id), Json::Null);
        if plain(id, 126) {
            lemma_plain_reply(id, Json::Bool(true), none, 126);
            if let Err(e) = verdict_view(*verdict) {
                let text = error_text(e);
                lemma_plain_refusal(20, text, 126);
                lemma_plain_reply(id, none, refusal(20, text), 126);
            }
        }
    }
    match verdict {
        Ok(_) => make_line(&make_grant(id)),
        Err(e) => {
            let text = e.message();
            make_line(&make_reply(id, json_null(), make_refusal(20, text.as_str())))
        },
    }
}

/// What tells a worker its new difficulty: the difficulty and, without dropping
/// earlier jobs, the current job.
pub open spec fn retarget_messages(difficulty: Json, current: Option<JobModel>) -> Seq<Json> {
    seq![difficulty_notice(difficulty)] + current_notice(current, false)
}

/// The lines that tell a worker its new difficulty.
pub fn retarget_lines(difficulty: &Value, state: &StratumState) -> (r: Vec<String>)
    ensures
        all_sent(r@, retarget_messages(json_view(*difficulty), state@.current_job)),
        state@.current_job matches Some(job) ==> carries(r@.last()@, notify_message(job, false)),
{
    let mut lines = vec![make_line(&make_difficulty_notice(difficulty))];
    match &state.current_job {
        Some(job) => {
            proof {
                lemma_notify_is_plain(job@, false);
            }
            lines.push(make_line(&job.to_notify(false)));
        },
        None => {},
    }
    lines
}

/// Whether the first of some messages is a reply under an identifier.
pub open spec fn first_replies(msgs: Seq<Json>, id: Json) -> bool {
    msgs.len() > 0 && exists|result: Json, error: Json|
        msgs[0] == #[trigger] reply(id, result, error)
}

/// Every line of a worker that is a message but no answer is answered first of all
/// by a reply under the message's identifier; an answer goes to be judged under
/// its identifier.
pub proof fn law_every_message_is_answered(
    w: WorkerModel,
    line: Seq<char>,
    msg: Json,
    difficulty: Json,
    current: Option<JobModel>,
)
    requires
        reads_as(line, msg),
    ensures
        worker_line(w, line, difficulty, current).1 matches EventModel::Message { step, .. }
            && match step {
            StepModel::Send(msgs) => first_replies(msgs, id_of(msg)),
            StepModel::Unknown(msgs) => first_replies(msgs, id_of(msg)),
            StepModel::Judge { id, .. } => id == id_of(msg),
        },
{
    let id = id_of(msg);
    let none = Json::Null;
    let grant = granted(id);
    let malformed = reply(id, none, refusal(20, "malformed submit"@));
    let unknown = reply(id, none, refusal(20, "unknown method"@));
    let nothing = reply(id, Json::Arr(Seq::empty()), none);
    let hello = welcome(id, w.extranonce1);
    assert(hello == reply(
        id,
        subscription(
            "sub_diff"@,
            "sub_notify"@,
            hex_chars(w.extranonce1),
            EXTRANONCE2_BYTES as u64,
        ),
        none,
    ));
    assert(grant == reply(id, Json::Bool(true), none));
    if let StepModel::Send(msgs) = worker_step(w, msg, difficulty, current).1 {
        assert(msgs[0] == grant || msgs[0] == malformed || msgs[0] == nothing || msgs[0] == hello);
    }
}

/// All that answers a worker whose requests have plain identifiers is plain, and so
/// read as it was meant, but for the difficulty where that is not plain.
pub proof fn law_replies_are_plain(
    w: WorkerModel,
    msg: Json,
    difficulty: Json,
    current: Option<JobModel>,
    i: int,
)
    requires
        plain(id_of(msg), 126),
    ensures
        match worker_step(w, msg, difficulty, current).1 {
            StepModel::Send(msgs) => 0 <= i < msgs.len() ==> plain(msgs[i], MAX_NESTING as nat)
                || msgs[i] == difficulty_notice(difficulty),
            StepModel::Unknown(msgs) => 0 <= i < msgs.len() ==> plain(
                msgs[i],
                MAX_NESTING as nat,
            ),
            StepModel::Judge { id, .. } => plain(id, 126),
        },
{
    let id = id_of(msg);
    let none = Json::Null;
    let en1 = hex_chars(w.extranonce1);
    let size = EXTRANONCE2_BYTES as u64;
    let empty = Json::Arr(Seq::empty());
    assert(plain(empty, 126));
    lemma_plain_subscription("sub_diff"@, "sub_notify"@, en1, size, 126);
    lemma_plain_refusal(20, "malformed submit"@, 126);
    lemma_plain_refusal(20, "unknown method"@, 126);
    lemma_plain_reply(id, subscription("sub_diff"@, "sub_notify"@, en1, size), none, 126);
    lemma_plain_reply(id, Json::Bool(true), none, 126);
    lemma_plain_reply(id, none, refusal(20, "malformed submit"@), 126);
    lemma_plain_reply(id, none, refusal(20, "unknown method"@), 126);
    lemma_plain_reply(id, empty, none, 126);
    if let Some(job) = current {
        lemma_notify_is_plain(job, true);
    }
}

/// A worker keeps its extranonce 1, and its login and subscription once it has
/// them, whatever line it sends.
pub proof fn law_worker_keeps_what_it_has(
    w: WorkerModel,
    line: Seq<char>,
    difficulty: Json,
    current: Option<JobModel>,
)
    ensures
        ({
            let next = worker_line(w, line, difficulty, current).0;
            &&& next.extranonce1 == w.extranonce1
            &&& w.authorized ==> next.authorized
            &&& w.subscribed ==> next.subscribed
        }),
{
}

/// A worker that fell behind in hearing of jobs is told the current one, as it
/// would be of that job when it was new.
pub proof fn law_lagging_worker_catches_up(w: WorkerModel, job: Job)
    ensures
        job_step(w, JobEvent::Lagged, Some(job@)) == job_step(w, JobEvent::New(job), Some(job@)),
{
}

}
