use csd_asic_proxy::hextext::to_hex;
use csd_asic_proxy::merkle::fold;
use csd_asic_proxy::proxy::book::JobBook;
use csd_asic_proxy::proxy::upstream::{opening, Upstream, UpstreamAction};
use csd_asic_proxy::stratum::flow::{ShareAction, ShareEvent, ShareFlow};
use csd_asic_proxy::stratum::job::{Job, Tx};
use csd_asic_proxy::stratum::share::{
    check_block_size, check_tip, judge_share, open_share, OpenShare, ShareError, ShareOutcome,
};
use csd_asic_proxy::stratum::state::StratumState;
use csd_asic_proxy::stratum::template::{
    build_job, can_build, extranonce_placeholder, find_extranonce_offset, job_parent, next_height,
    parent_to_look_up, template_room, template_time, tip_or_zeros, BuildError, Dispatcher, Parent,
    Template,
};
use csd_asic_proxy::stratum::vardiff::Vardiff;
use csd_asic_proxy::stratum::worker::{
    after_verdict, retarget_lines, verdict_line, JobEvent, JobStep, Submission, Worker, WorkerEvent,
    WorkerStep,
};
use csd_asic_proxy::target::diff_to_target;
use serde_json::Value;

fn tx(n: u8) -> Tx {
    Tx { txid: [n; 32], bytes: vec![n, n] }
}

fn template() -> Template {
    let mut coinbase = vec![0xaa, 0xbb];
    coinbase.extend_from_slice(&100u64.to_le_bytes());
    coinbase.push(0);
    coinbase.extend_from_slice(&extranonce_placeholder());
    coinbase.extend_from_slice(&[0xcc, 0xdd]);
    Template {
        tip: Some([7; 32]),
        parent: Some(Parent { height: 99, time: 1000 }),
        bits: 0x1d00_ffff,
        coinbase,
        txs: vec![tx(9), tx(2), tx(3)],
        median_time_past: Some(900),
        now: 1010,
        min_spacing: 5,
    }
}

fn job(counter: &mut u64) -> Job {
    build_job(&template(), counter).unwrap()
}

fn state_with(n: u64) -> StratumState {
    let mut state = StratumState::new();
    let mut counter = 0;
    for _ in 0..n {
        state.push_job(job(&mut counter));
    }
    state
}

fn answer(en2: &str, ntime: &str, nonce: &str) -> Result<OpenShare, ShareError> {
    open_share(&state_with(1), &[1, 2, 3, 4], "0000000000000000", en2, ntime, nonce)
}

fn text(r: Result<OpenShare, ShareError>) -> String {
    match r {
        Ok(_) => panic!("accepted"),
        Err(e) => e.message(),
    }
}

fn lines(event: WorkerEvent) -> Vec<String> {
    match event {
        WorkerEvent::Message { step: WorkerStep::Send(lines), .. } => lines,
        _ => panic!("nothing to send"),
    }
}

fn submission(event: WorkerEvent) -> Submission {
    match event {
        WorkerEvent::Message { step: WorkerStep::Judge(s), .. } => s,
        _ => panic!("nothing to judge"),
    }
}

fn label(line: &str) -> (String, Option<String>) {
    match Worker::new([0; 4]).on_line(line, &Value::from(1.0), &StratumState::new()) {
        WorkerEvent::Message { method, job, .. } => (method, job),
        _ => panic!("no message"),
    }
}

#[test]
fn messages_are_named() {
    let of = |m: &str, j: Option<&str>| (m.to_string(), j.map(|j| j.to_string()));
    assert_eq!(label(r#"{"method":"mining.subscribe"}"#), of("mining.subscribe", None));
    assert_eq!(label(r#"{"method":7}"#), of("", None));
    let submit = "mining.submit";
    assert_eq!(label(r#"{"method":"mining.submit"}"#), of(submit, Some("?")));
    assert_eq!(label(r#"{"method":"mining.submit","params":["w"]}"#), of(submit, Some("?")));
    assert_eq!(label(r#"{"method":"mining.submit","params":["w",1]}"#), of(submit, Some("?")));
    assert_eq!(label(r#"{"method":"mining.submit","params":["w","j"]}"#), of(submit, Some("j")));
}

#[test]
fn the_extranonces_start_behind_the_height() {
    let h = 100u64.to_le_bytes();
    assert_eq!(find_extranonce_offset(&template().coinbase, &h), Ok(11));
    assert_eq!(find_extranonce_offset(&[], &h), Err(BuildError::NoExtranonceSplit));
    let mut cb = h.to_vec();
    cb.push(0);
    assert_eq!(find_extranonce_offset(&cb, &h), Err(BuildError::NoExtranonceSplit));
    cb.push(5);
    assert_eq!(find_extranonce_offset(&cb, &h), Ok(9));
    cb[8] = 1;
    assert_eq!(find_extranonce_offset(&cb, &h), Err(BuildError::NoExtranonceSplit));
    assert_eq!(find_extranonce_offset(&[0; 40], &[0; 8]), Ok(9));
    assert_eq!(
        BuildError::NoExtranonceSplit.message(),
        "stratum: could not locate extranonce split in serialised coinbase"
    );
}

#[test]
fn a_job_is_built_from_a_template() {
    let mut counter = 0x1f;
    let j = job(&mut counter);
    assert_eq!(counter, 0x20);
    assert_eq!(j.job_id, "000000000000001f");
    assert_eq!(j.prev_hash, [7; 32]);
    assert_eq!(j.coinbase1, [&[0xaa, 0xbb, 100][..], &[0; 8]].concat());
    assert_eq!(j.coinbase2, vec![0xcc, 0xdd]);
    assert_eq!((j.version, j.bits, j.time, j.height), (1, 0x1d00_ffff, 1010, 100));
    assert_eq!(j.rest_txs.len(), 2);
    assert_eq!(j.rest_txs[1].txid, [3; 32]);
    assert_eq!(j.merkle_branch[0], [2; 32]);
    assert_eq!(j.merkle_branch.len(), 2);
}

#[test]
fn the_branch_of_a_job_serves_every_coinbase() {
    let j = job(&mut 0);
    for first in [[0u8; 32], [5; 32], [0xff; 32]] {
        let all = [first, [2; 32], [3; 32]];
        let path = Job::coinbase_merkle_path(&all);
        assert_eq!(fold(first, &j.merkle_branch), fold(first, &path));
    }
}

#[test]
fn a_template_without_a_split_makes_no_job() {
    let mut t = template();
    t.parent = Some(Parent { height: 3, time: u64::MAX });
    t.txs.clear();
    let mut counter = 4;
    assert!(can_build(&t));
    assert!(matches!(build_job(&t, &mut counter), Err(BuildError::NoExtranonceSplit)));
    assert_eq!(counter, 4);
}

#[test]
fn templates_that_do_not_fit() {
    assert!(can_build(&template()));
    let mut t = template();
    t.txs.clear();
    assert!(!can_build(&t));
    let mut t = template();
    t.parent = Some(Parent { height: u64::MAX, time: 0 });
    assert!(!can_build(&t));
    let mut t = template();
    t.parent = Some(Parent { height: 99, time: u64::MAX });
    assert!(!can_build(&t));
    let mut t = template();
    t.coinbase.truncate(18);
    assert!(!can_build(&t));
}

#[test]
fn job_numbers_start_anew_after_the_last() {
    let mut counter = u64::MAX;
    assert_eq!(job(&mut counter).job_id, "ffffffffffffffff");
    assert_eq!(counter, 0);
}

#[test]
fn the_time_of_a_job_is_late_enough() {
    assert_eq!(template_time(&template()), 1010);
    let mut t = template();
    t.min_spacing = 60;
    assert_eq!(template_time(&t), 1060);
    t.median_time_past = Some(2000);
    assert_eq!(template_time(&t), 2001);
    t.median_time_past = Some(u64::MAX);
    assert_eq!(template_time(&t), u64::MAX);
    t.median_time_past = None;
    t.tip = None;
    t.now = 0;
    assert_eq!(template_time(&t), 1);
    let mut late = template();
    late.now = 0x1_0000_0005;
    assert_eq!(build_job(&late, &mut 0).unwrap().time, 5);
}

#[test]
fn parents_and_heights() {
    let p = Some(Parent { height: 9, time: 1 });
    assert_eq!(next_height(Some([1; 32]), p), 10);
    assert_eq!(next_height(None, p), 0);
    assert_eq!(next_height(Some([0; 32]), p), 0);
    assert_eq!(next_height(Some([1; 32]), None), 0);
    assert!(job_parent(None, p).is_none());
    assert_eq!(parent_to_look_up(Some([1; 32])), Some([1; 32]));
    assert_eq!(parent_to_look_up(Some([0; 32])), None);
    assert_eq!(tip_or_zeros(None), [0; 32]);
    assert_eq!(template_room(16_384), 0);
    assert_eq!(template_room(16_383), 0);
    assert_eq!(template_room(1_000_000), 983_616);
    assert_eq!(extranonce_placeholder(), vec![0; 8]);
}

#[test]
fn jobs_are_due_when_the_tip_moves_or_time_is_up() {
    let mut d = Dispatcher::new();
    assert_eq!(d.due(None, 29), None);
    assert_eq!(d.due(None, 30), Some(false));
    assert_eq!(d.due(Some([1; 32]), 0), Some(true));
    d.made(Some([1; 32]));
    assert_eq!(d.due(Some([1; 32]), 0), None);
    assert_eq!(d.due(None, 31), Some(true));
}

#[test]
fn the_window_keeps_the_latest_jobs() {
    let state = state_with(10);
    assert_eq!(state.recent_jobs.len(), 8);
    assert!(state.find_job("0000000000000001").is_none());
    assert_eq!(state.find_job("0000000000000002").unwrap().job_id, "0000000000000002");
    assert_eq!(state.find_job("0000000000000009").unwrap().job_id, "0000000000000009");
    assert_eq!(state.current_job.unwrap().job_id, "0000000000000009");
    assert!(StratumState::new().find_job("").is_none());
}

#[test]
fn workers_get_different_extranonces() {
    let mut state = StratumState::new();
    assert_eq!(state.assign_extranonce1(), [0, 0, 0, 0]);
    assert_eq!(state.assign_extranonce1(), [1, 0, 0, 0]);
    state.next_extranonce1 = u32::MAX;
    assert_eq!(state.assign_extranonce1(), [0xff; 4]);
    assert_eq!(state.assign_extranonce1(), [0; 4]);
}

#[test]
fn shares_are_counted_until_the_minute_is_up() {
    let mut v = Vardiff::new();
    assert_eq!(v.on_share(0), None);
    assert_eq!(v.on_share(59), None);
    assert_eq!(v.on_share(60), Some(3));
    assert_eq!(v.on_share(0), None);
    assert_eq!(v.shares_since_retarget, 1);
}

#[test]
fn a_good_answer_is_opened() {
    let s = answer("0a0B0c0d", "+65a1b2c3", "deadbeef").unwrap();
    assert_eq!(s.ntime, 0x65a1_b2c3);
    assert_eq!(s.nonce, 0xdead_beef);
    let want = [&[0xaa, 0xbb, 100][..], &[0; 8], &[1, 2, 3, 4], &[10, 11, 12, 13], &[0xcc, 0xdd]];
    assert_eq!(s.coinbase, want.concat());
    let ids = s.block_txids([8; 32]);
    assert_eq!(ids, vec![[8; 32], [2; 32], [3; 32]]);
    assert_eq!(s.block_txs(), vec![want.concat(), vec![2, 2], vec![3, 3]]);
    let h = s.header([6; 32]);
    assert_eq!((h.version, h.prev, h.merkle), (1, [7; 32], [6; 32]));
    assert_eq!((h.time, h.bits, h.nonce), (0x65a1_b2c3, 0x1d00_ffff, 0xdead_beef));
}

#[test]
fn bad_answers_are_refused_with_the_first_fault() {
    let stale = open_share(&state_with(1), &[0; 4], "nope", "zz", "", "");
    assert_eq!(text(stale), "stale job nope");
    assert_eq!(text(answer("zz", "", "")), "bad extranonce2 hex");
    assert_eq!(text(answer("0a0b0c0", "", "")), "bad extranonce2 hex");
    assert_eq!(text(answer(" 0a0b0c0d", "", "")), "bad extranonce2 hex");
    assert_eq!(text(answer("0a0b0c", "", "")), "extranonce2 must be 4 bytes");
    assert_eq!(text(answer("0a0b0c0d", "x", "x")), "bad ntime");
    assert_eq!(text(answer("0a0b0c0d", "1", "100000000")), "bad nonce");
}

#[test]
fn hashes_are_judged_by_both_targets() {
    let good = diff_to_target(10);
    let mut bad = good;
    bad[31] = 1;
    let d = || "792000".to_string();
    assert!(matches!(judge_share(&good, 10, d(), Some(true)), Ok(ShareOutcome::Block)));
    assert!(matches!(judge_share(&good, 10, d(), Some(false)), Ok(ShareOutcome::Share)));
    assert_eq!(judge_share(&good, 10, d(), None).unwrap_err().message(), "invalid bits in job");
    assert_eq!(
        judge_share(&bad, 10, d(), None).unwrap_err().message(),
        "share below worker difficulty (792000)"
    );
}

#[test]
fn blocks_are_checked_before_they_are_stored() {
    assert!(check_block_size(10, 10).is_ok());
    assert_eq!(
        check_block_size(11, 10).unwrap_err().message(),
        "block exceeds MAX_BLOCK_BYTES"
    );
    assert_eq!(check_tip(Some([7; 32]), &[7; 32]).unwrap(), Some([7; 32]));
    assert_eq!(check_tip(None, &[0; 32]).unwrap(), None);
    assert_eq!(
        check_tip(None, &[7; 32]).unwrap_err().message(),
        "stale block: tip moved"
    );
}

fn flow() -> ShareFlow {
    ShareFlow::new(answer("0a0b0c0d", "1", "2").unwrap(), 10, "792000".to_string(), 100)
}

fn refusal(action: ShareAction) -> String {
    match action {
        ShareAction::Finish(Err(e)) => e.message(),
        other => panic!("{:?}", other),
    }
}

fn flow_at_tip() -> ShareFlow {
    let mut f = flow();
    f.advance(ShareEvent::Coinbase(Ok([8; 32])));
    f.advance(ShareEvent::Root([6; 32]));
    f.advance(ShareEvent::Hash([0; 32], Some(true)));
    assert!(matches!(f.advance(ShareEvent::Block(Ok(100))), ShareAction::ReadTip));
    f
}

#[test]
fn a_block_goes_all_the_way() {
    let mut f = flow();
    match f.advance(ShareEvent::Coinbase(Ok([8; 32]))) {
        ShareAction::FindRoot(ids) => assert_eq!(ids, vec![[8; 32], [2; 32], [3; 32]]),
        other => panic!("{:?}", other),
    }
    match f.advance(ShareEvent::Root([6; 32])) {
        ShareAction::HashHeader(h) => assert_eq!((h.merkle, h.time, h.nonce), ([6; 32], 1, 2)),
        other => panic!("{:?}", other),
    }
    match f.advance(ShareEvent::Hash([0; 32], Some(true))) {
        ShareAction::EncodeBlock(h, txs) => {
            assert_eq!(h.merkle, [6; 32]);
            assert_eq!(txs.len(), 3);
        }
        other => panic!("{:?}", other),
    }
    assert!(matches!(f.advance(ShareEvent::Block(Ok(100))), ShareAction::ReadTip));
    match f.advance(ShareEvent::Tip(Ok(Some([7; 32])))) {
        ShareAction::Store(hash, h, parent) => {
            assert_eq!((hash, h.prev, parent), ([0; 32], [7; 32], Some([7; 32])));
        }
        other => panic!("{:?}", other),
    }
    match f.advance(ShareEvent::Stored(Ok(()))) {
        ShareAction::Take(hash) => assert_eq!(hash, [0; 32]),
        other => panic!("{:?}", other),
    }
    assert!(matches!(
        f.advance(ShareEvent::Taken(Ok(()))),
        ShareAction::Finish(Ok(ShareOutcome::Block))
    ));
    assert!(matches!(f.advance(ShareEvent::Taken(Ok(()))), ShareAction::Wait));
}

#[test]
fn a_plain_share_ends_at_its_hash() {
    let mut f = flow();
    f.advance(ShareEvent::Coinbase(Ok([8; 32])));
    f.advance(ShareEvent::Root([6; 32]));
    assert!(matches!(
        f.advance(ShareEvent::Hash([0; 32], Some(false))),
        ShareAction::Finish(Ok(ShareOutcome::Share))
    ));
}

#[test]
fn events_that_are_not_waited_for_change_nothing() {
    let mut f = flow();
    assert!(matches!(f.advance(ShareEvent::Root([6; 32])), ShareAction::Wait));
    assert!(matches!(f.advance(ShareEvent::Stored(Ok(()))), ShareAction::Wait));
    assert!(matches!(
        f.advance(ShareEvent::Coinbase(Ok([8; 32]))),
        ShareAction::FindRoot(_)
    ));
}

#[test]
fn faults_end_the_way() {
    let why = || "why".to_string();
    assert_eq!(
        refusal(flow().advance(ShareEvent::Coinbase(Err(why())))),
        "coinbase deserialise failed: why"
    );
    let mut f = flow();
    f.advance(ShareEvent::Coinbase(Ok([8; 32])));
    f.advance(ShareEvent::Root([6; 32]));
    assert_eq!(
        refusal(f.advance(ShareEvent::Hash([0xff; 32], Some(true)))),
        "share below worker difficulty (792000)"
    );
    let mut f = flow();
    f.advance(ShareEvent::Coinbase(Ok([8; 32])));
    f.advance(ShareEvent::Root([6; 32]));
    f.advance(ShareEvent::Hash([0; 32], Some(true)));
    assert_eq!(
        refusal(f.advance(ShareEvent::Block(Ok(101)))),
        "block exceeds MAX_BLOCK_BYTES"
    );
    assert_eq!(
        refusal(flow_at_tip().advance(ShareEvent::Tip(Ok(None)))),
        "stale block: tip moved"
    );
    assert_eq!(refusal(flow_at_tip().advance(ShareEvent::Tip(Err(why())))), "why");
    let mut f = flow_at_tip();
    f.advance(ShareEvent::Tip(Ok(Some([7; 32]))));
    assert_eq!(refusal(f.advance(ShareEvent::Stored(Err(why())))), "why");
    let mut f = flow_at_tip();
    f.advance(ShareEvent::Tip(Ok(Some([7; 32]))));
    f.advance(ShareEvent::Stored(Ok(())));
    assert_eq!(
        refusal(f.advance(ShareEvent::Taken(Err(why())))),
        "maybe_reorg_to failed: why"
    );
}

#[test]
fn a_subscription_is_answered() {
    let mut w = Worker::new([0xaa, 0xbb, 0xcc, 0xdd]);
    let d = Value::from(792000.0);
    let r = lines(w.on_line(r#"{"id":1,"method":"mining.subscribe"}"#, &d, &state_with(1)));
    assert_eq!(
        r,
        vec![
            "{\"error\":null,\"id\":1,\"result\":[[[\"mining.set_difficulty\",\"sub_diff\"],[\"mining.notify\",\"sub_notify\"]],\"aabbccdd\",4]}\n",
            "{\"id\":null,\"method\":\"mining.set_difficulty\",\"params\":[792000.0]}\n",
        ]
    );
    assert!(w.subscribed && !w.authorized);
}

#[test]
fn a_login_is_answered_with_the_current_job() {
    let mut w = Worker::new([0; 4]);
    let d = Value::from(792000.0);
    let msg = r#"{"id":2,"method":"mining.authorize","params":["a","b"]}"#;
    let r = lines(w.on_line(msg, &d, &StratumState::new()));
    assert_eq!(r.len(), 2);
    assert_eq!(r[0], "{\"error\":null,\"id\":2,\"result\":true}\n");
    let r = lines(w.on_line(msg, &d, &state_with(2)));
    assert_eq!(r.len(), 3);
    assert!(r[2].starts_with(
        "{\"id\":null,\"method\":\"mining.notify\",\"params\":[\"0000000000000001\",\"0707"
    ));
    assert!(r[2].ends_with("],\"00000001\",\"1d00ffff\",\"000003f2\",true]}\n"));
    assert!(w.authorized && !w.subscribed);
}

#[test]
fn other_requests_of_a_worker() {
    let mut w = Worker::new([0; 4]);
    let d = Value::from(1.0);
    let s = StratumState::new();
    assert!(matches!(w.on_line("  ", &d, &s), WorkerEvent::Blank));
    assert!(matches!(w.on_line("}", &d, &s), WorkerEvent::BadJson));
    assert_eq!(
        lines(w.on_line(r#"{"id":[3],"method":"mining.get_transactions"}"#, &d, &s)),
        vec!["{\"error\":null,\"id\":[3],\"result\":[]}\n"]
    );
    assert_eq!(
        lines(w.on_line(r#"{"method":"mining.extranonce.subscribe"}"#, &d, &s)),
        vec!["{\"error\":null,\"id\":null,\"result\":true}\n"]
    );
    match w.on_line(r#"{"id":4,"method":5}"#, &d, &s) {
        WorkerEvent::Message { step: WorkerStep::Unknown(sent), .. } => assert_eq!(
            sent,
            vec!["{\"error\":[20,\"unknown method\",null],\"id\":4,\"result\":null}\n"]
        ),
        _ => panic!("known"),
    }
    assert_eq!(
        lines(w.on_line(r#"{"id":4,"method":"mining.submit","params":[1,2,3,4]}"#, &d, &s)),
        vec!["{\"error\":[20,\"malformed submit\",null],\"id\":4,\"result\":null}\n"]
    );
}

#[test]
fn an_answer_goes_to_be_judged() {
    let mut w = Worker::new([0; 4]);
    let line = r#"{"id":4,"method":"mining.submit","params":["w","j","e",7,"n"]}"#;
    let s = submission(w.on_line(line, &Value::from(1.0), &StratumState::new()));
    assert_eq!(s.id, Value::from(4u64));
    assert_eq!((s.job_id.as_str(), s.en2_hex.as_str()), ("j", "e"));
    assert_eq!((s.ntime_hex.as_str(), s.nonce_hex.as_str()), ("", "n"));
}

#[test]
fn verdicts_are_sent() {
    let id = || Value::from(4u64);
    let grant = "{\"error\":null,\"id\":4,\"result\":true}\n";
    assert_eq!(verdict_line(id(), &Ok(ShareOutcome::Block)), grant);
    assert_eq!(verdict_line(id(), &Ok(ShareOutcome::Share)), grant);
    assert_eq!(
        verdict_line(id(), &Err(ShareError::Chain("a \"b\"".to_string()))),
        "{\"error\":[20,\"a \\\"b\\\"\",null],\"id\":4,\"result\":null}\n"
    );
}

#[test]
fn new_jobs_go_to_subscribed_workers() {
    let mut w = Worker::new([0; 4]);
    let j = job(&mut 0);
    assert!(w.on_job(&j).is_none());
    w.subscribed = true;
    assert!(w.on_job(&j).unwrap().ends_with(",true]}\n"));
}

#[test]
fn job_events_are_handled() {
    let mut w = Worker::new([0; 4]);
    let (none, one) = (StratumState::new(), state_with(1));
    let j = || job(&mut 5);
    assert!(matches!(w.on_job_event(JobEvent::New(j()), &one), JobStep::Nothing));
    assert!(matches!(w.on_job_event(JobEvent::Lagged, &one), JobStep::Nothing));
    assert!(matches!(w.on_job_event(JobEvent::Closed, &one), JobStep::Close));
    w.subscribed = true;
    assert!(matches!(w.on_job_event(JobEvent::Lagged, &none), JobStep::Nothing));
    assert!(matches!(w.on_job_event(JobEvent::Closed, &none), JobStep::Close));
    match w.on_job_event(JobEvent::New(j()), &one) {
        JobStep::Send(line) => {
            assert!(line.contains("\"0000000000000005\"") && line.ends_with(",true]}\n"));
        }
        other => panic!("{:?}", other),
    }
    match w.on_job_event(JobEvent::Lagged, &one) {
        JobStep::Send(line) => {
            assert!(line.contains("\"0000000000000000\"") && line.ends_with(",true]}\n"));
        }
        other => panic!("{:?}", other),
    }
}

#[test]
fn only_accepted_answers_count() {
    let mut v = Vardiff::new();
    let refused = Err(ShareError::BadNonce);
    assert_eq!(after_verdict(&Ok(ShareOutcome::Share), &mut v, 1), None);
    assert_eq!(after_verdict(&refused, &mut v, 99), None);
    assert_eq!(v.shares_since_retarget, 1);
    assert_eq!(after_verdict(&Ok(ShareOutcome::Block), &mut v, 60), Some(2));
    assert_eq!(v.shares_since_retarget, 0);
}

#[test]
fn a_new_difficulty_comes_with_the_current_job() {
    let d = Value::from(2.5);
    let told = "{\"id\":null,\"method\":\"mining.set_difficulty\",\"params\":[2.5]}\n";
    assert_eq!(retarget_lines(&d, &StratumState::new()), vec![told]);
    let r = retarget_lines(&d, &state_with(1));
    assert_eq!(r.len(), 2);
    assert!(r[1].ends_with(",false]}\n"));
}

#[test]
fn proxy_and_server_understand_each_other() {
    let mut state = state_with(1);
    let d = Value::from(792000.0);
    let mut w = Worker::new([0xaa, 0xbb, 0xcc, 0xdd]);
    let mut up = Upstream::new();
    let mut book = JobBook::new();
    for line in opening() {
        for sent in lines(w.on_line(line.trim_end(), &d, &state)) {
            assert_eq!(sent.matches('\n').count(), 1);
            if let Some(UpstreamAction::Publish(a)) = up.on_line(sent.trim_end()) {
                book.announce(a.job);
            }
        }
    }
    assert!(w.subscribed && w.authorized);
    assert_eq!((up.en1_hex.as_str(), up.en2_size, up.seq), ("aabbccdd", 4, 1));
    let ours = job(&mut 0);
    let taken = book.find("00000001").unwrap();
    assert_eq!(taken.csd_job_id, ours.job_id);
    assert_eq!(taken.coinbase1, ours.coinbase1);
    assert_eq!(taken.coinbase2, ours.coinbase2);
    assert_eq!(taken.merkle_branch, ours.merkle_branch);
    assert_eq!((taken.version, taken.bits, taken.time64), (1, ours.bits, ours.time as u64));

    let mut easy = taken.clone();
    easy.target = [0xff; 32];
    let found = csd_asic_proxy::proxy::asic::judge(&easy, [0; 32], 0x0102_0304, 100).unwrap();
    let s = submission(w.on_line(found.line.trim_end(), &d, &state));
    let open = open_share(&state, &w.extranonce1, &s.job_id, &s.en2_hex, &s.ntime_hex, &s.nonce_hex)
        .unwrap();
    assert_eq!(open.nonce, 0x0403_0201);
    assert_eq!(open.ntime, ours.time);
    assert_eq!(to_hex(&open.coinbase), "aabb640000000000000000aabbccdd00000000ccdd");
    let verdict = verdict_line(s.id, &Ok(ShareOutcome::Share));
    assert!(matches!(up.on_line(verdict.trim_end()), Some(UpstreamAction::Ignore)));
    state.push_job(ours);
    assert_eq!(state.recent_jobs.len(), 2);
}
