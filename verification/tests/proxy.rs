use csd_asic_proxy::hextext::to_hex;
use csd_asic_proxy::proxy::asic::{answer, judge, read_nonce, AsicEvent, AsicSession, AsicStep};
use csd_asic_proxy::proxy::book::JobBook;
use csd_asic_proxy::proxy::job::{build_csd_header, make_notify, reconstruct_merkle, Job};
use csd_asic_proxy::proxy::upstream::{opening, Announcement, Upstream, UpstreamAction};
use serde_json::Value;

const NOTICE: &str = r#"{"id":null,"method":"mining.notify","params":["job-7","000102030405060708090a0b0c0d0e0f101112131415161718191a1b1c1d1e1f","01020304","a0b0",["1111111111111111111111111111111111111111111111111111111111111111","2222222222222222222222222222222222222222222222222222222222222222"],"20000000","20ffffff","65a1b2c3",true]}"#;

const ANNOUNCED: &str = r#"{"id":null,"method":"mining.notify","params":["00000001","03020100070605040b0a09080f0e0d0c13121110171615141b1a19181f1e1d1c","01020304","a0b0",["1111111111111111111111111111111111111111111111111111111111111111","2222222222222222222222222222222222222222222222222222222222222222"],"20000000","20ffffff","65a1b2c3",true]}"#;

fn subscribed() -> Upstream {
    let mut up = Upstream::new();
    let line = r#"{"id":1,"result":[[],"aabbccdd",4],"error":null}"#;
    assert!(matches!(up.on_line(line), Some(UpstreamAction::Subscribed)));
    up
}

fn announcement(up: &mut Upstream, line: &str) -> Announcement {
    match up.on_line(line) {
        Some(UpstreamAction::Publish(a)) => a,
        other => panic!("{:?}", other),
    }
}

fn sample_job() -> Job {
    announcement(&mut subscribed(), NOTICE).job
}

fn million() -> Value {
    Value::from(1000000.0)
}

fn step(s: &mut AsicSession, line: &str, password: Option<&str>, book: &JobBook) -> AsicStep {
    match s.on_line(line, &million(), password, book) {
        AsicEvent::Message { step, .. } => step,
        other => panic!("{:?}", other),
    }
}

fn logged_in() -> AsicSession {
    let mut s = AsicSession::new();
    let book = JobBook::new();
    let r = step(&mut s, r#"{"id":1,"method":"mining.authorize","params":["w","x"]}"#, None, &book);
    assert_eq!(r.replies, vec!["{\"error\":null,\"id\":1,\"result\":true}\n"]);
    s
}

#[test]
fn the_connection_opens_with_two_requests() {
    assert_eq!(
        opening(),
        vec![
            "{\"id\":1,\"method\":\"mining.subscribe\",\"params\":[\"csd-asic-proxy/1.0\"]}\n",
            "{\"id\":2,\"method\":\"mining.authorize\",\"params\":[\"asic-proxy\",\"x\"]}\n",
        ]
    );
}

#[test]
fn a_subscription_assigns_the_extranonces() {
    let up = subscribed();
    assert_eq!(up.en1_hex, "aabbccdd");
    assert_eq!(up.en2_size, 4);
    let mut odd = Upstream::new();
    odd.on_line(r#"{"result":[0,1,"x"]}"#);
    assert_eq!(odd.en1_hex, "");
    assert_eq!(odd.en2_size, 4);
    odd.on_line(r#"{"result":[0,"ff",8]}"#);
    assert_eq!(odd.en2_size, 8);
    assert!(matches!(odd.on_line(r#"{"result":true}"#), Some(UpstreamAction::Ignore)));
    assert_eq!(odd.en1_hex, "ff");
}

#[test]
fn a_notice_becomes_a_job() {
    let mut up = subscribed();
    let a = announcement(&mut up, NOTICE);
    assert_eq!(up.seq, 1);
    assert_eq!(a.line, format!("{}\n", ANNOUNCED));
    assert_eq!(
        to_hex(&a.template_root),
        "697eb6f6b66ffebd452f1b34f30a4566caaf79abf23f594c8e146e48b7fcd6d0"
    );
    let job = a.job;
    assert_eq!(job.proxy_job_id, "00000001");
    assert_eq!(job.csd_job_id, "job-7");
    assert_eq!(job.en2_hex, "00000000");
    assert_eq!(job.ntime_hex, "65a1b2c3");
    assert_eq!(job.coinbase1, vec![1, 2, 3, 4]);
    assert_eq!(job.coinbase2, vec![0xa0, 0xb0]);
    assert_eq!(job.merkle_branch, vec![[0x11; 32], [0x22; 32]]);
    assert_eq!(job.version, 0x2000_0000);
    assert_eq!(job.bits, 0x20ff_ffff);
    assert_eq!(job.time64, 0x65a1_b2c3);
    assert_eq!(job.prev[31], 31);
    assert_eq!(job.target[..4], [0xff, 0xff, 0xff, 0]);
}

#[test]
fn a_notice_with_odd_parameters_falls_back() {
    let line = r#"{"method":"mining.notify","params":[1,"00",null,"zz",["11",7],"x",5,"",0]}"#;
    let a = announcement(&mut Upstream::new(), line);
    assert_eq!(a.job.csd_job_id, "");
    assert_eq!(a.job.prev, [0u8; 32]);
    assert_eq!(a.job.coinbase1, Vec::<u8>::new());
    assert_eq!(a.job.coinbase2, vec![0]);
    assert!(a.job.merkle_branch.is_empty());
    assert_eq!((a.job.version, a.job.bits, a.job.time64), (1, 0, 0));
    assert_eq!(a.job.target, [0u8; 32]);
    assert!(a.line.ends_with(",false]}\n"));
}

#[test]
fn job_identifiers_count_up() {
    let mut up = subscribed();
    for want in ["00000001", "00000002", "00000003"] {
        assert_eq!(announcement(&mut up, NOTICE).job.proxy_job_id, want);
    }
}

#[test]
fn difficulty_is_passed_on() {
    let mut up = Upstream::new();
    match up.on_line("{ \"params\":[2.5], \"id\":null,\"method\":\"mining.set_difficulty\"}") {
        Some(UpstreamAction::Forward(line)) => assert_eq!(
            line,
            "{\"id\":null,\"method\":\"mining.set_difficulty\",\"params\":[2.5]}\n"
        ),
        other => panic!("{:?}", other),
    }
}

#[test]
fn other_lines_of_the_node_are_ignored() {
    let mut up = Upstream::new();
    for line in [
        "",
        "  ",
        "not json",
        r#"{"method":"mining.ping","params":[]}"#,
        r#"{"method":"mining.notify","params":[1,2]}"#,
        r#"{"method":"mining.notify"}"#,
        "[]",
    ] {
        assert!(matches!(up.on_line(line), Some(UpstreamAction::Ignore)));
    }
    assert_eq!(up.seq, 0);
}

#[test]
fn a_notice_that_splits_a_character_is_not_handled() {
    let mut up = subscribed();
    let line = NOTICE.replace("a0b0", "a\u{e9}b");
    assert!(up.on_line(&line).is_none());
    assert_eq!(up.seq, 0);
}

#[test]
fn a_notice_with_an_endless_extranonce_is_not_handled() {
    let mut up = Upstream::new();
    up.on_line(r#"{"result":[0,"",18446744073709551615]}"#);
    assert!(up.on_line(NOTICE).is_none());
}

#[test]
fn the_book_finds_announced_jobs() {
    let mut book = JobBook::new();
    assert!(book.find("00000001").is_none());
    let mut up = subscribed();
    book.announce(announcement(&mut up, NOTICE).job);
    book.announce(announcement(&mut up, NOTICE).job);
    assert_eq!(book.find("00000001").unwrap().proxy_job_id, "00000001");
    assert_eq!(book.current.as_ref().unwrap().proxy_job_id, "00000002");
    assert!(book.find("1").is_none());
}

#[test]
fn a_header_has_its_fields_in_place() {
    let job = sample_job();
    let merkle = reconstruct_merkle(&job, &[0, 0, 0, 1], &[0x0b, 0xad, 0xca, 0xfe]);
    assert_eq!(
        to_hex(&merkle),
        "5f4253aa43f733d88d8b4aa3fdd38311445e3f088fe4fd9ed2b6a71fac2eeb3c"
    );
    let mut late = job.clone();
    late.time64 = 0x1122_3344_5566_7788;
    let header = build_csd_header(&late, &merkle, 0xaabb_ccdd, 0x0102_0304);
    assert_eq!(header[0..4], [0, 0, 0, 0x20]);
    assert_eq!(header[4..36], job.prev);
    assert_eq!(header[36..68], merkle);
    assert_eq!(header[68..76], [0xdd, 0xcc, 0xbb, 0xaa, 0x44, 0x33, 0x22, 0x11]);
    assert_eq!(header[76..80], [0xff, 0xff, 0xff, 0x20]);
    assert_eq!(header[80..84], [4, 3, 2, 1]);
}

#[test]
fn an_answer_stands_for_a_header() {
    let header = answer(&sample_job(), "0badcafe", "65a1b2d0", "deadbeef");
    assert_eq!(
        to_hex(&header),
        "00000020000102030405060708090a0b0c0d0e0f101112131415161718191a1b1c1d1e1f5f4253aa43f733d88d8b4aa3fdd38311445e3f088fe4fd9ed2b6a71fac2eeb3cd0b2a16500000000ffffff20deadbeef"
    );
    assert_eq!(read_nonce("deadbeef"), 0xefbe_adde);
    assert_eq!(read_nonce("deadbe"), 0);
}

#[test]
fn the_notice_of_a_job_is_printed() {
    let job = sample_job();
    let text = serde_json::to_string(&make_notify(&job, true)).unwrap();
    assert_eq!(text, ANNOUNCED);
}

#[test]
fn a_subscribing_miner_hears_of_everything() {
    let mut s = AsicSession::new();
    let mut book = JobBook::new();
    let line = r#"{"id":"a","method":"mining.subscribe","params":[]}"#;
    let hello = "{\"error\":null,\"id\":\"a\",\"result\":[[[\"mining.set_difficulty\",\"d\"],[\"mining.notify\",\"n\"]],\"00000001\",4]}\n";
    let diff = "{\"id\":null,\"method\":\"mining.set_difficulty\",\"params\":[1000000.0]}\n";
    let r = step(&mut s, line, None, &book);
    assert_eq!(r.replies, vec![hello, diff]);
    book.announce(sample_job());
    let r = step(&mut s, line, None, &book);
    assert_eq!(r.replies.len(), 3);
    assert_eq!(r.replies[2], format!("{}\n", ANNOUNCED));
    assert!(!r.close && r.found.is_none() && r.stale.is_none());
}

#[test]
fn a_wrong_password_closes_the_connection() {
    let mut s = AsicSession::new();
    let book = JobBook::new();
    let refused = "{\"error\":[24,\"Unauthorized\",null],\"id\":2,\"result\":false}\n";
    for line in [
        r#"{"id":2,"method":"mining.authorize","params":["w","bad"]}"#,
        r#"{"id":2,"method":"mining.authorize"}"#,
    ] {
        let r = step(&mut s, line, Some("secret"), &book);
        assert_eq!(r.replies, vec![refused]);
        assert!(r.close && !s.authorized);
    }
    let r = step(
        &mut s,
        r#"{"id":2,"method":"mining.authorize","params":["w","secret"]}"#,
        Some("secret"),
        &book,
    );
    assert!(!r.close && s.authorized);
}

#[test]
fn an_answer_without_login_is_refused() {
    let mut s = AsicSession::new();
    let book = JobBook::new();
    let r = step(
        &mut s,
        r#"{"id":3,"method":"mining.submit","params":["w","00000001","","",""]}"#,
        None,
        &book,
    );
    assert_eq!(
        r.replies,
        vec!["{\"error\":[24,\"Unauthorized\",null],\"id\":3,\"result\":false}\n"]
    );
}

#[test]
fn a_short_answer_is_refused() {
    let r = step(
        &mut logged_in(),
        r#"{"id":3,"method":"mining.submit","params":["w","00000001","",""]}"#,
        None,
        &JobBook::new(),
    );
    assert_eq!(
        r.replies,
        vec!["{\"error\":[20,\"bad params\",null],\"id\":3,\"result\":false}\n"]
    );
}

#[test]
fn unknown_methods_are_refused() {
    let book = JobBook::new();
    let r = step(&mut logged_in(), r#"{"id":4,"method":"mining.ping"}"#, None, &book);
    assert_eq!(r.replies, vec!["{\"error\":[20,\"unknown\",null],\"id\":4,\"result\":null}\n"]);
    let r = step(&mut logged_in(), r#"{"method":"mining.extranonce.subscribe"}"#, None, &book);
    assert_eq!(r.replies, vec!["{\"error\":null,\"id\":null,\"result\":true}\n"]);
}

#[test]
fn a_block_is_submitted_upstream() {
    let mut s = logged_in();
    let mut book = JobBook::new();
    book.announce(sample_job());
    let line = r#"{"id":9,"method":"mining.submit","params":["w","00000001","0badcafe","65a1b2d0","deadbeef"]}"#;
    let r = step(&mut s, line, None, &book);
    assert_eq!(r.replies, vec!["{\"error\":null,\"id\":9,\"result\":true}\n"]);
    let found = r.found.unwrap();
    assert_eq!(
        to_hex(&found.hash),
        "f6bb0ed5721ca73e6ccf9977f537d326d6d4d7bcdc58a5be35c9e160afa8b9d5"
    );
    assert_eq!(
        found.line,
        "{\"id\":100,\"method\":\"mining.submit\",\"params\":[\"asic-proxy\",\"job-7\",\"00000000\",\"65a1b2c3\",\"deadbeef\"]}\n"
    );
    assert_eq!(s.msg_id, 101);
}

#[test]
fn a_hash_above_the_target_stays_here() {
    let mut s = logged_in();
    let mut book = JobBook::new();
    let mut up = subscribed();
    book.announce(announcement(&mut up, &NOTICE.replace("20ffffff", "03000001")).job);
    let line = r#"{"id":9,"method":"mining.submit","params":["w","00000001","0badcafe","65a1b2d0","deadbeef"]}"#;
    let r = step(&mut s, line, None, &book);
    assert_eq!(r.replies, vec!["{\"error\":null,\"id\":9,\"result\":true}\n"]);
    assert!(r.found.is_none() && r.stale.is_none());
    assert_eq!(s.msg_id, 100);
}

#[test]
fn a_stale_answer_is_granted() {
    let mut s = logged_in();
    let r = step(
        &mut s,
        r#"{"id":9,"method":"mining.submit","params":["w","000000ff","éa","","aé"]}"#,
        None,
        &JobBook::new(),
    );
    assert_eq!(r.replies, vec!["{\"error\":null,\"id\":9,\"result\":true}\n"]);
    assert_eq!(r.stale.unwrap(), "000000ff");
    assert!(r.found.is_none());
}

#[test]
fn an_answer_that_splits_a_character_is_granted() {
    let mut s = logged_in();
    let mut book = JobBook::new();
    book.announce(sample_job());
    let line = "{\"id\":9,\"method\":\"mining.submit\",\"params\":[\"w\",\"00000001\",\"0a\",\"0\",\"a\u{e9}b\"]}";
    let grant = "{\"error\":null,\"id\":9,\"result\":true}\n";
    let r = step(&mut s, line, None, &book);
    assert_eq!(r.replies, vec![grant]);
    assert!(r.found.is_none() && r.stale.is_none() && !r.close);
    assert_eq!(s.msg_id, 100);
    let line = "{\"id\":9,\"method\":\"mining.submit\",\"params\":[\"w\",\"00000001\",\"a\u{e9}b\",\"0\",\"00000000\"]}";
    let r = step(&mut s, line, None, &book);
    assert_eq!(r.replies, vec![grant]);
    assert!(r.found.is_none());
}

#[test]
fn an_answer_without_an_identifier_left_is_not_handled() {
    let mut s = logged_in();
    s.msg_id = u64::MAX;
    let mut book = JobBook::new();
    let line = r#"{"id":9,"method":"mining.submit","params":["w","00000001","0badcafe","65a1b2d0","deadbeef"]}"#;
    assert_eq!(step(&mut s, line, None, &book).replies.len(), 1);
    book.announce(sample_job());
    assert!(matches!(s.on_line(line, &million(), None, &book), AsicEvent::Exhausted));
    assert_eq!(s.msg_id, u64::MAX);
}

#[test]
fn blank_and_broken_lines_of_a_miner() {
    let mut s = AsicSession::new();
    let book = JobBook::new();
    assert!(matches!(s.on_line(" \t", &million(), None, &book), AsicEvent::Blank));
    assert!(matches!(s.on_line("{", &million(), None, &book), AsicEvent::BadJson));
}

#[test]
fn a_hash_is_judged_by_the_target_alone() {
    let mut job = sample_job();
    job.target = [0u8; 32];
    job.target[31] = 5;
    let mut hash = [0u8; 32];
    hash[31] = 5;
    let found = judge(&job, hash, 1, 7).unwrap();
    assert!(found.line.contains("\"id\":7") && found.line.contains("\"01000000\""));
    hash[31] = 6;
    assert!(judge(&job, hash, 1, 7).is_none());
}
