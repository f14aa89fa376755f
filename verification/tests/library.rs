use std::collections::HashMap;

use goku::cli::ExecutionCommand;
use goku::config::config::Config;
use goku::engine::http::{Config as RequestConfig, HttpRequest, Method};
use goku::engine::tcp::HttpRequest as RawRequest;
use goku::goku::{Attack, AttackErr, AttackResult, AttackRun, Duration, Execution, ExecutionSet};
use goku::goku_data_io::data_io::{log_path, Call, TestInstance};
use goku::text::push_decimal;

fn close(run: AttackRun, ids: &Vec<u128>) -> AttackRun {
    let mut run = run;
    for id in ids {
        run = run.record(*id, Execution::new(0, 200));
    }
    assert!(run.is_round_recorded());
    run.close_round();
    run
}

fn command(method: &str, headers: Option<&str>, params: Option<&str>, try_count: u32, concurrent: u8) -> ExecutionCommand {
    ExecutionCommand {
        method: method.to_string(),
        headers: headers.map(|s| s.to_string()),
        params: params.map(|s| s.to_string()),
        body: None,
        log_file: None,
        test_name: None,
        try_count,
        concurrent_request: concurrent,
        verbose: false,
    }
}

#[test]
fn method_names_ignore_case() {
    assert_eq!(Method::from_str("POST"), Method::POST);
    assert_eq!(Method::from_str("post"), Method::POST);
    assert_eq!(Method::from_str("PoSt"), Method::POST);
    assert_eq!(Method::from_str("GET"), Method::GET);
    assert_eq!(Method::from_str("get"), Method::GET);
}

#[test]
fn unknown_method_falls_back_to_get() {
    assert_eq!(Method::from_str("DELETE"), Method::GET);
    assert_eq!(Method::from_str(""), Method::GET);
    assert_eq!(Method::recognize("PUT"), None);
    assert_eq!(Method::recognize("Post"), Some(Method::POST));
    assert_eq!(Method::recognize("gEt"), Some(Method::GET));
}

#[test]
fn method_wire_names() {
    assert_eq!(Method::GET.wire_name(), "GET");
    assert_eq!(Method::POST.wire_name(), "POST");
}

#[test]
fn request_with_defaults() {
    let req = HttpRequest::new(Method::POST, "https://example.com/api", None, None, None, None).ok().unwrap();
    assert!(req.is_sendable());
    let plan = req.prepare();
    assert_eq!(plan.method, "POST");
    assert_eq!(plan.url, "https://example.com/api");
    assert!(plan.query.is_empty());
    assert!(plan.headers.is_empty());
    assert_eq!(plan.body, None);
    assert_eq!(plan.read_timeout_in_s, 5);
    assert_eq!(plan.write_timeout_in_s, 5);
    assert!(plan.https_only);
}

#[test]
fn request_url_is_normalized() {
    let req = HttpRequest::new(Method::GET, "HTTPS://Example.COM", None, None, None, None).ok().unwrap();
    assert_eq!(req.prepare().url, "https://example.com/");
}

#[test]
fn request_with_invalid_url_fails() {
    match HttpRequest::new(Method::GET, "not a url", None, None, None, None) {
        Err(e) => assert_eq!(e, "relative URL without a base"),
        Ok(_) => panic!("expected an error"),
    }
}

#[test]
fn request_with_configured_timeouts() {
    let conf = RequestConfig { read_timeout_in_s: 7, write_timeout_in_s: 9 };
    let req = HttpRequest::new(Method::GET, "https://example.com/", None, None, None, Some(conf)).ok().unwrap();
    let plan = req.prepare();
    assert_eq!(plan.read_timeout_in_s, 7);
    assert_eq!(plan.write_timeout_in_s, 9);
}

#[test]
fn request_headers_and_params_from_json() {
    let req = HttpRequest::new(
        Method::GET,
        "https://example.com/",
        Some("{\"x-b\": \"2\", \"x-a\": \"1\"}".to_string()),
        Some("{\"q\": \"rust\"}".to_string()),
        None,
        None,
    )
    .ok()
    .unwrap();
    assert!(req.is_sendable());
    let plan = req.prepare();
    assert_eq!(plan.headers, vec![("x-a".to_string(), "1".to_string()), ("x-b".to_string(), "2".to_string())]);
    assert_eq!(plan.query, vec![("q".to_string(), "rust".to_string())]);
}

#[test]
fn request_drops_json_that_is_not_an_object() {
    let req = HttpRequest::new(
        Method::GET,
        "https://example.com/",
        Some("[1, 2]".to_string()),
        Some("not json".to_string()),
        None,
        None,
    )
    .ok()
    .unwrap();
    let plan = req.prepare();
    assert!(plan.headers.is_empty());
    assert!(plan.query.is_empty());
}

#[test]
fn request_with_non_text_value_is_not_sendable() {
    let req = HttpRequest::new(Method::GET, "https://example.com/", None, Some("{\"n\": 3}".to_string()), None, None)
        .ok()
        .unwrap();
    assert!(!req.is_sendable());
}

#[test]
fn cloned_request_prepares_the_same() {
    let req = HttpRequest::new(Method::POST, "https://example.com/", Some("{\"h\": \"v\"}".to_string()), None, Some("payload".to_string()), None)
        .ok()
        .unwrap();
    let copy = req.clone();
    let a = req.prepare();
    let b = copy.prepare();
    assert_eq!(a.method, b.method);
    assert_eq!(a.url, b.url);
    assert_eq!(a.headers, b.headers);
    assert_eq!(a.query, b.query);
    assert_eq!(a.body, Some("payload".to_string()));
    assert_eq!(a.body, b.body);
}

#[test]
fn attack_from_command() {
    let cmd = command("post", None, Some("{\"a\": \"b\"}"), 3, 2);
    let attack = Attack::new(&cmd, "https://example.com/x").ok().unwrap();
    assert!(attack.is_sendable());
    let plan = attack.prepare();
    assert_eq!(plan.method, "POST");
    assert_eq!(plan.query, vec![("a".to_string(), "b".to_string())]);
    let mut run = attack.start();
    let mut rounds = 0;
    while let Some(ids) = run.next_round() {
        rounds += 1;
        run = close(run, &ids);
    }
    assert_eq!(run.finish().call_list.len(), 6);
    assert_eq!(rounds, 3);
}

#[test]
fn attack_with_bad_url_is_request_err() {
    let cmd = command("GET", None, None, 1, 1);
    match Attack::new(&cmd, "::") {
        Err(AttackErr::RequestErr(m)) => {
            assert_eq!(m, "failed to create request err:relative URL without a base");
        },
        _ => panic!("expected a request error"),
    }
}

#[test]
fn attack_err_messages() {
    let e = AttackErr::RequestErr("boom".to_string());
    assert_eq!(e.to_string(), "Attack Err msg: failed to create request err: boom");
    let e = AttackErr::RequestExecutionErr("late".to_string());
    assert_eq!(e.to_string(), "Attack Err msg: failed to execute request err: late");
}

#[test]
fn call_numbers_are_consecutive_and_unique() {
    let cmd = command("GET", None, None, 3, 4);
    let attack = Attack::new(&cmd, "https://example.com/").ok().unwrap();
    let mut run = attack.start();
    let mut all: Vec<u128> = Vec::new();
    assert!(!run.is_done());
    assert_eq!(run.next_round(), Some(vec![1, 2, 3, 4]));
    all.extend([1, 2, 3, 4]);
    run = close(run, &vec![1, 2, 3, 4]);
    assert_eq!(run.next_round(), Some(vec![5, 6, 7, 8]));
    all.extend([5, 6, 7, 8]);
    run = close(run, &vec![5, 6, 7, 8]);
    assert_eq!(run.next_round(), Some(vec![9, 10, 11, 12]));
    all.extend([9, 10, 11, 12]);
    run = close(run, &vec![9, 10, 11, 12]);
    assert!(run.is_done());
    assert_eq!(run.next_round(), None);
    assert_eq!(run.next_round(), None);
    let mut sorted = all.clone();
    sorted.dedup();
    assert_eq!(sorted.len(), 12);
}

#[test]
fn run_without_rounds_or_calls() {
    let cmd = command("GET", None, None, 0, 3);
    let attack = Attack::new(&cmd, "https://example.com/").ok().unwrap();
    let mut run = attack.start();
    assert!(run.is_done());
    assert_eq!(run.next_round(), None);
    let cmd = command("GET", None, None, 2, 0);
    let attack = Attack::new(&cmd, "https://example.com/").ok().unwrap();
    let mut run = attack.start();
    assert_eq!(run.next_round(), Some(vec![]));
    run = close(run, &vec![]);
    assert_eq!(run.next_round(), Some(vec![]));
    run = close(run, &vec![]);
    assert_eq!(run.next_round(), None);
    assert_eq!(run.finish().call_list.len(), 0);
}

#[test]
fn recorded_calls_end_up_in_the_set() {
    let cmd = command("GET", None, None, 1, 2);
    let attack = Attack::new(&cmd, "https://example.com/").ok().unwrap();
    let mut run = attack.start();
    let ids = run.next_round().unwrap();
    assert!(run.in_open_round(ids[0]) && run.in_open_round(ids[1]));
    assert!(!run.in_open_round(3) && !run.in_open_round(0));
    run = run.record(ids[1], Execution::new(12, 200));
    assert!(!run.is_round_recorded());
    run = run.record(ids[0], Execution::new(30, 404));
    run = run.record(ids[1], Execution::new(15, 500));
    assert!(run.is_round_recorded());
    run.close_round();
    let set = run.finish();
    assert_eq!(set.request, "req");
    assert_eq!(set.call_list.len(), 2);
    assert_eq!(set.call_list[&1].status, 404);
    assert_eq!(set.call_list[&1].time_taken, 30);
    assert_eq!(set.call_list[&2].status, 500);
    assert_eq!(set.call_list[&2].time_taken, 15);
    assert_eq!(set.call_list[&2].result, "result");
}

#[test]
fn execution_set_new_keeps_its_parts() {
    let mut calls = HashMap::new();
    calls.insert(7u128, Execution::new(1, 201));
    let set = ExecutionSet::new("load", calls);
    assert_eq!(set.request, "load");
    assert_eq!(set.call_list.len(), 1);
    assert_eq!(set.call_list[&7].status, 201);
}

#[test]
fn attack_result_encoding() {
    let r = AttackResult::new("ok".to_string(), Duration::new(2, 345_678_901));
    assert_eq!(r.encode(), "response: \r\nok\r\ntime_taken: 2345\r\n");
    let r = AttackResult::new(String::new(), Duration::new(0, 999_999));
    assert_eq!(r.encode(), "response: \r\n\r\ntime_taken: 0\r\n");
}

#[test]
fn duration_millis() {
    assert_eq!(Duration::new(0, 0).as_millis(), 0);
    assert_eq!(Duration::new(1, 1_000_000).as_millis(), 1001);
    assert_eq!(Duration::new(u64::MAX, 999_999_999).as_millis(), u64::MAX as u128 * 1000 + 999);
}

#[test]
fn decimal_text() {
    let mut s = String::from("n=");
    push_decimal(&mut s, 0);
    assert_eq!(s, "n=0");
    let mut s = String::new();
    push_decimal(&mut s, 1234567890);
    assert_eq!(s, "1234567890");
    let mut s = String::new();
    push_decimal(&mut s, u128::MAX);
    assert_eq!(s, u128::MAX.to_string());
}

#[test]
fn config_defaults() {
    let c = Config::new(None, None, None).ok().unwrap();
    assert_eq!(c.report_dir, "/home/rishi/goku/");
    assert_eq!(c.api_call_log_dir, "/home/rishi/goku/");
    assert_eq!(c.app_logs_file, "/home/rishi/goku/logs.goku");
}

#[test]
fn config_given_values() {
    let c = Config::new(Some("/r/".to_string()), Some("/l/".to_string()), Some("/a.log".to_string())).ok().unwrap();
    assert_eq!(c.report_dir, "/r/");
    assert_eq!(c.api_call_log_dir, "/l/");
    assert_eq!(c.app_logs_file, "/a.log");
    assert_eq!(c.call_log_path("t1"), "/l/t1.logs.json");
    assert_eq!(c.report_path("t1"), "/r/t1.report.json");
}

#[test]
fn log_records() {
    let t = TestInstance { test_name: "smoke".to_string(), test_time: "2024-01-02 03:04:05 +00:00".to_string() };
    assert_eq!(t.encode(), "test_name: smoke\r\ntest_time: 2024-01-02 03:04:05 +00:00\r\n");
    let c = Call::new("T".to_string(), "attack".to_string(), "GET /".to_string(), "200".to_string());
    assert_eq!(c.encode(), "T\t attack\r\nGET /\r\n200\r\n");
    assert_eq!(log_path("/tmp/logs", "smoke"), "/tmp/logs/smoke.goku");
}

#[test]
fn raw_request_without_params_or_headers() {
    let r = RawRequest::new("POST", "https://jsonplaceholder.typicode.com/posts", "", "", Some("{\"a\":1}".to_string()))
        .unwrap();
    assert_eq!(
        r.as_str(),
        "POST /posts HTTP/1.1\r\nContent-Type: application/json\r\nHost: jsonplaceholder.typicode.com\r\n\r\n{\"a\":1}"
    );
}

#[test]
fn raw_request_with_params_and_header() {
    let r = RawRequest::new("GET", "http://example.com/p", "{\"X-Key\": \"abc\"}", "{\"k\": \"v\"}", None).unwrap();
    assert_eq!(
        r.as_str(),
        "GET /p HTTP/1.1\r\nContent-Type: application/json\r\nHost: jsonplaceholder.typicode.com\r\nx-key: abc\r\n"
    );
}

#[test]
fn raw_request_line_holds_the_path_without_query() {
    let r = RawRequest::assemble(
        "GET",
        "http://example.com/p",
        Some(vec![("a".to_string(), "1".to_string()), ("b".to_string(), "2&".to_string())]),
        &vec![],
        None,
    )
    .unwrap();
    assert_eq!(r.as_str(), "GET /p HTTP/1.1\r\nContent-Type: application/json\r\nHost: jsonplaceholder.typicode.com\r\n\r\n");
}

#[test]
fn raw_request_rejects_bad_json() {
    assert!(RawRequest::new("GET", "http://example.com/", "", "{\"k\": 1}", None).is_none());
    assert!(RawRequest::new("GET", "http://example.com/", "nope", "", None).is_none());
}

#[test]
fn raw_request_rejects_bad_method_or_header() {
    assert!(RawRequest::new("BAD METHOD", "http://example.com/", "", "", None).is_none());
    assert!(RawRequest::new("GET", "http://example.com/", "{\"bad name\": \"v\"}", "", None).is_none());
}

#[test]
fn build_uri_trims_trailing_ampersands() {
    let uri = goku::engine::tcp::build_uri(
        "http://h/p",
        &vec![("a".to_string(), "1".to_string()), ("b".to_string(), "x&".to_string())],
    );
    assert_eq!(uri, "http://h/p?a=1&b=x");
    let uri = goku::engine::tcp::build_uri("http://h/p", &vec![]);
    assert_eq!(uri, "http://h/p?");
}

#[test]
fn method_from_lowercase_name() {
    assert_eq!(Method::from_lowercase(&"get".to_string()), Some(Method::GET));
    assert_eq!(Method::from_lowercase(&"post".to_string()), Some(Method::POST));
    assert_eq!(Method::from_lowercase(&"POST".to_string()), None);
}

#[test]
fn raw_request_from_head() {
    let head = (
        "PUT".to_string(),
        "/a/b".to_string(),
        "HTTP/1.1".to_string(),
        vec![("x-a".to_string(), Some("1".to_string())), ("x-b".to_string(), Some("2".to_string()))],
    );
    let r = RawRequest::from_head(head, Some("body".to_string())).unwrap();
    assert_eq!(
        r.as_str(),
        "PUT /a/b HTTP/1.1\r\nContent-Type: application/json\r\nHost: jsonplaceholder.typicode.com\r\nx-a: 1\r\nx-b: 2\r\nbody"
    );
    let head = ("GET".to_string(), "/".to_string(), "HTTP/1.1".to_string(), vec![("x".to_string(), None)]);
    assert!(RawRequest::from_head(head, None).is_none());
}

#[test]
fn attack_carries_the_body() {
    let mut cmd = command("POST", None, None, 1, 1);
    cmd.body = Some("{\"title\": \"x\"}".to_string());
    let attack = Attack::new(&cmd, "https://example.com/").ok().unwrap();
    assert_eq!(attack.prepare().body, Some("{\"title\": \"x\"}".to_string()));
    let cmd = command("GET", None, None, 1, 1);
    let attack = Attack::new(&cmd, "https://example.com/").ok().unwrap();
    assert_eq!(attack.prepare().body, None);
}

#[test]
fn a_round_stays_open_until_closed() {
    let cmd = command("GET", None, None, 2, 2);
    let attack = Attack::new(&cmd, "https://example.com/").ok().unwrap();
    let mut run = attack.start();
    assert!(!run.is_round_open());
    let ids = run.next_round().unwrap();
    assert!(run.is_round_open());
    run = run.record(ids[0], Execution::new(1, 200));
    assert!(run.is_round_open());
    assert!(!run.is_round_recorded());
    run = run.record(ids[1], Execution::new(2, 200));
    run.close_round();
    assert!(!run.is_round_open());
    assert!(!run.is_round_recorded());
    assert_eq!(run.next_round(), Some(vec![3, 4]));
    assert!(run.is_round_open());
    run = close(run, &vec![3, 4]);
    assert!(run.is_done());
    let set = run.finish();
    let mut keys: Vec<u128> = set.call_list.keys().copied().collect();
    keys.sort();
    assert_eq!(keys, vec![1, 2, 3, 4]);
}
