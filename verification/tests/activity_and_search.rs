use coding_tools::activity::{
    limit_payload, ActivityQuery, ActivityStore, Payload, StructuredContent, TextField,
    TraceRequest, TraceResponse,
};
use coding_tools::history::HistoryDocument;
use coding_tools::search::{
    collect_hits, keywords_of, search_score, search_snippet, sort_hits, tokenize, SearchEntry,
    SearchHit,
};

fn request(id: &str, tool: &str, session_id: Option<&str>, body: &str) -> TraceRequest {
    TraceRequest {
        rpc_id: id.into(),
        method: "tools/call".into(),
        tool: tool.into(),
        argument_session_id: session_id.map(String::from),
        body_json: body.into(),
    }
}

fn structured(status: &str, session_id: &str) -> StructuredContent {
    StructuredContent {
        ok: Some(true),
        command_ok: None,
        status: Some(status.into()),
        termination_reason: TextField::Absent,
        session_id: Some(session_id.into()),
        operation_id: Some("operation-1".into()),
        command: Some("runner --api-key raw-secret cargo test".into()),
        exit_code: None,
    }
}

#[test]
fn trace_ids_are_unique_and_original_payload_is_preserved() {
    let mut store = ActivityStore::new();
    let body = r#"{"id":0,"method":"tools/call","params":{"name":"exec_command","arguments":{"password":"hidden","nested":{"api_key":"key"},"cmd":"tool --token top-secret PASSWORD=another-secret --verbose"},"_meta":{"openai/session":"conversation-secret"}}}"#;
    let req = request("0", "exec_command", None, body);
    let first = store.begin_trace(&req, Some("conversation-secret"), "session", None).trace_id;
    let second = store.begin_trace(&req, Some("conversation-secret"), "session", None).trace_id;
    assert_ne!(first, second);
    let trace = store.get(&first).expect("trace");
    let text = match trace.request {
        Payload::Full(t) => t,
        _ => panic!("payload kept whole"),
    };
    let value: serde_json::Value = serde_json::from_str(&text).expect("json");
    assert_eq!(value["params"]["arguments"]["password"], "hidden");
    assert_eq!(value["params"]["arguments"]["nested"]["api_key"], "key");
    assert_eq!(
        value["params"]["arguments"]["cmd"],
        "tool --token top-secret PASSWORD=another-secret --verbose"
    );
    assert_eq!(value["params"]["_meta"]["openai/session"], "conversation-secret");
    assert_eq!(trace.session_id, "conversation-secret");
}

#[test]
fn retained_exec_process_is_separate_from_completed_trace() {
    let mut store = ActivityStore::new();
    let process_session = "process-session-long-123456789";
    let body = r#"{"id":0,"method":"tools/call","params":{"name":"exec_command","arguments":{"cmd":"runner --api-key raw-secret cargo test"}}}"#;
    let req = request("0", "exec_command", None, body);
    let trace_id = store.begin_trace(&req, Some("chat-session"), "session", None).trace_id;
    let response = TraceResponse {
        response_json: "{}".into(),
        error_json: None,
        structured: Some(structured("running", process_session)),
    };
    store.complete_trace(&trace_id, &req, &response, None).expect("completed");
    let snapshot = store.snapshot(&ActivityQuery::default());
    assert_eq!(snapshot.traces[0].status, "completed");
    assert_eq!(snapshot.active_processes.len(), 1);
    assert_eq!(snapshot.active_processes[0].status, "running");
    assert_eq!(snapshot.active_processes[0].command, "runner --api-key raw-secret cargo test");
    assert_eq!(snapshot.active_processes[0].session_id, process_session);
    assert_eq!(snapshot.active_processes[0].trace_id, trace_id);

    let follow_body = r#"{"id":0,"method":"tools/call","params":{"name":"read_output","arguments":{"session_id":"process-session-long-123456789"}}}"#;
    let follow_up = request("0", "read_output", Some(process_session), follow_body);
    let follow_up_trace = store.begin_trace(&follow_up, Some("chat-session"), "session", None).trace_id;
    let mut done = structured("exited", process_session);
    done.termination_reason = TextField::Text("exited".into());
    done.exit_code = Some(0);
    let follow_up_response = TraceResponse { response_json: "{}".into(), error_json: None, structured: Some(done) };
    store.complete_trace(&follow_up_trace, &follow_up, &follow_up_response, None).expect("completed");

    let snapshot = store.snapshot(&ActivityQuery::default());
    assert!(snapshot.active_processes.is_empty());
    let follow_up = store.get(&follow_up_trace).expect("follow-up trace");
    assert_eq!(follow_up.parent_trace_id, trace_id);
}

#[test]
fn traces_are_bounded_and_filtered() {
    let mut store = ActivityStore::new();
    for i in 0..1005u64 {
        let tool = if i % 2 == 0 { "read_file" } else { "exec_command" };
        store.begin_trace_at(format!("t{i}"), &request("1", tool, None, "{}"), Some("S"), "session", None, i);
    }
    assert!(store.get("t4").is_none());
    assert!(store.get("t5").is_some());
    let query = ActivityQuery { workspace: String::new(), session: " s ".into(), tool: "READ".into(), status: String::new(), limit: 3 };
    let snap = store.snapshot(&query);
    let ids: Vec<&str> = snap.traces.iter().map(|t| t.trace_id.as_str()).collect();
    assert_eq!(ids, vec!["t1004", "t1002", "t1000"]);
    let failed = TraceResponse { response_json: "{}".into(), error_json: Some("{\"code\":1}".into()), structured: None };
    let (t, p) = store.complete_trace_at("t1004", &request("1", "read_file", None, "{}"), &failed, None, 2000).expect("kept");
    assert_eq!(t.status, "failed");
    assert_eq!(t.duration_ms, Some(2000 - 1004));
    assert!(p.is_none());
    assert!(store.complete_trace_at("missing", &request("1", "x", None, "{}"), &failed, None, 1).is_none());
}

#[test]
fn large_payloads_keep_a_preview() {
    let big = "x".repeat(20_000);
    match limit_payload(&big) {
        Payload::Truncated { original_bytes, preview } => {
            assert_eq!(original_bytes, 20_000);
            assert_eq!(preview.len(), 8192);
        }
        _ => panic!("expected truncation"),
    }
    assert!(matches!(limit_payload("{}"), Payload::Full(_)));
}

#[test]
fn tokens_are_sorted_unique_and_lowercase() {
    assert_eq!(tokenize("Gateway gateway, OAuth-login a 路由"), vec!["gateway", "login", "oauth", "路由"]);
    assert!(tokenize("a b c").is_empty());
    let kw = keywords_of(&vec!["Deploy script".into(), "deploy".into()]);
    assert_eq!(kw, vec!["deploy", "script"]);
}

#[test]
fn scores_and_snippets() {
    let tokens = vec!["oauth".to_string(), "gateway".to_string()];
    let score = search_score("OAuth setup", &vec!["gateway".into()], "the gateway uses oauth", &tokens);
    assert_eq!(score, 16 + 4 + 10 + 4);
    assert_eq!(search_score("x", &vec![], "y", &vec![]), 1);
    let content = format!("{}MATCH here", "a".repeat(100));
    let snippet = search_snippet(&content, &vec!["match".into()]);
    assert_eq!(snippet, format!("{}MATCH here", "a".repeat(81)));
    assert_eq!(search_snippet("  short text  ", &vec![]), "short text");
    assert_eq!(search_snippet("nothing", &vec!["zzz".into()]), "nothing");
}

#[test]
fn hits_are_collected_and_ordered() {
    let entry = |n: u64, updated: &str| SearchEntry {
        number: n,
        path: format!("h/{n}.md"),
        title: format!("Archive {n}"),
        updated_at: updated.into(),
        sha256: "s".into(),
        keywords: vec![],
    };
    let entries = vec![entry(1, "unix:10"), entry(2, "unix:30"), entry(3, "unix:20"), entry(4, "unix:40")];
    let docs = vec![
        HistoryDocument { number: 1, path: "h/1.md".into(), content: "alpha beta".into() },
        HistoryDocument { number: 2, path: "h/2.md".into(), content: "beta".into() },
        HistoryDocument { number: 3, path: "h/3.md".into(), content: "alpha".into() },
    ];
    let hits = collect_hits(&entries, &docs, &vec!["alpha".into()]);
    let numbers: Vec<u64> = hits.iter().map(|h| h.number).collect();
    assert_eq!(numbers, vec![1, 3]);
    let all = collect_hits(&entries, &docs, &vec![]);
    assert_eq!(all.len(), 3);
    let sorted = sort_hits(all);
    let order: Vec<u64> = sorted.iter().map(|h: &SearchHit| h.number).collect();
    assert_eq!(order, vec![2, 3, 1]);
}

#[test]
fn tied_hits_keep_their_input_order() {
    let hit = |n: u64, score: u64, path: &str| SearchHit {
        number: n,
        path: path.into(),
        title: String::new(),
        updated_at: "unix:5".into(),
        sha256: String::new(),
        score,
        snippet: String::new(),
    };
    let hits = vec![hit(7, 1, "first"), hit(9, 3, "top"), hit(7, 1, "second"), hit(7, 1, "third")];
    let sorted = sort_hits(hits);
    let paths: Vec<&str> = sorted.iter().map(|h| h.path.as_str()).collect();
    assert_eq!(paths, vec!["top", "first", "second", "third"]);
}
