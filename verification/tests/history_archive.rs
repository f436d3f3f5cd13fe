use coding_tools::history::{
    bounded_progress, build_state, current_document, focus_text, latest_user_focus,
    push_record_progress, ArchiveDigest, CheckpointRecord, InitialInputRecord,
    bootstrap_identity, bounded_usize, check_checkpoint_target, check_history_sequence,
    checkpoint_target, checkpoint_warnings, current_reference, derived_file_warnings,
    derived_statuses, ensure_creation_allowed, is_duplicate, latest_revisions,
    new_session_location, next_revision, next_state_revision, page_end, plan_resume,
    push_bounded, recent_references, record_focus, requested_initial_input,
    required_checkpoint_argument, resolve_session_key, search_page, select_document,
    truncate_text, validate_cursor, validate_session_key, verify_expected_hash, DerivedObservations,
    DerivedRead, HistoryDocument, ManifestEntry, NumberArg, Stored, StoredRevision,
};

#[test]
fn session_keys_are_bounded_and_resolved() {
    assert!(validate_session_key(&"k".repeat(4096), "explicit_session_key").is_ok());
    let e = validate_session_key(&"k".repeat(4097), "explicit_session_key").unwrap_err();
    assert_eq!(e.code, "SESSION_ID_INVALID");
    // 1366 three-byte characters take 4098 bytes.
    assert!(validate_session_key(&"会".repeat(1366), "x").is_err());
    let (k, source) = resolve_session_key(Some("  abc "), Some("host")).unwrap();
    assert_eq!((k.as_str(), source), ("abc", "explicit_session_key"));
    let (k, source) = resolve_session_key(Some("   "), Some(" host ")).unwrap();
    assert_eq!((k.as_str(), source), ("host", "platform_conversation_id"));
    assert_eq!(resolve_session_key(None, None).unwrap_err().code, "SESSION_ID_UNAVAILABLE");
    let id = bootstrap_identity(Some("abc"), Some("other")).unwrap();
    assert!(id.host_mismatch);
    assert!(!bootstrap_identity(None, Some("h")).unwrap().host_mismatch);
}

#[test]
fn checkpoint_arguments_and_target() {
    assert_eq!(required_checkpoint_argument(Some(" p "), "expected_path").unwrap(), "p");
    let e = required_checkpoint_argument(None, "expected_path").unwrap_err();
    assert_eq!(e.code, "CHECKPOINT_TARGET_REQUIRED");
    let t = checkpoint_target(Some("key"), Some("history/1.md"), Some("key")).unwrap();
    assert!(!t.host_mismatch);
    assert!(check_checkpoint_target(&t, "history/1.md").is_ok());
    assert_eq!(check_checkpoint_target(&t, "history/2.md").unwrap_err().code, "SESSION_TARGET_MISMATCH");
}

#[test]
fn numeric_arguments_are_bounded() {
    assert_eq!(bounded_usize(&NumberArg::Absent, "limit", 10, 50).unwrap(), 10);
    assert_eq!(bounded_usize(&NumberArg::Value(50), "limit", 10, 50).unwrap(), 50);
    let e = bounded_usize(&NumberArg::Value(0), "limit", 10, 50).unwrap_err();
    assert_eq!(e.message, "limit is outside the allowed range.");
    assert_eq!(bounded_usize(&NumberArg::Value(0), "cursor", 0, 50).unwrap(), 0);
    assert!(bounded_usize(&NumberArg::Value(51), "cursor", 0, 50).is_err());
    assert!(bounded_usize(&NumberArg::Invalid, "cursor", 0, 50).is_err());
}

#[test]
fn read_pages_stop_on_character_boundaries() {
    let content = "ab会cd";
    assert!(validate_cursor(content, 2).is_ok());
    assert!(validate_cursor(content, 3).is_err());
    assert!(validate_cursor(content, 8).is_err());
    assert_eq!(page_end(content, 0, 3), 2);
    assert_eq!(page_end(content, 2, 1), 5);
    assert_eq!(page_end(content, 2, 3), 5);
    assert_eq!(page_end(content, 5, 100), 7);
    assert_eq!(page_end(content, 7, 4), 7);
    let mut cursor = 0;
    let mut pages = Vec::new();
    while cursor < content.len() {
        let end = page_end(content, cursor, 1);
        pages.push(&content[cursor..end]);
        cursor = end;
    }
    assert_eq!(pages.concat(), content);
}

#[test]
fn search_pages_cover_results() {
    let p = search_page(25, 0, 10);
    assert_eq!((p.start, p.end, p.next_cursor), (0, 10, Some(10)));
    let p = search_page(25, 20, 10);
    assert_eq!((p.start, p.end, p.next_cursor), (20, 25, None));
    let p = search_page(5, 9, 10);
    assert_eq!((p.start, p.end), (5, 5));
    assert!(verify_expected_hash(None, "h").is_ok());
    assert!(verify_expected_hash(Some("h"), "h").is_ok());
    let e = verify_expected_hash(Some("g"), "h").unwrap_err();
    assert!(e.retryable);
}

#[test]
fn documents_are_selected_by_number_or_path() {
    let docs = vec![
        HistoryDocument { number: 1, path: "h/1.md".into(), content: "one".into() },
        HistoryDocument { number: 2, path: "h/2.md".into(), content: "two".into() },
    ];
    assert_eq!(select_document(&docs, Some(2), Some("h/1.md")).unwrap(), 1);
    assert_eq!(select_document(&docs, None, Some("h/1.md")).unwrap(), 0);
    assert_eq!(select_document(&docs, None, None).unwrap_err().code, "HISTORY_READ_NOT_FOUND");
    assert!(check_history_sequence(&vec![], &vec![]).is_ok());
    assert_eq!(check_history_sequence(&vec!["k".into()], &vec![3]).unwrap_err().code, "HISTORY_INDEX_CONFLICT");
    assert_eq!(check_history_sequence(&vec![], &vec![3]).unwrap_err().code, "HISTORY_SEQUENCE_CONFLICT");
}

#[test]
fn bounded_state_lists() {
    assert_eq!(truncate_text("abcdef", 3), "abc...");
    let mut target: Vec<String> = vec!["a".into()];
    let values: Vec<String> = (0..20).map(|i| format!(" v{i} ")).chain(["a".to_string(), "  ".to_string()]).collect();
    push_bounded(&mut target, &values);
    assert_eq!(target.len(), 12);
    assert_eq!(target[1], "v0");
    assert_eq!(target[11], "v10");
    let mut fresh: Vec<String> = Vec::new();
    push_bounded(&mut fresh, &vec![" x ".into(), "x".into(), "y".repeat(600)]);
    assert_eq!(fresh.len(), 2);
    assert_eq!(fresh[1].chars().count(), 515);
}

#[test]
fn latest_revision_of_each_turn() {
    let ids: Vec<String> = ["t1", "t2", "t1", "t3", "t2"].iter().map(|s| s.to_string()).collect();
    assert_eq!(latest_revisions(&ids), vec![2, 3, 4]);
    assert_eq!(next_revision("t1", &vec![]), (1, None));
    assert_eq!(next_revision("t1", &vec![1, 3, 2]), (4, Some("t1 revision-3".to_string())));
    assert_eq!(next_revision("initial-input", &vec![2]).1.as_deref(), Some("initial-input revision-2"));
    assert!(is_duplicate(&vec!["f1".into(), "f2".into()], "f2"));
    assert!(!is_duplicate(&vec![], "f2"));
    assert_eq!(record_focus("  ", "intent").as_deref(), Some("intent"));
    assert_eq!(record_focus(" raw ", "intent").as_deref(), Some(" raw "));
    assert_eq!(record_focus("", " "), None);
}

#[test]
fn references_point_at_current_and_recent_archives() {
    let entries: Vec<ManifestEntry> =
        (1..=12).map(|n| ManifestEntry { number: n, path: format!("h/{n}.md") }).collect();
    let current = current_reference(&entries, Some(5)).unwrap();
    assert_eq!((current.number, current.path.as_str()), (5, "h/5.md"));
    assert_eq!(current.reason, "当前 ChatGPT 会话档案");
    assert!(current_reference(&entries, Some(99)).is_none());
    let recent = recent_references(&entries, Some(11));
    let numbers: Vec<u64> = recent.iter().map(|r| r.number).collect();
    assert_eq!(numbers, vec![12, 10, 9, 8, 7, 6, 5, 4]);
}

#[test]
fn derived_files_status_and_warnings() {
    let rev = |v: u64, a: &str, s: u64| StoredRevision { version: v, archive_revision: a.into(), state_revision: s };
    let all_fresh = DerivedObservations {
        index: Stored::Valid(true),
        manifest: Stored::Valid("sha256:x".into()),
        state: Stored::Valid(rev(3, "sha256:x", 4)),
        snapshot: Stored::Valid(rev(1, "sha256:x", 4)),
        expected_archive_revision: "sha256:x".into(),
    };
    let s = derived_statuses(&all_fresh);
    assert_eq!(s.snapshot_consistency, "consistent");
    assert!(s.index_fresh && s.manifest_fresh && s.state_fresh && s.snapshot_fresh);
    let stale = DerivedObservations {
        index: Stored::Valid(true),
        manifest: Stored::Valid("sha256:old".into()),
        state: Stored::Valid(rev(3, "sha256:x", 4)),
        snapshot: Stored::Valid(rev(1, "sha256:x", 3)),
        expected_archive_revision: "sha256:x".into(),
    };
    let s = derived_statuses(&stale);
    assert_eq!(s.snapshot_consistency, "stale");
    assert!(!s.manifest_fresh && !s.snapshot_fresh);
    let broken = DerivedObservations {
        index: Stored::Missing,
        manifest: Stored::Invalid,
        state: Stored::Missing,
        snapshot: Stored::Valid(rev(1, "sha256:x", 3)),
        expected_archive_revision: "sha256:x".into(),
    };
    let s = derived_statuses(&broken);
    assert_eq!((s.index, s.manifest, s.snapshot_consistency), ("missing", "invalid", "invalid"));
    let w = derived_file_warnings(&vec![
        ("历史索引".to_string(), DerivedRead::Valid),
        ("memory/state.json".to_string(), DerivedRead::Missing),
        ("memory/snapshot.json".to_string(), DerivedRead::Invalid),
    ]);
    assert_eq!(w, vec!["memory/state.json 缺失，已根据 Markdown 档案重建。", "memory/snapshot.json 损坏，已根据 Markdown 档案重建。"]);
    assert_eq!(checkpoint_warnings(true, false, false).len(), 0);
    assert_eq!(checkpoint_warnings(false, true, true).len(), 3);
}

#[test]
fn bootstrap_decisions() {
    assert_eq!(requested_initial_input(Some("")), None);
    assert_eq!(requested_initial_input(Some(" hi ")).as_deref(), Some(" hi "));
    let p = plan_resume(false, false);
    assert!(!p.append_initial_input && p.warn_missing_input && !p.initial_input_captured);
    let p = plan_resume(true, true);
    assert!(p.append_initial_input && !p.warn_missing_input && p.initial_input_captured);
    assert!(ensure_creation_allowed(None, "explicit_session_key").is_ok());
    assert_eq!(ensure_creation_allowed(Some(false), "x").unwrap_err().code, "SESSION_NOT_BOOTSTRAPPED");
    assert_eq!(new_session_location(Some(7), "history"), (8, "history/8.md".to_string()));
    assert_eq!(new_session_location(None, ".history"), (1, ".history/1.md".to_string()));
    assert_eq!(next_state_revision(Some(4)), 5);
    assert_eq!(next_state_revision(None), 1);
}

fn strings(v: &[&str]) -> Vec<String> {
    v.iter().map(|s| s.to_string()).collect()
}

fn record(turn: &str, raw: &str, intent: &str, files: &[&str], open: &[&str]) -> CheckpointRecord {
    CheckpointRecord {
        turn_id: turn.into(),
        raw_user_input: raw.into(),
        user_intent: intent.into(),
        files_changed: strings(files),
        decisions: vec![],
        remaining_issues: strings(open),
        next_actions: vec![],
    }
}

fn digest(number: u64, title: &str, records: Vec<CheckpointRecord>, inputs: Vec<InitialInputRecord>) -> ArchiveDigest {
    ArchiveDigest { number, title: title.into(), records, initial_inputs: inputs }
}

#[test]
fn record_progress_fills_recent_changes_and_open_items() {
    let mut recent = strings(&["a.rs"]);
    let mut open = vec![];
    let r = CheckpointRecord {
        turn_id: "t1".into(),
        raw_user_input: String::new(),
        user_intent: String::new(),
        files_changed: strings(&["a.rs", " b.rs "]),
        decisions: strings(&["use axum"]),
        remaining_issues: strings(&["flaky test"]),
        next_actions: strings(&["", "ship"]),
    };
    push_record_progress(&r, &mut recent, &mut open);
    assert_eq!(recent, strings(&["a.rs", "b.rs", "use axum"]));
    assert_eq!(open, strings(&["flaky test", "ship"]));
}

#[test]
fn bounded_progress_reads_newest_archives_and_latest_revisions_first() {
    let older = digest(1, "old", vec![record("t1", "", "", &["old.rs"], &[])], vec![]);
    let newer = digest(
        2,
        "new",
        vec![
            record("t1", "", "", &["superseded.rs"], &["stale"]),
            record("t2", "", "", &["second.rs"], &[]),
            record("t1", "", "", &["revised.rs"], &["fresh"]),
        ],
        vec![],
    );
    let (recent, open) = bounded_progress(&vec![older, newer]);
    assert_eq!(recent, strings(&["revised.rs", "second.rs", "old.rs"]));
    assert_eq!(open, strings(&["fresh"]));
}

#[test]
fn focus_comes_from_last_record_then_initial_input_then_title() {
    let inputs = vec![
        InitialInputRecord { revision: 1, raw_user_input: "first ask".into() },
        InitialInputRecord { revision: 2, raw_user_input: "second ask".into() },
        InitialInputRecord { revision: 2, raw_user_input: "later second ask".into() },
    ];
    let with_focus = vec![record("t1", "", "older intent", &[], &[]), record("t2", "  ", "fix the build", &[], &[])];
    assert_eq!(latest_user_focus(&with_focus, &inputs), Some("fix the build".to_string()));
    let blank_last = vec![record("t1", "raw earlier", "", &[], &[]), record("t2", " ", " ", &[], &[])];
    assert_eq!(latest_user_focus(&blank_last, &inputs), Some("later second ask".to_string()));
    assert_eq!(latest_user_focus(&blank_last, &vec![]), None);
    let titled = digest(3, "Archive title", blank_last, vec![]);
    assert_eq!(focus_text(Some(&titled)), "Archive title");
    assert_eq!(focus_text(None), "尚未记录当前焦点");
}

#[test]
fn bounded_state_points_at_current_archive() {
    let docs = vec![
        digest(1, "one", vec![record("t1", "ask one", "", &["x.rs"], &[])], vec![]),
        digest(2, "two", vec![], vec![InitialInputRecord { revision: 1, raw_user_input: "hello".into() }]),
    ];
    assert_eq!(current_document(&docs, Some(2)), Some(1));
    assert_eq!(current_document(&docs, Some(9)), None);
    assert_eq!(current_document(&docs, None), None);
    let entries = vec![
        ManifestEntry { number: 1, path: "docs/history-session/1.md".into() },
        ManifestEntry { number: 2, path: "docs/history-session/2.md".into() },
    ];
    let state = build_state(&docs, &entries, "sha256:abc", Some(2), "2024-01-01T00:00:00Z", 7);
    assert_eq!(state.version, 2);
    assert_eq!(state.state_revision, 7);
    assert_eq!(state.archive_revision, "sha256:abc");
    assert_eq!(state.generated_at, "2024-01-01T00:00:00Z");
    assert_eq!(state.current_focus, "hello");
    assert_eq!(state.current_session.as_ref().map(|m| m.number), Some(2));
    assert_eq!(state.recent_changes, strings(&["x.rs"]));
    assert!(state.open_items.is_empty());
    let refs: Vec<u64> = state.references.iter().map(|m| m.number).collect();
    assert_eq!(refs, vec![1]);
}
