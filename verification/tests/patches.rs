//! The patch tool.

use chat_wire::apply_patch::{
    apply_patch_payload_command, patch_input, require_environment_id, ApplyPatchHandler,
    ApplyPatchToolType, PatchFlow, PatchOutcome, PatchReport, PatchStage, PatchTool, ToolPayload,
};
use chat_wire::json::{parse_json, to_value};
use chat_wire::patch_paths::{
    effective_patch_permissions, file_paths_for_action, write_permissions_for_paths, write_roots,
    FilePath, PatchedFile, PathPart, PathPrefix,
};
use chat_wire::patch_progress::{
    convert_apply_patch_hunks_to_protocol, format_update_chunks_for_progress,
    ApplyPatchArgumentDiffConsumer, FileChange, FunctionCallError, Hunk, UpdateFileChunk,
};

fn path(text: &str) -> FilePath {
    let mut parts: Vec<PathPart> = Vec::new();
    if text.starts_with('/') {
        parts.push(PathPart::Root);
    }
    for part in text.split('/').filter(|part| !part.is_empty()) {
        parts.push(match part {
            "." => PathPart::Current,
            ".." => PathPart::Parent,
            other => PathPart::Normal(other.as_bytes().to_vec()),
        });
    }
    FilePath { parts }
}

fn shown(path: &FilePath) -> String {
    let mut text = String::new();
    for part in &path.parts {
        match part {
            PathPart::Prefix(prefix) => text.push_str(&format!("{prefix:?}")),
            PathPart::Root => text.push('/'),
            PathPart::Current => text.push_str("./"),
            PathPart::Parent => text.push_str("../"),
            PathPart::Normal(name) => {
                text.push_str(&String::from_utf8_lossy(name));
                text.push('/');
            }
        }
    }
    text
}

fn chunk(context: Option<&str>, old: &[&str], new: &[&str], eof: bool) -> UpdateFileChunk {
    UpdateFileChunk {
        change_context: context.map(|text| text.to_string()),
        old_lines: old.iter().map(|line| line.to_string()).collect(),
        new_lines: new.iter().map(|line| line.to_string()).collect(),
        is_end_of_file: eof,
    }
}

fn add(name: &str, contents: &str) -> Hunk {
    Hunk::AddFile { path: path(name), contents: contents.to_string() }
}

fn message(error: FunctionCallError) -> String {
    match error {
        FunctionCallError::RespondToModel(text) => text,
        other => panic!("not for the model: {other:?}"),
    }
}

fn ok(text: &str) -> Result<String, String> {
    Ok(text.to_string())
}

#[test]
fn chunks_are_shown_as_a_diff() {
    let text = format_update_chunks_for_progress(&[
        chunk(Some("fn main()"), &["a", "b"], &["c"], false),
        chunk(None, &[], &["d"], true),
    ]);
    assert_eq!(text, "@@ fn main()\n-a\n-b\n+c\n@@\n+d\n*** End of File\n");
    assert_eq!(format_update_chunks_for_progress(&[]), "");
}

#[test]
fn the_last_hunk_of_a_file_counts() {
    let changes = convert_apply_patch_hunks_to_protocol(&[
        add("a/x", "one"),
        Hunk::DeleteFile { path: path("b") },
        add("a//x", "two"),
        Hunk::UpdateFile {
            path: path("c"),
            move_path: Some(path("d")),
            chunks: vec![chunk(None, &["1"], &["2"], false)],
        },
    ]);
    assert_eq!(changes.len(), 3);
    assert!(matches!(&changes[0].1, FileChange::Add { content } if content == "two"));
    assert!(matches!(&changes[1].1, FileChange::Delete { content } if content.is_empty()));
    match &changes[2].1 {
        FileChange::Update { unified_diff, move_path: Some(dest) } => {
            assert_eq!(unified_diff, "@@\n-1\n+2\n");
            assert_eq!(shown(dest), "d/");
        }
        other => panic!("unexpected: {other:?}"),
    }
}

#[test]
fn progress_events_keep_their_distance() {
    let mut consumer = ApplyPatchArgumentDiffConsumer::default();
    let start: u64 = 1_000;
    let first = consumer.push_delta("c".to_string(), Some(vec![add("a", "1")]), start);
    assert_eq!(first.expect("event").call_id, "c");
    let held = consumer.push_delta("c".to_string(), Some(vec![add("a", "2")]), start + 499_999_999);
    assert!(held.is_none());
    let sent = consumer.push_delta("c".to_string(), Some(vec![add("a", "3")]), start + 500_000_000);
    assert!(matches!(
        &sent.expect("event").changes[0].1,
        FileChange::Add { content } if content == "3"
    ));
    assert!(consumer.finish_update_on_complete(Ok(()), start + 600_000_000).expect("ok").is_none());
}

#[test]
fn held_back_events_are_sent_at_the_end() {
    let mut consumer = ApplyPatchArgumentDiffConsumer::default();
    assert!(consumer.push_delta("c".to_string(), Some(vec![add("a", "1")]), 0).is_some());
    assert!(consumer.push_delta("c".to_string(), Some(vec![add("a", "2")]), 1).is_none());
    assert!(consumer.push_delta("c".to_string(), Some(vec![]), 2).is_none());
    assert!(consumer.push_delta("c".to_string(), None, 3).is_none());
    let refused = consumer.finish_update_on_complete(Err("no end".to_string()), 4);
    assert_eq!(message(refused.unwrap_err()), "failed to parse apply_patch: no end");
    let event = consumer.finish_update_on_complete(Ok(()), 5).expect("ok").expect("event");
    assert!(matches!(&event.changes[0].1, FileChange::Add { content } if content == "2"));
    assert!(consumer.push_delta("c".to_string(), Some(vec![add("a", "3")]), 6).is_none());
}

#[test]
fn switched_off_progress_events_do_nothing() {
    let handler = ApplyPatchHandler::default();
    let mut consumer = handler.create_diff_consumer().expect("consumer");
    assert!(consumer.consume_diff(false, "c".to_string(), Some(vec![add("a", "1")]), 0).is_none());
    assert!(consumer.consume_diff(true, "c".to_string(), Some(vec![add("a", "1")]), 1).is_some());
}

#[test]
fn touched_paths_include_destinations() {
    let files = vec![
        PatchedFile { path: path("/w/a"), move_path: None },
        PatchedFile { path: path("/w/b"), move_path: Some(path("/v/c")) },
    ];
    let paths: Vec<String> = file_paths_for_action(&files).iter().map(shown).collect();
    assert_eq!(paths, vec!["/w/a/", "/w/b/", "/v/c/"]);
}

#[test]
fn unwritable_directories_are_asked_for_once_and_in_order() {
    let files = vec![path("/z/f"), path("/b/g"), path("/a/h"), path("/b/i"), path("/"), path("/b/c/d")];
    let roots = write_roots(&files);
    let names: Vec<String> = roots.iter().map(shown).collect();
    assert_eq!(names, vec!["/z/", "/b/", "/a/", "/b/", "/", "/b/c/"]);
    let asked = write_permissions_for_paths(&roots, &vec![false, false, true, false, false, false])
        .expect("permissions");
    let names: Vec<String> = asked.iter().map(shown).collect();
    assert_eq!(names, vec!["/", "/b/", "/b/c/", "/z/"]);
    assert!(write_permissions_for_paths(&roots, &vec![true; 6]).is_none());
    assert!(write_permissions_for_paths(&vec![], &vec![]).is_none());
}

fn under(prefix: PathPrefix, names: &[&str]) -> FilePath {
    let mut parts = vec![PathPart::Prefix(prefix), PathPart::Root];
    for name in names {
        parts.push(PathPart::Normal(name.as_bytes().to_vec()));
    }
    FilePath { parts }
}

#[test]
fn drive_letters_are_the_same_in_either_case() {
    assert!(under(PathPrefix::Disk(b'c'), &["x"]).same(&under(PathPrefix::Disk(b'C'), &["x"])));
    assert!(under(PathPrefix::Disk(b'b'), &["x"]).precedes(&under(PathPrefix::Disk(b'C'), &["x"])));
    assert!(under(PathPrefix::Disk(b'C'), &["x"]).precedes(&under(PathPrefix::Disk(b'd'), &["x"])));
    assert!(!under(PathPrefix::Disk(b'C'), &["x"])
        .same(&under(PathPrefix::VerbatimDisk(b'C'), &["x"])));
    let roots = vec![under(PathPrefix::Disk(b'c'), &[]), under(PathPrefix::Disk(b'C'), &[])];
    let asked = write_permissions_for_paths(&roots, &vec![false, false]).expect("permissions");
    assert_eq!(asked.len(), 1);
}

#[test]
fn prefixes_are_ordered_by_kind() {
    let name = |text: &str| text.as_bytes().to_vec();
    let prefixes = vec![
        under(PathPrefix::Verbatim(name("z")), &[]),
        under(PathPrefix::VerbatimUnc(name("s"), name("z")), &[]),
        under(PathPrefix::VerbatimDisk(b'Z'), &[]),
        under(PathPrefix::DeviceNs(name("z")), &[]),
        under(PathPrefix::Unc(name("s"), name("a")), &["z"]),
        under(PathPrefix::Unc(name("s"), name("b")), &["a"]),
        under(PathPrefix::Unc(name("t"), name("a")), &[]),
        under(PathPrefix::Disk(b'A'), &[]),
    ];
    for i in 0..prefixes.len() {
        for j in 0..prefixes.len() {
            assert_eq!(prefixes[i].precedes(&prefixes[j]), i < j);
            assert_eq!(prefixes[i].same(&prefixes[j]), i == j);
        }
    }
}

#[test]
fn permissions_are_needed_for_touched_paths() {
    let files = vec![PatchedFile { path: path("/w/a"), move_path: Some(path("/v/b")) }];
    let needed = effective_patch_permissions(&files);
    let paths: Vec<String> = needed.file_paths.iter().map(shown).collect();
    let roots: Vec<String> = needed.roots.iter().map(shown).collect();
    assert_eq!(paths, vec!["/w/a/", "/v/b/"]);
    assert_eq!(roots, vec!["/w/", "/v/"]);
}

#[test]
fn paths_are_ordered_by_components() {
    assert!(path("/a/z").precedes(&path("/a-b")));
    assert!(path("/a").precedes(&path("/a/b")));
    assert!(path("../x").precedes(&path("+")));
    assert!(path("/b").precedes(&path("/\u{e9}")));
    assert!(!path("/a").precedes(&path("/a")));
    assert!(path("/a//b").same(&path("/a/b")));
    let drive = under(PathPrefix::Disk(b'C'), &[]);
    assert!(drive.precedes(&path("/a")));
    assert!(write_permissions_for_paths(&write_roots(&vec![drive]), &vec![false]).is_some());
}

#[test]
fn names_need_not_be_utf8() {
    let file = |name: &[u8]| FilePath {
        parts: vec![PathPart::Root, PathPart::Normal(name.to_vec()), PathPart::Normal(vec![0xff])],
    };
    let roots = write_roots(&vec![file(b"\xff"), file(b"\xfe")]);
    let asked = write_permissions_for_paths(&roots, &vec![false, false]).expect("permissions");
    assert_eq!(asked.len(), 2);
    assert!(matches!(&asked[0].parts[1], PathPart::Normal(name) if name == b"\xfe"));
    assert!(matches!(&asked[1].parts[1], PathPart::Normal(name) if name == b"\xff"));
}

#[test]
fn both_kinds_of_call_hold_a_patch() {
    let custom = ToolPayload::Custom { input: "patch".to_string() };
    let function = ToolPayload::Function { arguments: r#"{"input":"p"}"#.to_string() };
    assert_eq!(apply_patch_payload_command(&custom, &ok("ignored")), Some("patch".to_string()));
    assert_eq!(apply_patch_payload_command(&function, &ok("p")), Some("p".to_string()));
    assert_eq!(apply_patch_payload_command(&function, &Err("bad".to_string())), None);
    assert_eq!(apply_patch_payload_command(&ToolPayload::Other, &ok("p")), None);
    assert_eq!(patch_input(&custom, &ok("")).expect("patch"), "patch");
    assert_eq!(
        message(patch_input(&function, &Err("missing field".to_string())).unwrap_err()),
        "apply_patch arguments are not valid JSON: missing field"
    );
    assert_eq!(
        message(patch_input(&ToolPayload::Other, &ok("")).unwrap_err()),
        "apply_patch handler received unsupported payload"
    );
}

#[test]
fn handlers_offer_the_tool_of_their_type() {
    let handler = ApplyPatchHandler::default();
    assert_eq!(handler.tool_name(), "apply_patch");
    assert_eq!(handler.spec_choice(), PatchTool::Freeform { multi_environment: false });
    let handler = ApplyPatchHandler::new(true, ApplyPatchToolType::Freeform);
    assert_eq!(handler.spec_choice(), PatchTool::Freeform { multi_environment: true });
    let handler = ApplyPatchHandler::new(true, ApplyPatchToolType::Function);
    assert_eq!(handler.spec_choice(), PatchTool::Function);
    assert!(handler.matches_kind(&ToolPayload::Custom { input: String::new() }));
    assert!(handler.matches_kind(&ToolPayload::Function { arguments: String::new() }));
    assert!(!handler.matches_kind(&ToolPayload::Other));
}

#[test]
fn hooks_get_the_patch_as_a_command() {
    let handler = ApplyPatchHandler::default();
    let custom = ToolPayload::Custom { input: "patch".to_string() };
    let pre = handler.pre_tool_use_payload(&custom, &ok("")).expect("payload");
    assert_eq!(pre.tool_name, "apply_patch");
    assert_eq!(to_value(&pre.tool_input)["command"], "patch");
    assert!(handler.pre_tool_use_payload(&ToolPayload::Other, &ok("")).is_none());
    let response = parse_json(r#""done""#);
    let post = handler
        .post_tool_use_payload("call-1", &custom, &ok(""), response)
        .expect("payload");
    assert_eq!(post.tool_name, "apply_patch");
    assert_eq!(post.tool_use_id, "call-1");
    assert_eq!(to_value(&post.tool_input)["command"], "patch");
    assert_eq!(to_value(&post.tool_response), "done");
    assert!(handler.post_tool_use_payload("call-1", &custom, &ok(""), None).is_none());
    assert!(handler
        .post_tool_use_payload("call-1", &ToolPayload::Other, &ok(""), parse_json("1"))
        .is_none());
}

#[test]
fn updated_patches_go_back_in_their_form() {
    let handler = ApplyPatchHandler::default();
    let custom = ToolPayload::Custom { input: "old".to_string() };
    assert!(matches!(
        handler.with_updated_hook_input(custom, Ok("new".to_string())),
        Ok(ToolPayload::Custom { input }) if input == "new"
    ));
    let function = ToolPayload::Function { arguments: "{}".to_string() };
    match handler.with_updated_hook_input(function, Ok("say \"hi\"\n".to_string())) {
        Ok(ToolPayload::Function { arguments }) => {
            assert_eq!(arguments, r#"{"input":"say \"hi\"\n"}"#);
            let decoded: serde_json::Value = serde_json::from_str(&arguments).expect("valid JSON");
            assert_eq!(decoded["input"], "say \"hi\"\n");
        }
        other => panic!("unexpected: {other:?}"),
    }
    assert!(matches!(
        handler.with_updated_hook_input(ToolPayload::Other, Ok("new".to_string())),
        Ok(ToolPayload::Other)
    ));
    let refused = handler.with_updated_hook_input(
        ToolPayload::Other,
        Err(FunctionCallError::RespondToModel("no command".to_string())),
    );
    assert_eq!(message(refused.unwrap_err()), "no command");
}

#[test]
fn environments_are_selected_where_allowed() {
    assert_eq!(require_environment_id(None, false).expect("ok"), None);
    assert_eq!(require_environment_id(Some("e"), true).expect("ok"), Some("e".to_string()));
    assert_eq!(
        message(require_environment_id(Some("e"), false).unwrap_err()),
        "apply_patch environment selection is unavailable for this turn"
    );
}

fn run(mut flow: PatchFlow, reports: Vec<PatchReport>) -> PatchFlow {
    for report in reports {
        flow.on_report(report);
    }
    flow
}

fn started(multi_environment: bool) -> PatchFlow {
    PatchFlow::handle(
        &ApplyPatchHandler::new(multi_environment, ApplyPatchToolType::Freeform),
        &ToolPayload::Custom { input: "patch".to_string() },
        &ok(""),
    )
}

fn failure(flow: &PatchFlow) -> String {
    match flow.stage() {
        PatchStage::Done(PatchOutcome::Failed(FunctionCallError::RespondToModel(text))) => text.clone(),
        other => panic!("no failure: {other:?}"),
    }
}

#[test]
fn a_delegated_patch_is_begun_run_and_finished() {
    let mut flow = started(true);
    assert!(matches!(flow.stage(), PatchStage::Parsing { patch } if patch == "patch"));
    flow.on_report(PatchReport::Parsed { environment_id: Some("e".to_string()) });
    assert!(matches!(
        flow.stage(),
        PatchStage::Resolving { environment_id: Some(id) } if id == "e"
    ));
    flow.on_report(PatchReport::Resolved);
    assert!(matches!(flow.stage(), PatchStage::Verifying));
    flow.on_report(PatchReport::Verified);
    assert!(matches!(flow.stage(), PatchStage::Applying));
    flow.on_report(PatchReport::Delegated);
    assert!(matches!(flow.stage(), PatchStage::Beginning));
    flow.on_report(PatchReport::Finished(Ok("too soon".to_string())));
    assert!(matches!(flow.stage(), PatchStage::Beginning));
    flow.on_report(PatchReport::Begun);
    assert!(matches!(flow.stage(), PatchStage::Running));
    flow.on_report(PatchReport::Ran { succeeded: false });
    assert!(matches!(flow.stage(), PatchStage::Finishing { succeeded: false }));
    flow.on_report(PatchReport::Finished(Ok("out".to_string())));
    assert!(matches!(
        flow.stage(),
        PatchStage::Done(PatchOutcome::Output(text)) if text == "out"
    ));
    flow.on_report(PatchReport::Verified);
    assert!(matches!(flow.stage(), PatchStage::Done(_)));
}

#[test]
fn every_failure_of_a_call_is_told() {
    assert_eq!(
        failure(&PatchFlow::handle(
            &ApplyPatchHandler::default(),
            &ToolPayload::Other,
            &ok("")
        )),
        "apply_patch handler received unsupported payload"
    );
    assert_eq!(
        failure(&run(started(false), vec![PatchReport::ParseFailed("bad".to_string())])),
        "apply_patch verification failed: bad"
    );
    assert_eq!(
        failure(&run(
            started(false),
            vec![PatchReport::Parsed { environment_id: Some("e".to_string()) }]
        )),
        "apply_patch environment selection is unavailable for this turn"
    );
    let parsed = || PatchReport::Parsed { environment_id: None };
    assert_eq!(
        failure(&run(started(false), vec![parsed(), PatchReport::Unresolved])),
        "apply_patch is unavailable in this session"
    );
    assert_eq!(
        failure(&run(
            started(false),
            vec![
                parsed(),
                PatchReport::ResolveFailed(FunctionCallError::RespondToModel("gone".to_string()))
            ]
        )),
        "gone"
    );
    let verifying = || vec![parsed(), PatchReport::Resolved];
    let with = |report: PatchReport| {
        let mut reports = verifying();
        reports.push(report);
        reports
    };
    assert_eq!(
        failure(&run(started(false), with(PatchReport::CorrectnessError("x".to_string())))),
        "apply_patch verification failed: x"
    );
    assert_eq!(
        failure(&run(started(false), with(PatchReport::ShellParseError))),
        "apply_patch handler received invalid patch input"
    );
    assert_eq!(
        failure(&run(started(false), with(PatchReport::NotApplyPatch))),
        "apply_patch handler received non-apply_patch input"
    );
    let mut reports = with(PatchReport::Verified);
    reports.push(PatchReport::Settled(Err(FunctionCallError::RespondToModel("no".to_string()))));
    assert_eq!(failure(&run(started(false), reports)), "no");
}

#[test]
fn commands_that_are_no_patch_are_handed_back() {
    for report in [PatchReport::ShellParseError, PatchReport::NotApplyPatch] {
        let flow = run(PatchFlow::intercept(), vec![report]);
        assert!(matches!(flow.stage(), PatchStage::Done(PatchOutcome::NotHandled)));
    }
    let flow = run(
        PatchFlow::intercept(),
        vec![PatchReport::CorrectnessError("x".to_string())],
    );
    assert_eq!(failure(&flow), "apply_patch verification failed: x");
    let flow = run(
        PatchFlow::intercept(),
        vec![PatchReport::Verified, PatchReport::Settled(Ok("done".to_string()))],
    );
    assert!(matches!(
        flow.stage(),
        PatchStage::Done(PatchOutcome::Output(text)) if text == "done"
    ));
}

#[test]
fn outputs_of_commands_bear_the_mark_of_success() {
    let settled = || PatchReport::Settled(Ok("done".to_string()));
    let command = run(PatchFlow::intercept(), vec![PatchReport::Verified, settled()]);
    let output = command.answer().expect("over").expect("ok").expect("handled");
    assert_eq!(output.content, "done");
    assert_eq!(output.success, Some(true));
    let parsed = PatchReport::Parsed { environment_id: None };
    let call = run(
        started(false),
        vec![parsed, PatchReport::Resolved, PatchReport::Verified, settled()],
    );
    let output = call.answer().expect("over").expect("ok").expect("handled");
    assert_eq!(output.content, "done");
    assert_eq!(output.success, None);
    let no_patch = run(PatchFlow::intercept(), vec![PatchReport::NotApplyPatch]);
    assert!(no_patch.answer().expect("over").expect("ok").is_none());
    assert!(PatchFlow::intercept().answer().is_none());
}

#[test]
fn errors_of_other_kinds_are_handed_on() {
    let failed = PatchReport::Settled(Err(FunctionCallError::Other {
        kind: "fatal".to_string(),
        message: "disk gone".to_string(),
    }));
    let flow = run(PatchFlow::intercept(), vec![PatchReport::Verified, failed]);
    assert!(matches!(
        flow.answer(),
        Some(Err(FunctionCallError::Other { kind, message }))
            if kind == "fatal" && message == "disk gone"
    ));
}
