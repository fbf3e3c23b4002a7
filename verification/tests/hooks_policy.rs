use toolgate::adapters::{self, cursor, muse, opencode, pi, CursorReply, OpencodeReply, PiReply, Reply};
use toolgate::event::{Harness, NormalizedArgs, Phase, ToolEvent, ToolKind};
use toolgate::hook::{
    allow_unchanged, cursor_read_target, decide_cursor_read, resolve_read_path, HookEnv, HookPaths,
    PreToolUseInput,
};
use toolgate::json::Json;
use toolgate::policy::{
    archive_name, args_has_path_scope, decide, needs_archive, parse_shell_argv, read_target,
    resolve_mode, resolve_path, Decision, HostFacts, Policy, PolicyMode, PolicyOutcome,
};
use toolgate::telemetry::row_from;

fn s(x: &str) -> Json {
    Json::Str(x.to_owned())
}

fn obj(pairs: Vec<(&str, Json)>) -> Json {
    Json::Obj(pairs.into_iter().map(|(k, v)| (k.to_owned(), v)).collect())
}

fn no_facts() -> HostFacts {
    HostFacts {
        read_lines: None,
        archived_at: None,
    }
}

fn ev(tool: ToolKind, phase: Phase, args: NormalizedArgs) -> ToolEvent {
    ToolEvent {
        harness: Harness::Cursor,
        phase,
        tool,
        args,
        output: None,
        session_id: "s".into(),
        cwd: "/tmp/ws".into(),
    }
}

#[test]
fn after_mcp_execution_classifies_as_mcp() {
    let payload = obj(vec![
        ("hook_event_name", s("afterMCPExecution")),
        ("tool_name", s("search_ranked")),
        ("mcp_server_name", s("one-grep")),
        ("result_json", s(&"x".repeat(5000))),
    ]);
    let ev = cursor::parse("afterMCPExecution", payload);
    assert!(matches!(ev.tool, ToolKind::Mcp { .. }));
    assert_eq!(ev.phase, Phase::Post);
    assert_eq!(ev.output.as_deref().map(str::len), Some(5000));
}

#[test]
fn after_shell_clip_does_not_replace_output() {
    let outcome = PolicyOutcome {
        raw: Decision::ReplaceOutput {
            text: "clipped".into(),
            rule_id: "clip.output".into(),
        },
        applied: Decision::ReplaceOutput {
            text: "clipped".into(),
            rule_id: "clip.output".into(),
        },
        rule_id: Some("clip.output".into()),
    };
    let reply = cursor::render("afterShellExecution", outcome);
    assert_eq!(reply, CursorReply::Empty);
}

#[test]
fn muse_bash_maps_to_shell() {
    let payload = obj(vec![
        ("tool_name", s("Bash")),
        ("tool_input", obj(vec![("command", s("rm -rf /tmp/x"))])),
    ]);
    let ev = cursor::parse("preToolUse", payload);
    assert_eq!(ev.tool, ToolKind::Shell);
    assert_eq!(ev.args.command.as_deref(), Some("rm -rf /tmp/x"));
}

#[test]
fn pre_tool_use_ignores_hook_event_name_for_classification() {
    let payload = obj(vec![
        ("hook_event_name", s("preToolUse")),
        ("tool_name", s("Shell")),
        ("tool_input", obj(vec![("command", s("rm -rf /tmp/x"))])),
        ("cwd", s("/tmp")),
    ]);
    let ev = cursor::parse("preToolUse", payload);
    assert_eq!(ev.tool, ToolKind::Shell);
    assert_eq!(ev.cwd, "/tmp");
}

#[test]
fn post_mcp_uses_tool_name_when_server_present() {
    let payload = obj(vec![
        ("hook_event_name", s("postToolUse")),
        ("tool_name", s("search")),
        ("mcp_server_name", s("one-grep")),
        ("tool_output", s(&"x".repeat(5000))),
        ("cwd", s("/tmp")),
    ]);
    let ev = cursor::parse("postToolUse", payload);
    assert!(matches!(
        ev.tool,
        ToolKind::Mcp {
            ref server,
            ref tool
        } if server == "one-grep" && tool == "search"
    ));
}

#[test]
fn observe_mode_masks_decision() {
    let big = "x".repeat(5000);
    let mut policy = Policy::default();
    policy.mode = PolicyMode::Observe;
    let event = ToolEvent {
        output: Some(big),
        harness: Harness::Cursor,
        phase: Phase::Post,
        tool: ToolKind::Shell,
        args: NormalizedArgs::default(),
        session_id: "s".into(),
        cwd: "/tmp/ws".into(),
    };
    assert!(needs_archive(&event, &policy));
    let facts = HostFacts {
        read_lines: None,
        archived_at: Some("/tmp/ws/archive/x.log".into()),
    };
    let out = decide(&event, &policy, &facts);
    assert!(matches!(out.raw, Decision::ReplaceOutput { .. }));
    assert_eq!(out.applied, Decision::Allow);
    assert_eq!(out.rule_id.as_deref(), Some("clip.output"));
}

#[test]
fn glob_unscoped_denied() {
    let policy = Policy::default();
    let event = ev(
        ToolKind::Glob,
        Phase::Pre,
        NormalizedArgs {
            pattern: Some("*.rs".into()),
            ..Default::default()
        },
    );
    let out = decide(&event, &policy, &no_facts());
    assert!(matches!(out.raw, Decision::Deny { .. }));
    match out.raw {
        Decision::Deny {
            agent_message,
            rule_id,
        } => {
            assert_eq!(rule_id, "glob.unscoped");
            assert!(agent_message.starts_with("Unscoped glob at repo root"));
        }
        other => panic!("{other:?}"),
    }
}

#[test]
fn shell_deny_rm_rf() {
    let policy = Policy::default();
    let event = ev(
        ToolKind::Shell,
        Phase::Pre,
        NormalizedArgs {
            command: Some("rm -rf /".into()),
            ..Default::default()
        },
    );
    let out = decide(&event, &policy, &no_facts());
    assert!(matches!(out.raw, Decision::Deny { .. }));
    assert_eq!(out.rule_id.as_deref(), Some("shell.rules_deny"));
}

#[test]
fn telemetry_digest_paths_no_raw_in_policy() {
    let policy = Policy::default();
    let event = ev(
        ToolKind::Read,
        Phase::Pre,
        NormalizedArgs {
            path: Some("secret.txt".into()),
            ..Default::default()
        },
    );
    assert_eq!(read_target(&event).as_deref(), Some("/tmp/ws/secret.txt"));
    let out = decide(&event, &policy, &no_facts());
    assert_eq!(out.applied, Decision::Allow);
}

#[test]
fn whole_file_read_over_cap_denied() {
    let policy = Policy::default();
    let event = ev(
        ToolKind::Read,
        Phase::Pre,
        NormalizedArgs {
            path: Some("big.txt".into()),
            ..Default::default()
        },
    );
    let facts = HostFacts {
        read_lines: Some(500),
        archived_at: None,
    };
    let out = decide(&event, &policy, &facts);
    match out.raw {
        Decision::Deny {
            agent_message,
            rule_id,
        } => {
            assert_eq!(rule_id, "read.whole_file_cap");
            assert!(agent_message.starts_with(
                "big.txt has 500 lines; whole-file reads over 400 lines are capped."
            ));
        }
        other => panic!("{other:?}"),
    }
    let small = HostFacts {
        read_lines: Some(400),
        archived_at: None,
    };
    assert_eq!(decide(&event, &policy, &small).raw, Decision::Allow);
    let ranged = ev(
        ToolKind::Read,
        Phase::Pre,
        NormalizedArgs {
            path: Some("big.txt".into()),
            limit: Some(10),
            ..Default::default()
        },
    );
    assert_eq!(read_target(&ranged), None);
    assert_eq!(decide(&ranged, &policy, &facts).raw, Decision::Allow);
}

#[test]
fn clip_text_names_archive() {
    let policy = Policy::default();
    let mut event = ev(ToolKind::Shell, Phase::Post, NormalizedArgs::default());
    event.output = Some("y".repeat(9000));
    let facts = HostFacts {
        read_lines: None,
        archived_at: Some("/a/b.log".into()),
    };
    match decide(&event, &policy, &facts).raw {
        Decision::ReplaceOutput { text, rule_id } => {
            assert_eq!(rule_id, "clip.output");
            assert!(text.contains("... [808 bytes elided] ..."));
            assert!(text.ends_with("\n\n[toolgate] full output archived at /a/b.log"));
        }
        other => panic!("{other:?}"),
    }
    event.output = Some("y".repeat(100));
    assert!(!needs_archive(&event, &policy));
    assert_eq!(decide(&event, &policy, &facts).raw, Decision::Allow);
}

#[test]
fn shell_words_follow_quotes() {
    assert_eq!(
        parse_shell_argv("  git commit -m 'a b' \"c \\\" d\"  "),
        Some(vec![
            "git".to_owned(),
            "commit".to_owned(),
            "-m".to_owned(),
            "a b".to_owned(),
            "c \" d".to_owned(),
        ])
    );
    assert_eq!(parse_shell_argv("   "), None);
    assert_eq!(parse_shell_argv("''"), None);
}

#[test]
fn path_scopes() {
    let with_path = |p: &str| NormalizedArgs {
        path: Some(p.to_owned()),
        ..Default::default()
    };
    assert!(args_has_path_scope(&with_path("src")));
    assert!(!args_has_path_scope(&with_path(" ./ ")));
    assert!(!args_has_path_scope(&with_path(".")));
    let pat = NormalizedArgs {
        pattern: Some("src/*.rs".into()),
        ..Default::default()
    };
    assert!(args_has_path_scope(&pat));
    assert!(!args_has_path_scope(&NormalizedArgs::default()));
}

#[test]
fn mode_override_and_paths() {
    let p = Policy::default();
    assert_eq!(resolve_mode(&p, Some(" OBSERVE ")), PolicyMode::Observe);
    assert_eq!(resolve_mode(&p, Some("loud")), PolicyMode::Enforce);
    assert_eq!(resolve_mode(&p, None), PolicyMode::Enforce);
    assert_eq!(resolve_path("/w", "a.txt"), "/w/a.txt");
    assert_eq!(resolve_path("/w/", "a.txt"), "/w/a.txt");
    assert_eq!(resolve_path("/w", "/etc/x"), "/etc/x");
    assert_eq!(resolve_read_path("", "a"), "a");
}

#[test]
fn archive_name_is_sha256_hex() {
    assert_eq!(
        archive_name("abc"),
        "ba7816bf8f01cfea414140de5dae2223b00361a396177a9cb410ff61f20015ad.log"
    );
}

#[test]
fn row_has_no_raw_path() {
    let event = ToolEvent {
        harness: Harness::Cursor,
        phase: Phase::Pre,
        tool: ToolKind::Read,
        args: NormalizedArgs {
            path: Some("/secret/path.txt".into()),
            ..Default::default()
        },
        output: None,
        session_id: "abc".into(),
        cwd: "/tmp".into(),
    };
    let outcome = PolicyOutcome {
        raw: Decision::Allow,
        applied: Decision::Allow,
        rule_id: None,
    };
    let row = row_from(&event, &outcome, PolicyMode::Enforce, 7, 0);
    let fields = [
        row.harness.as_str(),
        row.session_id.as_str(),
        row.phase.as_str(),
        row.tool.as_str(),
        row.decision.as_str(),
        row.mode.as_str(),
    ];
    assert!(fields.iter().all(|f| !f.contains("/secret")));
    let digest = row.path_digest.expect("path digest");
    assert!(!digest.contains("/secret"));
    assert_eq!(digest.len(), 64);
    assert_eq!(row.cmd_digest, None);
    assert_eq!(
        (row.harness.as_str(), row.phase.as_str(), row.tool.as_str()),
        ("cursor", "pre", "read")
    );
    assert_eq!((row.decision.as_str(), row.mode.as_str(), row.ts), ("allow", "enforce", 7));
}

#[test]
fn telemetry_labels_mcp_and_output_bytes() {
    let mut event = ev(
        ToolKind::Mcp {
            server: "one-grep".into(),
            tool: "search".into(),
        },
        Phase::Post,
        NormalizedArgs::default(),
    );
    event.output = Some("αβ".into());
    let outcome = PolicyOutcome {
        raw: Decision::ReplaceOutput {
            text: "t".into(),
            rule_id: "clip.output".into(),
        },
        applied: Decision::Allow,
        rule_id: Some("clip.output".into()),
    };
    let row = row_from(&event, &outcome, PolicyMode::Observe, 1, 12);
    assert_eq!(row.tool, "mcp:one-grep:search");
    assert_eq!(row.output_chars, 4);
    assert_eq!(row.input_chars, 12);
    assert_eq!(row.decision, "replace_output");
    assert_eq!(row.mode, "observe");
    assert_eq!(row.rule_id.as_deref(), Some("clip.output"));
}

#[test]
fn cursor_render_shapes() {
    let deny = PolicyOutcome {
        raw: Decision::Deny {
            agent_message: "no".into(),
            rule_id: "r".into(),
        },
        applied: Decision::Deny {
            agent_message: "no".into(),
            rule_id: "r".into(),
        },
        rule_id: Some("r".into()),
    };
    assert_eq!(
        cursor::render("preToolUse", deny),
        CursorReply::PreToolUse {
            permission: "deny".into(),
            agent_message: Some("no".into()),
            updated_input: None,
        }
    );
    let replace = PolicyOutcome {
        raw: Decision::Allow,
        applied: Decision::ReplaceOutput {
            text: "t".into(),
            rule_id: "clip.output".into(),
        },
        rule_id: None,
    };
    let expected = obj(vec![(
        "content",
        Json::Arr(vec![obj(vec![("type", s("text")), ("text", s("t"))])]),
    )]);
    assert_eq!(
        cursor::render("postToolUse", replace),
        CursorReply::PostToolUse {
            updated_mcp_tool_output: Some(expected),
            additional_context: None,
        }
    );
    match adapters::allow_reply(Harness::Cursor, "preToolUse") {
        Reply::Cursor(CursorReply::PreToolUse { permission, .. }) => assert_eq!(permission, "allow"),
        other => panic!("{other:?}"),
    }
    assert_eq!(
        adapters::allow_reply(Harness::Cursor, "postToolUse"),
        Reply::Cursor(CursorReply::Empty)
    );
}

#[test]
fn cursor_parse_falls_back_for_ids_and_paths() {
    let payload = obj(vec![
        ("tool_name", s("Read")),
        ("tool_use_id", s("t1")),
        ("workspace_roots", Json::Arr(vec![s("/ws"), s("/other")])),
        ("file_path", s("top.txt")),
        (
            "tool_input",
            obj(vec![("target_file", s("in.txt")), ("offset", Json::Uint(3))]),
        ),
    ]);
    let ev = cursor::parse("preToolUse", payload);
    assert_eq!(ev.tool, ToolKind::Read);
    assert_eq!(ev.session_id, "t1");
    assert_eq!(ev.cwd, "/ws");
    assert_eq!(ev.args.path.as_deref(), Some("in.txt"));
    assert_eq!(ev.args.offset, Some(3));
    assert!(ev.args.raw_input.is_some());
    let bare = cursor::parse("preToolUse", obj(vec![("tool_name", s("MCP:srv:lookup"))]));
    assert_eq!(
        bare.tool,
        ToolKind::Mcp {
            server: "mcp".into(),
            tool: "lookup".into()
        }
    );
    assert_eq!((bare.session_id.as_str(), bare.cwd.as_str()), ("unknown", "."));
    let other = cursor::parse("preToolUse", Json::Null);
    assert_eq!(other.tool, ToolKind::Other(String::new()));
}

#[test]
fn muse_opencode_pi_parse_and_render() {
    let m = muse::parse("PostToolUse", obj(vec![("tool_name", s("Bash")), ("tool_output", s("o"))]));
    assert_eq!((m.harness, m.phase), (Harness::Muse, Phase::Post));
    assert_eq!(m.output.as_deref(), Some("o"));
    let o = opencode::parse(
        "tool.execute.after",
        obj(vec![
            ("tool", s("Edit")),
            ("args", obj(vec![("path", s("x.rs"))])),
            ("sessionId", s("S")),
        ]),
    );
    assert_eq!((o.tool, o.phase), (ToolKind::Write, Phase::Post));
    assert_eq!(o.args.path.as_deref(), Some("x.rs"));
    assert_eq!(o.session_id, "S");
    let p = pi::parse(
        "tool_result",
        obj(vec![
            ("toolName", s("ShellTool")),
            ("details", obj(vec![("command", s("ls"))])),
            (
                "content",
                Json::Arr(vec![
                    obj(vec![("text", s("a"))]),
                    obj(vec![("type", s("image"))]),
                    obj(vec![("text", s("b"))]),
                ]),
            ),
            ("toolCallId", s("c9")),
        ]),
    );
    assert_eq!((p.tool, p.phase), (ToolKind::Shell, Phase::Post));
    assert_eq!(p.output.as_deref(), Some("a\nb"));
    assert_eq!(p.args.command.as_deref(), Some("ls"));
    assert_eq!(p.session_id, "c9");
    let deny = || PolicyOutcome {
        raw: Decision::Allow,
        applied: Decision::Deny {
            agent_message: "m".into(),
            rule_id: "r".into(),
        },
        rule_id: None,
    };
    assert_eq!(
        opencode::render("x", deny()),
        OpencodeReply::Deny { message: "m".into() }
    );
    assert_eq!(pi::render("x", deny()), PiReply::Cancel { message: "m".into() });
    assert_eq!(
        adapters::allow_reply(Harness::Pi, "tool_call"),
        Reply::Pi(PiReply::Empty)
    );
}

#[test]
fn legacy_decide_cursor_read_still_works() {
    let input = PreToolUseInput {
        tool_name: Some("Read".into()),
        tool_input: Some(obj(vec![("path", s("big.txt"))])),
        cwd: Some("/w".into()),
    };
    assert_eq!(cursor_read_target(&input, None).as_deref(), Some("/w/big.txt"));
    let out = decide_cursor_read(&input, None, Some(500));
    assert_eq!(out.permission, "deny");
    assert!(out
        .agent_message
        .as_deref()
        .unwrap_or("")
        .starts_with("big.txt has 500 lines; whole-file reads over 400 lines are capped."));
    assert_eq!(decide_cursor_read(&input, Some("0"), Some(500)), allow_unchanged());
    assert_eq!(decide_cursor_read(&input, None, Some(400)), allow_unchanged());
    assert_eq!(decide_cursor_read(&input, None, None), allow_unchanged());
    let ranged = PreToolUseInput {
        tool_name: None,
        tool_input: Some(obj(vec![("path", s("big.txt")), ("limit", Json::Null)])),
        cwd: None,
    };
    assert_eq!(cursor_read_target(&ranged, None), None);
    assert_eq!(decide_cursor_read(&ranged, None, Some(900)), allow_unchanged());
}

#[test]
fn hook_paths_and_env() {
    let p = HookPaths::from_home("/home/u");
    assert_eq!(p.policy_file, "/home/u/.config/toolgate/policy.toml");
    assert_eq!(p.telemetry_file, "/home/u/.local/state/toolgate/events.jsonl");
    assert_eq!(p.archive_dir, "/home/u/.local/state/toolgate/archive");
    let env = HookEnv::from_vars(None, Some("observe".into()), Some("0"));
    assert_eq!(env.paths.policy_file, "./.config/toolgate/policy.toml");
    assert!(!env.telemetry_enabled);
    assert_eq!(env.policy_override.as_deref(), Some("observe"));
    assert!(HookEnv::from_vars(Some("/h"), None, Some("1")).telemetry_enabled);
}

#[test]
fn unknown_tools_pass_in_both_phases() {
    let policy = Policy::default();
    let mut event = ev(
        ToolKind::Other("mystery".into()),
        Phase::Pre,
        NormalizedArgs {
            command: Some("rm -rf /".into()),
            ..Default::default()
        },
    );
    assert_eq!(decide(&event, &policy, &no_facts()).raw, Decision::Allow);
    event.phase = Phase::Post;
    event.output = Some("z".repeat(10_000));
    assert!(!needs_archive(&event, &policy));
    assert_eq!(decide(&event, &policy, &no_facts()).raw, Decision::Allow);
}
