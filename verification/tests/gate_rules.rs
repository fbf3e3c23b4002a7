use toolgate::gate::{
    VerdictCache,
    enforce, rules_verdict, schema_allows_argv, settings_from_vars, trim_trailing_slashes,
    EnforceStep, Error, GateMode, Rules, Verdict, DEFAULT_BASE_URL, DEFAULT_MODEL, ENV_API_KEY,
};

const ROOT: &str = "/tmp/toolgate-allow-root";

fn argv(words: &[&str]) -> Vec<String> {
    words.iter().map(|w| (*w).to_owned()).collect()
}

fn test_root() -> &'static str {
    ROOT
}

#[test]
fn gate_mode_parse() {
    assert_eq!(GateMode::parse("jev"), Some(GateMode::Jev));
    assert_eq!(GateMode::parse("OFF"), Some(GateMode::Off));
    assert_eq!(GateMode::parse("nope"), None);
}

#[test]
fn no_key_error_names_env_var() {
    let err = Error::NoKey(ENV_API_KEY);
    assert!(err.message().contains(ENV_API_KEY));
}

#[test]
fn rules_allow_cargo_test() {
    let rules = Rules::default();
    let argv = argv(&["cargo", "test", "-p", "foo"]);
    assert!(matches!(
        rules_verdict(&argv, &rules, test_root()),
        Some(Verdict::Allow)
    ));
}

#[test]
fn rules_deny_rm_rf_variants() {
    let rules = Rules::default();
    for a in [
        argv(&["rm", "-rf", "/"]),
        argv(&["rm", "-fr", "/"]),
        argv(&["rm", "-r", "-f"]),
        argv(&["/bin/rm", "--recursive", "--force"]),
    ] {
        assert!(
            matches!(rules_verdict(&a, &rules, test_root()), Some(Verdict::Block(_))),
            "{a:?}"
        );
    }
}

#[test]
fn allowlist_bypasses_need_jev() {
    let rules = Rules::default();
    let cases: Vec<Vec<String>> = vec![
        argv(&["rg", "--pre", "sh", "x"]),
        argv(&["rg", "--pre-glob", "*.sh"]),
        argv(&["cargo", "test", "--config", "x.toml"]),
        argv(&["cargo", "test", "-p", "my-runner-crate"]),
        argv(&["git", "diff", "--output", "x"]),
        argv(&["git", "log", "--ext-diff"]),
        argv(&["git", "diff", "--textconv"]),
        argv(&["git", "fetch"]),
        argv(&["env", "FOO=bar"]),
        argv(&["bash", "-c", "echo"]),
        argv(&["find", ".", "-exec", "rm", "{}", ";"]),
    ];
    for a in cases {
        assert!(rules_verdict(&a, &rules, test_root()).is_none(), "{a:?}");
    }
}

#[test]
fn git_status_without_config_still_allowed() {
    let rules = Rules::default();
    let a = argv(&["git", "status"]);
    assert!(matches!(
        rules_verdict(&a, &rules, test_root()),
        Some(Verdict::Allow)
    ));
}

#[test]
fn rules_deny_git_push_force_after_global_options() {
    let rules = Rules::default();
    for a in [
        argv(&["git", "-C", "d", "push", "--force"]),
        argv(&["git", "--no-pager", "push", "-f"]),
    ] {
        assert!(
            matches!(rules_verdict(&a, &rules, test_root()), Some(Verdict::Block(_))),
            "{a:?}"
        );
    }
}

#[test]
fn rules_custom_allow_deny_lists() {
    let rules = Rules {
        allow: vec![argv(&["echo"])],
        deny: vec![argv(&["wget"])],
    };
    assert!(matches!(
        rules_verdict(&argv(&["echo"]), &rules, test_root()),
        Some(Verdict::Allow)
    ));
    assert!(rules_verdict(&argv(&["echo", "hi"]), &rules, test_root()).is_none());
    assert!(matches!(
        rules_verdict(&argv(&["wget", "https://x"]), &rules, test_root()),
        Some(Verdict::Block(_))
    ));
    assert!(rules_verdict(&argv(&["curl", "x"]), &rules, test_root()).is_none());
}

#[test]
fn rules_unknown_needs_jev() {
    let rules = Rules::default();
    let a = argv(&["curl", "https://example.com"]);
    assert!(rules_verdict(&a, &rules, test_root()).is_none());
}

#[test]
fn git_push_force_denies_table() {
    let rules = Rules::default();
    let cases: Vec<Vec<String>> = vec![
        argv(&["git", "push", "--force"]),
        argv(&["git", "push", "-f"]),
        argv(&["git", "push", "-fu", "origin"]),
        argv(&["git", "push", "--force-with-lease"]),
        argv(&["git", "push", "--force-with-lease=main"]),
        argv(&["git", "push", "+main:main"]),
        argv(&["git", "-C", "d", "push", "--force"]),
        argv(&["git", "--no-pager", "push", "-f"]),
        argv(&["git", "--weird-global", "push", "-f"]),
    ];
    for a in cases {
        assert!(
            matches!(rules_verdict(&a, &rules, test_root()), Some(Verdict::Block(_))),
            "{a:?}"
        );
    }
}

#[test]
fn git_unknown_global_never_allow() {
    let rules = Rules::default();
    let a = argv(&["git", "--weird-global", "status"]);
    assert!(rules_verdict(&a, &rules, test_root()).is_none());
}

#[test]
fn rules_allow_git_prefix_still_denies_push_force() {
    let rules = Rules {
        allow: vec![argv(&["git"])],
        deny: vec![],
    };
    let a = argv(&["git", "push", "-f"]);
    assert!(matches!(
        rules_verdict(&a, &rules, test_root()),
        Some(Verdict::Block(_))
    ));
}

#[test]
fn git_pager_cluster_does_not_skip_push_force_deny() {
    let rules = Rules::default();
    let a = argv(&["git", "-pp", "push", "--force"]);
    assert!(matches!(
        rules_verdict(&a, &rules, test_root()),
        Some(Verdict::Block(_))
    ));
}

#[test]
fn git_bare_dash_argv_does_not_loop() {
    let rules = Rules::default();
    for a in [argv(&["git", "-", "diff"]), argv(&["git", "-", "push", "-f"])] {
        let v = rules_verdict(&a, &rules, test_root());
        if a.contains(&"-f".to_owned()) || a.iter().any(|x| x == "push") {
            assert!(matches!(v, Some(Verdict::Block(_))), "{a:?}");
        } else {
            assert!(v.is_none(), "{a:?}");
        }
    }
}

#[test]
fn rules_deny_matches_normalized_git_prefix() {
    let rules = Rules {
        allow: vec![],
        deny: vec![argv(&["git", "push"])],
    };
    let a = argv(&["git", "-C", "d", "push", "origin"]);
    assert!(matches!(
        rules_verdict(&a, &rules, test_root()),
        Some(Verdict::Block(_))
    ));
}

#[test]
fn cargo_paths_outside_root_need_jev() {
    let rules = Rules::default();
    let root = test_root();
    let escape = format!("{root}/../../tmp/new");
    for a in [
        argv(&["cargo", "test", "--manifest-path", "/outside/Cargo.toml"]),
        argv(&["cargo", "build", "--target-dir", "/outside"]),
        argv(&["cargo", "test", "--manifest-path", "../outside/Cargo.toml"]),
        argv(&["cargo", "build", "--target-dir", "../out"]),
        argv(&["cargo", "build", "--target-dir", escape.as_str()]),
    ] {
        assert!(rules_verdict(&a, &rules, root).is_none(), "{a:?}");
    }
}

#[test]
fn git_config_injection_globals_not_allowed() {
    let rules = Rules::default();
    for a in [
        argv(&["git", "-c", "diff.external=/bin/sh", "diff"]),
        argv(&["git", "-c", "core.fsmonitor=/bin/sh", "status"]),
        argv(&["git", "--config-env", "X=Y", "status"]),
    ] {
        assert!(rules_verdict(&a, &rules, test_root()).is_none(), "{a:?}");
    }
}

#[test]
fn ls_with_flags_outside_root_not_allowed() {
    let rules = Rules::default();
    let a = argv(&["ls", "-R", "/etc"]);
    assert!(rules_verdict(&a, &rules, test_root()).is_none());
}

#[test]
fn rules_allow_prefix_never_bypasses_schema() {
    let rules = Rules {
        allow: vec![
            argv(&["cargo", "build", "--config", "build.rustc=/bin/sh"]),
            argv(&["git", "diff", "--textconv"]),
        ],
        deny: vec![],
    };
    for a in [
        argv(&["cargo", "build", "--config", "build.rustc=/bin/sh"]),
        argv(&["git", "diff", "--textconv"]),
    ] {
        assert!(rules_verdict(&a, &rules, test_root()).is_none(), "{a:?}");
    }
}

#[test]
fn cargo_paths_through_symlink_dotdot_not_allowed() {
    let rules = Rules::default();
    for a in [
        argv(&["cargo", "build", "--target-dir", "link/../out"]),
        argv(&["cargo", "test", "--manifest-path", "link/../out/Cargo.toml"]),
    ] {
        assert!(rules_verdict(&a, &rules, test_root()).is_none(), "{a:?}");
    }
}

#[test]
fn rg_safe_flags_allow_pre_flags_do_not() {
    let rules = Rules::default();
    assert!(matches!(
        rules_verdict(&argv(&["rg", "fn", "src"]), &rules, test_root()),
        Some(Verdict::Allow)
    ));
    for a in [argv(&["rg", "--pre", "sh", "x"]), argv(&["rg", "--pre-glob", "*.sh"])] {
        assert!(rules_verdict(&a, &rules, test_root()).is_none(), "{a:?}");
    }
}

#[test]
fn schema_table_cargo_git_ls() {
    let rules = Rules::default();
    for a in [
        argv(&["cargo", "check"]),
        argv(&["cargo", "test", "-p", "foo"]),
        argv(&["git", "diff", "--stat"]),
        argv(&["ls", "src"]),
    ] {
        assert!(
            matches!(rules_verdict(&a, &rules, test_root()), Some(Verdict::Allow)),
            "{a:?}"
        );
    }
}

#[test]
fn schema_fuzz_token_pool_bounded() {
    let rules = Rules::default();
    let manifest = format!("{}/Cargo.toml", test_root());
    let target = format!("{}/target", test_root());
    let escape = format!("{}/../../x", test_root());
    let pool: Vec<String> = vec![
        "cargo".into(),
        "test".into(),
        "-p".into(),
        "foo".into(),
        "--manifest-path".into(),
        manifest,
        "--target-dir".into(),
        target,
        "--pre".into(),
        "--output=x".into(),
        "-".into(),
        "-pp".into(),
        "git".into(),
        "diff".into(),
        "push".into(),
        "-f".into(),
        "+ref".into(),
        "/outside/x".into(),
        "../x".into(),
        escape,
        "-c".into(),
        "k=v".into(),
    ];
    let mut rng_state: u64 = 0xDEAD_BEEF;
    for _ in 0..200 {
        rng_state = rng_state.wrapping_mul(6364136223846793005).wrapping_add(1);
        let len = (rng_state % 8) as usize + 1;
        let mut a = Vec::new();
        for j in 0..len {
            let idx = ((rng_state >> (j * 3)) as usize) % pool.len();
            a.push(pool[idx].clone());
        }
        let steps_before = a.len();
        let v = rules_verdict(&a, &rules, test_root());
        assert!(steps_before <= 16);
        if matches!(v, Some(Verdict::Allow)) {
            assert!(schema_allows_argv(&a, test_root()), "{a:?}");
        }
    }
}

#[test]
fn gate_mode_from_env_value_falls_back() {
    assert_eq!(GateMode::from_env_value(Some(" Jev "), GateMode::Off), GateMode::Jev);
    assert_eq!(GateMode::from_env_value(Some("bogus"), GateMode::Jev), GateMode::Jev);
    assert_eq!(GateMode::from_env_value(Some(""), GateMode::Jev), GateMode::Off);
    assert_eq!(GateMode::from_env_value(None, GateMode::Jev), GateMode::Jev);
}

#[test]
fn settings_need_a_key_and_trim_the_endpoint() {
    let err = settings_from_vars(Some("  ".into()), None, None).expect_err("blank key");
    assert!(matches!(err, Error::NoKey(k) if k == ENV_API_KEY));
    assert_eq!(
        err.message(),
        "jev unavailable (missing `TYPESAFE_API_KEY`): refusing run"
    );
    let s = settings_from_vars(Some("k".into()), Some("http://h:1//".into()), Some(" ".into()))
        .expect("settings");
    assert_eq!(s.api_key, "k");
    assert_eq!(s.base_url, "http://h:1");
    assert_eq!(s.model, DEFAULT_MODEL);
    let d = settings_from_vars(Some("k".into()), None, Some("m".into())).expect("settings");
    assert_eq!(d.base_url, DEFAULT_BASE_URL);
    assert_eq!(d.model, "m");
    assert_eq!(trim_trailing_slashes("a/b/"), "a/b");
    assert_eq!(trim_trailing_slashes("///"), "");
}

#[test]
fn call_error_message() {
    assert_eq!(
        Error::Call("boom".into()).message(),
        "jev call failed: boom"
    );
}

#[test]
fn enforce_off_allows_and_rules_decide_first() {
    let rules = Rules::default();
    match enforce(GateMode::Off, &rules, &VerdictCache::new(), "rm", &argv(&["-rf", "/"]), test_root()) {
        EnforceStep::Decided(Verdict::Allow) => {}
        other => panic!("{other:?}"),
    }
    match enforce(GateMode::Jev, &rules, &VerdictCache::new(), "rm", &argv(&["-rf", "/"]), test_root()) {
        EnforceStep::Decided(Verdict::Block(_)) => {}
        other => panic!("{other:?}"),
    }
    match enforce(GateMode::Jev, &rules, &VerdictCache::new(), "curl", &argv(&["http://x"]), "/tmp/a") {
        EnforceStep::Judge(key) => {
            assert_eq!(key.root, "/tmp/a");
            assert_eq!(key.argv, argv(&["curl", "http://x"]));
        }
        other => panic!("{other:?}"),
    }
}

#[test]
fn enforce_caches_by_root_and_argv() {
    let rules = Rules::default();
    let mut cache = VerdictCache::new();
    let mut judged = 0;
    let mut run = |cache: &mut VerdictCache, root: &str| -> Verdict {
        match enforce(GateMode::Jev, &rules, cache, "curl", &argv(&["http://x"]), root) {
            EnforceStep::Decided(v) => v,
            EnforceStep::Judge(key) => {
                judged += 1;
                assert_eq!(key.argv, argv(&["curl", "http://x"]));
                cache.insert(key, Verdict::Allow);
                Verdict::Allow
            }
        }
    };
    let v1 = run(&mut cache, "/tmp/a");
    assert!(matches!(v1, Verdict::Allow));
    let _v2 = run(&mut cache, "/tmp/b");
    let v3 = run(&mut cache, "/tmp/a");
    assert_eq!(v1, v3);
    assert_eq!(judged, 2);
    assert_eq!(
        cache.get(&toolgate::gate::GateCacheKey {
            root: "/tmp/b".into(),
            argv: argv(&["curl", "http://x"]),
        }),
        Some(Verdict::Allow)
    );
}
