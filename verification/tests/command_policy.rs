//! Command policies: validation, inheritance and resolution.
use nono_cli::command_policy::executable::ResolvedExecutableKind;
use nono_cli::command_policy::inspect::{
    candidate_command_match, FileFacts, Inspected, Inspection, Reply, StatReply,
};
use nono_cli::command_policy::legacy::validate_legacy_blocked_command_interactions;
use nono_cli::command_policy::report::{
    CommandPolicyActivation, CommandPolicyFinding, CommandPolicyValidationScope,
};
use nono_cli::command_policy::resolve::{
    command_candidates, command_search_dirs, resolve_policy_command_binaries, DirStatus,
    ResolvedCommandBinaries,
};
use nono_cli::command_policy::validate_config::validate_command_policies;
use nono_cli::command_policy::{
    CommandCredentialConfig, CommandCredentialType, CommandEnvironmentConfig, CommandFromConfig,
    CommandNetworkConfig, CommandPoliciesConfig, CommandPolicyConfig, CommandSandboxConfig,
};
use nono_cli::error::NonoError;
use nono_cli::name_map::NameMap;
use nono_cli::paths::FilePath;

fn git_sandbox() -> CommandSandboxConfig {
    CommandSandboxConfig {
        fs_read: vec![".".to_string()],
        ..Default::default()
    }
}

fn git_command() -> CommandPolicyConfig {
    CommandPolicyConfig {
        sandbox: Some(git_sandbox()),
        ..Default::default()
    }
}

fn config_with_git(git: CommandPolicyConfig) -> CommandPoliciesConfig {
    let mut commands = NameMap::new();
    commands.insert("git".to_string(), git);
    CommandPoliciesConfig {
        session_can_use: vec!["git".to_string()],
        commands,
        ..Default::default()
    }
}

fn active_git_config() -> CommandPoliciesConfig {
    config_with_git(git_command())
}

fn has_code(findings: &[CommandPolicyFinding], code: &str) -> bool {
    findings.iter().any(|finding| finding.code == code)
}

fn text_map(pairs: &[(&str, &str)]) -> NameMap<String> {
    let mut map = NameMap::new();
    for (name, value) in pairs {
        map.insert(name.to_string(), value.to_string());
    }
    map
}

#[test]
fn inactive_empty_policy_is_valid() {
    let report = validate_command_policies(
        Some(&CommandPoliciesConfig::default()),
        CommandPolicyValidationScope::Resolved,
    );

    assert!(report.is_ok());
    assert_eq!(report.activation, CommandPolicyActivation::Inactive);
}

#[test]
fn inactive_non_empty_policy_is_invalid() {
    let config = CommandPoliciesConfig {
        session_can_use: vec!["git".to_string()],
        ..Default::default()
    };

    let report = validate_command_policies(Some(&config), CommandPolicyValidationScope::Resolved);

    assert!(!report.is_ok());
    assert!(report
        .errors
        .iter()
        .any(|finding| finding.code == "inactive_non_empty"));
}

#[test]
fn active_policy_validates_references() {
    let report = validate_command_policies(
        Some(&active_git_config()),
        CommandPolicyValidationScope::Resolved,
    );

    assert!(report.is_ok());
    assert_eq!(report.activation, CommandPolicyActivation::Active);
}

#[test]
fn session_identifier_is_reserved_case_insensitively() {
    let mut config = active_git_config();
    config
        .commands
        .insert("Session".to_string(), CommandPolicyConfig::default());

    let report = validate_command_policies(Some(&config), CommandPolicyValidationScope::Resolved);

    assert!(report
        .errors
        .iter()
        .any(|finding| finding.code == "invalid_identifier"));
}

#[test]
fn explicit_session_deny_conflicts_with_session_can_use() {
    let mut git = git_command();
    git.sandbox = None;
    git.from.insert(
        "session".to_string(),
        CommandFromConfig::Deny("deny".to_string()),
    );
    let config = config_with_git(git);

    let report = validate_command_policies(Some(&config), CommandPolicyValidationScope::Resolved);

    assert!(report
        .errors
        .iter()
        .any(|finding| finding.code == "contradictory_session_allow"));
}

#[test]
fn top_level_sandbox_and_from_session_is_ambiguous() {
    let mut git = git_command();
    git.from.insert(
        "session".to_string(),
        CommandFromConfig::Policy(Box::default()),
    );
    let config = config_with_git(git);

    let report = validate_command_policies(Some(&config), CommandPolicyValidationScope::Resolved);

    assert!(report
        .errors
        .iter()
        .any(|finding| finding.code == "ambiguous_session_policy"));
}

#[test]
fn allowed_hosts_without_proxy_helper_is_invalid() {
    let mut git = git_command();
    git.sandbox = Some(CommandSandboxConfig {
        network: Some(CommandNetworkConfig {
            allowed_hosts: vec!["github.com".to_string()],
            ..Default::default()
        }),
        ..Default::default()
    });
    let config = config_with_git(git);

    let report = validate_command_policies(Some(&config), CommandPolicyValidationScope::Resolved);

    assert!(report
        .errors
        .iter()
        .any(|finding| finding.code == "unenforceable_allowed_hosts"));
}

#[test]
fn raw_file_credential_requires_chained_opt_in() {
    let mut commands = NameMap::new();
    commands.insert(
        "git".to_string(),
        CommandPolicyConfig {
            can_use: vec!["ssh".to_string()],
            sandbox: Some(CommandSandboxConfig::default()),
            ..Default::default()
        },
    );
    let mut from = NameMap::new();
    from.insert(
        "git".to_string(),
        CommandFromConfig::Policy(Box::new(CommandSandboxConfig {
            use_credentials: vec!["key".to_string()],
            ..Default::default()
        })),
    );
    commands.insert(
        "ssh".to_string(),
        CommandPolicyConfig {
            from,
            ..Default::default()
        },
    );
    let mut credentials = NameMap::new();
    credentials.insert(
        "key".to_string(),
        CommandCredentialConfig {
            credential_type: CommandCredentialType::RawFile,
            socket: None,
            path: Some("/tmp/key".to_string()),
            env_var: None,
        },
    );
    let config = CommandPoliciesConfig {
        credentials,
        commands,
        ..Default::default()
    };

    let report = validate_command_policies(Some(&config), CommandPolicyValidationScope::Resolved);

    assert!(report
        .errors
        .iter()
        .any(|finding| finding.code == "raw_file_credential_in_chained_policy"));
}

#[test]
fn environment_rejects_non_trailing_wildcards() {
    let mut git = git_command();
    git.sandbox = Some(CommandSandboxConfig {
        environment: Some(CommandEnvironmentConfig {
            allow_vars: Some(vec!["*TOKEN".to_string(), "A**".to_string()]),
            ..Default::default()
        }),
        ..Default::default()
    });
    let config = config_with_git(git);

    let report = validate_command_policies(Some(&config), CommandPolicyValidationScope::Resolved);

    assert!(report
        .errors
        .iter()
        .any(|finding| finding.code == "invalid_environment_pattern"));
}

#[test]
fn environment_rejects_invalid_set_vars() {
    let mut git = git_command();
    git.sandbox = Some(CommandSandboxConfig {
        environment: Some(CommandEnvironmentConfig {
            set_vars: text_map(&[
                ("", "value"),
                ("PATH", "value"),
                ("NONO_ETI_SOCKET", "value"),
                ("BAD*NAME", "value"),
                ("BAD=NAME", "value"),
                ("GOOD", "bad\0value"),
            ]),
            ..Default::default()
        }),
        ..Default::default()
    });
    let config = config_with_git(git);

    let report = validate_command_policies(Some(&config), CommandPolicyValidationScope::Resolved);

    assert!(report
        .errors
        .iter()
        .any(|finding| finding.code == "invalid_environment_set_var"));
}

#[test]
fn argv_prepend_rejects_nul() {
    let mut git = git_command();
    git.sandbox = Some(CommandSandboxConfig {
        argv_prepend: vec!["bad\0arg".to_string()],
        ..Default::default()
    });
    let config = config_with_git(git);

    let report = validate_command_policies(Some(&config), CommandPolicyValidationScope::Resolved);

    assert!(report
        .errors
        .iter()
        .any(|finding| finding.code == "invalid_argv_prepend"));
}

#[test]
fn merge_preserves_inherited_policy_and_appends_child_grants() {
    let mut sandbox = git_sandbox();
    sandbox.argv_prepend = vec!["--base".to_string()];
    sandbox.environment = Some(CommandEnvironmentConfig {
        allow_vars: Some(vec!["PATH".to_string()]),
        set_vars: text_map(&[("GIT_SSH", "ssh")]),
    });
    let base = config_with_git(CommandPolicyConfig {
        sandbox: Some(sandbox),
        ..Default::default()
    });
    let mut commands = NameMap::new();
    commands.insert(
        "git".to_string(),
        CommandPolicyConfig {
            sandbox: Some(CommandSandboxConfig {
                fs_write: vec![".".to_string()],
                argv_prepend: vec!["--child".to_string()],
                environment: Some(CommandEnvironmentConfig {
                    allow_vars: Some(vec!["GIT_*".to_string()]),
                    set_vars: text_map(&[
                        ("GIT_SSH", "/tmp/evil"),
                        ("GIT_SSH_VARIANT", "ssh"),
                    ]),
                }),
                ..Default::default()
            }),
            ..Default::default()
        },
    );
    let child = CommandPoliciesConfig {
        commands,
        ..Default::default()
    };

    let merged = base.merge_child(&child);
    let git = merged
        .commands
        .get("git")
        .expect("merged git command should exist");
    let sandbox = git
        .sandbox
        .as_ref()
        .expect("merged git sandbox should exist");

    assert_eq!(sandbox.fs_read, vec!["."]);
    assert_eq!(sandbox.fs_write, vec!["."]);
    assert_eq!(
        sandbox.argv_prepend,
        vec!["--base".to_string(), "--child".to_string()]
    );
    assert_eq!(
        sandbox
            .environment
            .as_ref()
            .and_then(|environment| environment.allow_vars.as_ref())
            .expect("merged env vars should exist"),
        &vec!["PATH".to_string(), "GIT_*".to_string()]
    );
    assert_eq!(
        &sandbox
            .environment
            .as_ref()
            .expect("merged env should exist")
            .set_vars,
        &text_map(&[("GIT_SSH", "ssh"), ("GIT_SSH_VARIANT", "ssh")])
    );
}

// ---------------------------------------------------------------------------
// Resolution, on a file system that is written down
// ---------------------------------------------------------------------------

/// A file of the written-down file system: where it is found, where it really
/// lies, its inode and what it holds.
struct Planted {
    path: &'static str,
    canonical: &'static str,
    ino: u64,
    mode: u32,
    contents: &'static [u8],
}

fn planted(path: &'static str, ino: u64, contents: &'static [u8]) -> Planted {
    Planted {
        path,
        canonical: path,
        ino,
        mode: 0o100755,
        contents,
    }
}

fn facts(file: &Planted) -> FileFacts {
    FileFacts {
        is_file: true,
        mode: file.mode,
        dev: 1,
        ino: file.ino,
        size: file.contents.len() as u64,
        mtime: 5,
        mtime_nsec: 7,
    }
}

/// Inspects one candidate, question by question.
fn inspect(candidate: &FilePath, files: &[Planted]) -> Inspected {
    let mut state = Inspection::Stat;
    for _ in 0..8 {
        let reply = match &state {
            Inspection::Stat => Reply::Stat(
                match files.iter().find(|f| f.path == candidate.display()) {
                    Some(file) => StatReply::Found(facts(file)),
                    None => StatReply::Missing,
                },
            ),
            Inspection::Canonicalize => {
                let file = files.iter().find(|f| f.path == candidate.display());
                Reply::Canonical(match file {
                    Some(file) => Ok(FilePath::from_text(file.canonical)),
                    None => Err("gone".to_string()),
                })
            }
            Inspection::StatCanonical(path) => {
                let file = files.iter().find(|f| f.canonical == path.display());
                Reply::CanonicalStat(match file {
                    Some(file) => Ok(facts(file)),
                    None => Err("gone".to_string()),
                })
            }
            Inspection::Read(path, _) => {
                let file = files.iter().find(|f| f.canonical == path.display());
                Reply::Contents(match file {
                    Some(file) => Ok(file.contents.to_vec()),
                    None => Err("gone".to_string()),
                })
            }
            Inspection::Done(_) => break,
        };
        state = candidate_command_match(candidate, state, reply);
    }
    match state {
        Inspection::Done(outcome) => outcome,
        _ => panic!("the inspection did not settle"),
    }
}

fn resolve(
    config: &CommandPoliciesConfig,
    path_env: &str,
    files: &[Planted],
) -> Result<ResolvedCommandBinaries, NonoError> {
    let statuses = config
        .executable_dirs
        .iter()
        .map(|_| DirStatus::Directory)
        .collect::<Vec<_>>();
    let path_env = path_env.as_bytes().to_vec();
    let dirs = command_search_dirs(config, Some(&path_env), &statuses)?;
    let mut outcomes = Vec::new();
    for i in 0..config.commands.len() {
        let candidates = command_candidates(
            config.commands.name_at(i),
            config.commands.value_at(i),
            &dirs,
        );
        outcomes.push(
            candidates
                .iter()
                .map(|candidate| inspect(candidate, files))
                .collect::<Vec<_>>(),
        );
    }
    resolve_policy_command_binaries(config, &dirs, &outcomes)
}

#[test]
fn command_resolution_uses_first_original_path_match() {
    let files = [
        planted("/t/first/git", 11, b"first"),
        planted("/t/second/git", 12, b"second"),
    ];
    let resolved = resolve(&active_git_config(), "/t/first:/t/second", &files).expect("resolve");
    let git = resolved
        .commands
        .get("git")
        .expect("git resolution should exist");

    assert_eq!(git.canonical_path, FilePath::from_text("/t/first/git"));
    assert_eq!(
        git.duplicate_paths,
        vec![FilePath::from_text("/t/second/git")]
    );
    assert!(resolved
        .warnings
        .iter()
        .any(|finding| finding.code == "duplicate_path_command"));
    assert_eq!(
        resolved.warnings[0].message,
        "command policy 'git' resolved to /t/first/git, but other executable 'git' entries exist \
         on PATH: /t/second/git; only the resolved binary is controlled by this policy"
    );
    assert_eq!(git.mtime_nanos, 5_000_000_007);
    assert_eq!(git.size, 5);
}

#[test]
fn command_resolution_ignores_duplicate_alias_to_same_inode() {
    let files = [
        planted("/t/first/git", 11, b"first"),
        Planted {
            path: "/t/second/git",
            canonical: "/t/first/git",
            ino: 11,
            mode: 0o100755,
            contents: b"first",
        },
    ];
    let resolved = resolve(&active_git_config(), "/t/first:/t/second", &files).expect("resolve");
    let git = resolved
        .commands
        .get("git")
        .expect("git resolution should exist");

    assert!(git.duplicate_paths.is_empty());
    assert!(resolved.warnings.is_empty());
}

#[test]
fn command_resolution_searches_configured_executable_dirs_after_path() {
    let files = [planted("/t/configured/git", 21, b"configured")];
    let mut config = active_git_config();
    config.executable_dirs = vec!["/t/configured".to_string()];
    let resolved = resolve(&config, "/t/path", &files).expect("resolve");
    let git = resolved
        .commands
        .get("git")
        .expect("git resolution should exist");

    assert_eq!(git.canonical_path, FilePath::from_text("/t/configured/git"));
}

#[test]
fn command_resolution_uses_exact_executable_binding() {
    let files = [
        planted("/t/path/git", 31, b"path"),
        planted("/t/exact/git", 32, b"exact"),
    ];
    let mut git = git_command();
    git.executable = Some("/t/exact/git".to_string());
    let resolved = resolve(&config_with_git(git), "/t/path", &files).expect("resolve");
    let git = resolved
        .commands
        .get("git")
        .expect("git resolution should exist");

    assert_eq!(git.canonical_path, FilePath::from_text("/t/exact/git"));
    assert!(git.duplicate_paths.is_empty());
}

#[test]
fn command_resolution_classifies_shebang_scripts() {
    let files = [planted(
        "/t/bin/git",
        41,
        b"#!/usr/bin/python3 -sP\nprint('ok')\n",
    )];
    let resolved = resolve(&active_git_config(), "/t/bin", &files).expect("resolve");
    let git = resolved
        .commands
        .get("git")
        .expect("git resolution should exist");

    assert_eq!(git.shape.kind, ResolvedExecutableKind::ShebangScript);
    assert_eq!(
        git.shape.interpreter,
        Some(FilePath::from_text("/usr/bin/python3"))
    );
    assert_eq!(git.shape.interpreter_args, vec!["-sP".to_string()]);
    assert!(resolved
        .warnings
        .iter()
        .any(|finding| finding.code == "script_entrypoint"));
}

#[test]
fn command_resolution_fails_closed_when_command_is_missing() {
    let err =
        resolve(&active_git_config(), "/t", &[]).expect_err("missing command should fail");

    assert!(
        err.message().contains("could not be resolved"),
        "missing command error should be clear: {err:?}"
    );
}

#[test]
fn files_that_nobody_may_execute_are_passed_over() {
    let files = [
        Planted {
            path: "/t/first/git",
            canonical: "/t/first/git",
            ino: 51,
            mode: 0o100644,
            contents: b"first",
        },
        planted("/t/second/git", 52, b"second"),
    ];
    let resolved = resolve(&active_git_config(), "/t/first::/t/second", &files).expect("resolve");
    let git = resolved.commands.get("git").expect("git resolution");
    assert_eq!(git.canonical_path, FilePath::from_text("/t/second/git"));
    assert!(git.duplicate_paths.is_empty());
}

#[test]
fn configured_directories_must_be_directories() {
    let mut config = active_git_config();
    config.executable_dirs = vec!["/a".to_string(), "/b".to_string()];
    let not_directory =
        command_search_dirs(&config, None, &vec![DirStatus::Directory, DirStatus::NotDirectory])
            .expect_err("a file is no directory");
    assert_eq!(
        not_directory,
        NonoError::ProfileParse(
            "command_policies.executable_dirs entry '/b' is not a directory".to_string()
        )
    );
    let unreadable = command_search_dirs(
        &config,
        None,
        &vec![
            DirStatus::Unreadable("denied".to_string()),
            DirStatus::NotDirectory,
        ],
    )
    .expect_err("an unreadable directory is an error");
    assert_eq!(
        unreadable,
        NonoError::ProfileParse(
            "command_policies.executable_dirs entry '/a' is not readable: denied".to_string()
        )
    );
}

#[test]
fn trouble_in_a_configured_directory_is_an_error_and_elsewhere_is_not() {
    let mut config = active_git_config();
    config.executable_dirs = vec!["/conf".to_string()];
    let path_env = b"/bin".to_vec();
    let dirs = command_search_dirs(&config, Some(&path_env), &vec![DirStatus::Directory])
        .expect("directories");
    let failed = || Inspected::Failed(NonoError::ProfileParse("denied".to_string()));
    let in_configured =
        resolve_policy_command_binaries(&config, &dirs, &vec![vec![Inspected::Nothing, failed()]])
            .expect_err("configured directories count");
    assert_eq!(
        in_configured.message(),
        "Profile parse error: failed to inspect configured executable_dirs for command 'git': \
         /conf/git: Profile parse error: denied"
    );
    let elsewhere =
        resolve_policy_command_binaries(&config, &dirs, &vec![vec![failed(), Inspected::Nothing]])
            .expect_err("nothing was found");
    assert!(elsewhere.message().contains("could not be resolved"));
    let files = [planted("/conf/git", 61, b"conf")];
    let found = inspect(&FilePath::from_text("/conf/git"), &files);
    let passed_over =
        resolve_policy_command_binaries(&config, &dirs, &vec![vec![failed(), found]])
            .expect("trouble on the search path is passed over");
    assert_eq!(
        passed_over.commands.get("git").expect("git").canonical_path,
        FilePath::from_text("/conf/git")
    );
}

#[test]
fn an_exact_executable_must_be_one() {
    let mut git = git_command();
    git.executable = Some("/opt/git".to_string());
    let err = resolve(&config_with_git(git), "/bin", &[]).expect_err("missing executable");
    assert_eq!(
        err,
        NonoError::ProfileParse(
            "command policy 'git' executable '/opt/git' is not an executable file".to_string()
        )
    );
}

// ---------------------------------------------------------------------------
// Command lists of older profiles
// ---------------------------------------------------------------------------

#[test]
fn legacy_blocked_command_conflicts_with_policy_command_when_active() {
    let report = validate_legacy_blocked_command_interactions(
        Some(&active_git_config()),
        &vec!["git".to_string()],
        &vec![],
    );

    assert!(report
        .errors
        .iter()
        .any(|finding| finding.code == "policy_blocked_command_conflict"));
}

#[test]
fn allowed_commands_override_only_legacy_blocked_entries() {
    let report = validate_legacy_blocked_command_interactions(
        Some(&active_git_config()),
        &vec!["git".to_string()],
        &vec!["git".to_string()],
    );

    assert!(report.is_ok());
    assert!(report.info.is_empty());
}

#[test]
fn legacy_blocked_commands_do_not_activate_eti_by_themselves() {
    let report = validate_legacy_blocked_command_interactions(
        Some(&CommandPoliciesConfig::default()),
        &vec!["rm".to_string()],
        &vec![],
    );

    assert!(report.is_ok());
    assert_eq!(report.activation, CommandPolicyActivation::Inactive);
}

#[test]
fn legacy_blocked_command_names_must_be_shim_safe_when_eti_active() {
    let report = validate_legacy_blocked_command_interactions(
        Some(&active_git_config()),
        &vec!["bad/name".to_string()],
        &vec![],
    );

    assert!(report
        .errors
        .iter()
        .any(|finding| finding.code == "invalid_identifier"));
}

// ---------------------------------------------------------------------------
// Ways round a policy
// ---------------------------------------------------------------------------

fn agent_credentials() -> NameMap<CommandCredentialConfig> {
    let mut credentials = NameMap::new();
    credentials.insert(
        "agent".to_string(),
        CommandCredentialConfig {
            credential_type: CommandCredentialType::SshAgent,
            socket: Some("$SSH_AUTH_SOCK".to_string()),
            path: None,
            env_var: None,
        },
    );
    credentials
}

fn bypassing_config(opt_in: bool) -> CommandPoliciesConfig {
    let mut sandbox = git_sandbox();
    sandbox.use_credentials = vec!["agent".to_string()];
    let git = CommandPolicyConfig {
        sandbox: Some(sandbox),
        allow_direct_exec_bypass: vec!["/usr/bin/git".to_string()],
        allow_direct_exec_bypass_with_credentials: opt_in,
        ..Default::default()
    };
    let mut config = config_with_git(git);
    config.credentials = agent_credentials();
    config
}

#[test]
fn credential_using_command_requires_second_bypass_opt_in() {
    let config = bypassing_config(false);

    let report = validate_command_policies(Some(&config), CommandPolicyValidationScope::Resolved);

    assert!(report
        .errors
        .iter()
        .any(|finding| finding.code == "credential_bypass_requires_opt_in"));
}

#[test]
fn direct_bypass_paths_must_be_absolute() {
    let mut git = git_command();
    git.allow_direct_exec_bypass = vec!["usr/bin/git".to_string()];
    let mut config = config_with_git(git);
    config
        .deny_direct_exec_bypass
        .push("relative/aws".to_string());

    let report = validate_command_policies(Some(&config), CommandPolicyValidationScope::Resolved);

    assert_eq!(
        report
            .errors
            .iter()
            .filter(|finding| finding.code == "invalid_exec_bypass_path")
            .count(),
        2
    );
}

#[test]
fn credential_using_command_accepts_explicit_bypass_opt_in() {
    let config = bypassing_config(true);

    let report = validate_command_policies(Some(&config), CommandPolicyValidationScope::Resolved);

    assert!(!report
        .errors
        .iter()
        .any(|finding| finding.code == "credential_bypass_requires_opt_in"));
}

// ---------------------------------------------------------------------------
// Further behaviour
// ---------------------------------------------------------------------------

#[test]
fn a_failed_validation_lists_every_error() {
    let config = CommandPoliciesConfig {
        session_can_use: vec!["git".to_string()],
        ..Default::default()
    };
    let report = validate_command_policies(Some(&config), CommandPolicyValidationScope::Syntax);
    let codes = report
        .errors
        .iter()
        .map(|finding| finding.code)
        .collect::<Vec<_>>();
    let err = report.into_result().expect_err("invalid");
    let message = err.message();
    assert!(message.starts_with("Profile parse error: invalid command_policies: "));
    for code in codes {
        assert!(message.contains(code));
    }
    let fine = validate_command_policies(None, CommandPolicyValidationScope::Resolved);
    assert_eq!(fine.into_result(), Ok(()));
}

#[test]
fn resolved_validation_is_stricter_than_syntax() {
    let mut config = active_git_config();
    config.session_can_use = vec!["git".to_string(), "unknown".to_string()];
    let syntax = validate_command_policies(Some(&config), CommandPolicyValidationScope::Syntax);
    let resolved = validate_command_policies(Some(&config), CommandPolicyValidationScope::Resolved);
    assert!(syntax.is_ok());
    assert!(!resolved.is_ok());
}

#[test]
fn syntactic_errors_are_the_resolved_ones_that_need_no_resolution() {
    let mut git = git_command();
    git.can_use = vec!["bad/name".to_string(), "ssh".to_string()];
    git.sandbox = Some(CommandSandboxConfig {
        use_credentials: vec!["missing".to_string()],
        argv_prepend: vec!["bad\0arg".to_string()],
        ..Default::default()
    });
    let config = config_with_git(git);
    let syntax = validate_command_policies(Some(&config), CommandPolicyValidationScope::Syntax);
    let resolved = validate_command_policies(Some(&config), CommandPolicyValidationScope::Resolved);
    let codes = |findings: &[CommandPolicyFinding]| {
        findings.iter().map(|finding| finding.code).collect::<Vec<_>>()
    };
    assert_eq!(
        codes(&resolved.errors),
        vec![
            "invalid_identifier",
            "invalid_argv_prepend",
            "unknown_credential",
            "unknown_chained_command",
            "unknown_chained_command",
        ]
    );
    assert_eq!(
        codes(&syntax.errors),
        vec!["invalid_identifier", "invalid_argv_prepend"]
    );
    assert_eq!(syntax.errors[..], resolved.errors[..2]);
    assert_eq!(syntax.warnings, resolved.warnings);
    assert_eq!(syntax.info, resolved.info);
}

#[test]
fn merging_with_nothing_changes_nothing() {
    let config = bypassing_config(true);
    let nothing = CommandPoliciesConfig::default();
    assert_eq!(config.merge_child(&nothing), config);
    assert_eq!(nothing.merge_child(&config), config);
}

#[test]
fn merged_lists_hold_everything_once_with_the_base_first() {
    let base = CommandSandboxConfig {
        fs_read: vec!["a".to_string(), "b".to_string()],
        ..Default::default()
    };
    let child = CommandSandboxConfig {
        fs_read: vec!["b".to_string(), "c".to_string(), "c".to_string()],
        ..Default::default()
    };
    assert_eq!(base.merge_child(&child).fs_read, vec!["a", "b", "c"]);
    let third = CommandSandboxConfig {
        fs_read: vec!["a".to_string(), "d".to_string()],
        ..Default::default()
    };
    assert_eq!(
        base.merge_child(&child).merge_child(&third),
        base.merge_child(&child.merge_child(&third))
    );
}

#[test]
fn inherited_denials_stand() {
    let mut denying = git_command();
    denying.from.insert(
        "ssh".to_string(),
        CommandFromConfig::Deny("deny".to_string()),
    );
    let mut allowing = git_command();
    allowing.from.insert(
        "ssh".to_string(),
        CommandFromConfig::Policy(Box::default()),
    );
    let merged = config_with_git(denying).merge_child(&config_with_git(allowing));
    let git = merged.commands.get("git").expect("git");
    assert!(git.from.get("ssh").expect("ssh").is_explicit_deny());
}

fn answering(caller: CommandFromConfig) -> CommandPoliciesConfig {
    let mut git = git_command();
    git.from.insert("ssh".to_string(), caller);
    config_with_git(git)
}

fn reading(dir: &str) -> CommandFromConfig {
    CommandFromConfig::Policy(Box::new(CommandSandboxConfig {
        fs_read: vec![dir.to_string()],
        ..Default::default()
    }))
}

#[test]
fn policies_merge_in_any_grouping() {
    let base = answering(reading("a"));
    let middle = answering(reading("b"));
    let last = bypassing_config(true);
    assert_eq!(
        base.merge_child(&middle).merge_child(&last),
        base.merge_child(&middle.merge_child(&last))
    );
    let refusing = || answering(CommandFromConfig::Deny("deny".to_string()));
    assert_eq!(
        refusing().merge_child(&middle).merge_child(&last),
        refusing().merge_child(&middle.merge_child(&last))
    );
    // A refusal between two sandboxes stands against the last one only where
    // the two are merged first.
    let callers = |config: &CommandPoliciesConfig| match config
        .commands
        .get("git")
        .and_then(|git| git.from.get("ssh"))
    {
        Some(CommandFromConfig::Policy(sandbox)) => sandbox.fs_read.join(","),
        other => panic!("expected a sandbox, got {other:?}"),
    };
    assert_eq!(
        callers(&base.merge_child(&refusing()).merge_child(&middle)),
        "a,b"
    );
    assert_eq!(
        callers(&base.merge_child(&refusing().merge_child(&middle))),
        "a"
    );
}

#[test]
fn activity_is_having_commands() {
    assert!(active_git_config().is_active());
    assert!(!CommandPoliciesConfig::default().is_active());
    assert!(active_git_config().has_non_command_fields());
    assert!(!CommandPoliciesConfig::default().has_non_command_fields());
}

#[test]
fn names_come_in_order() {
    let map = text_map(&[("b", "2"), ("a", "1"), ("c", "3"), ("a", "4")]);
    assert_eq!(map.len(), 3);
    let names = (0..map.len()).map(|i| map.name_at(i).as_str()).collect::<Vec<_>>();
    assert_eq!(names, vec!["a", "b", "c"]);
    assert_eq!(map.get("a"), Some(&"4".to_string()));
    assert_eq!(map.get("d"), None);
    assert!(map.contains_key("b"));
    assert!(!map.is_empty());
}

#[test]
fn accepted_policies_have_no_finding_of_their_own() {
    let report = validate_command_policies(
        Some(&bypassing_config(true)),
        CommandPolicyValidationScope::Resolved,
    );
    assert!(report.is_ok());
    assert!(!has_code(&report.errors, "invalid_identifier"));
}
