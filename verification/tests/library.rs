use std::cell::RefCell;
use std::collections::BTreeMap;
use std::path::PathBuf;

use ddev_workspaces::command::{
    CommandOutput, CommandRequest, CommandRunner, RealCommandRunner, Recorder, ToolError, ToolResult,
};
use ddev_workspaces::config::{
    io_error, is_ignored, safe_join, validate_name, validate_repository_relative, validate_workspace_relative,
    CheckRule, CommandRule, DdevConfig, FileRule, ProjectConfig,
};
use ddev_workspaces::ddev::{
    clone_database, expected_name, inspect_new_identity, require_ready_identity, start, stop_unlist,
    write_override, DdevInspection, DdevProject, DdevRegistry, Interrupts, Registry,
};
use ddev_workspaces::git::{
    parse_prefixed_paths, parse_remote_head, parse_submodule_issues, parse_worktrees, GitRepository,
};
use ddev_workspaces::paths::{
    nearest_existing_parent, DirError, EntryKind, FileSystem, Files, FsError, WriteError,
};
use ddev_workspaces::state::{self, OwnershipRecord};
use ddev_workspaces::workspace::{declared_command_request, run_one_check};

// ---------------------------------------------------------------------------
// Fixtures
// ---------------------------------------------------------------------------

#[derive(Clone, Debug, PartialEq)]
enum Node {
    Dir,
    File(String),
    Link(String),
}

/// An in-memory Unix file system: absolute paths, directories, files and
/// symlinks, plus an environment.
#[derive(Default)]
struct MemFs {
    nodes: BTreeMap<String, Node>,
    env: BTreeMap<String, String>,
}

fn components(path: &str) -> Vec<&str> {
    path.split('/').filter(|c| !c.is_empty() && *c != ".").collect()
}

fn child(parent: &str, name: &str) -> String {
    if parent == "/" {
        format!("/{name}")
    } else {
        format!("{parent}/{name}")
    }
}

fn parent_and_name(path: &str) -> Option<(String, String)> {
    let parts = components(path);
    let (last, rest) = parts.split_last()?;
    Some((format!("/{}", rest.join("/")), (*last).to_owned()))
}

impl MemFs {
    fn mkdir_p(&mut self, path: &str) {
        let mut current = "/".to_owned();
        for part in components(path) {
            current = child(&current, part);
            self.nodes.entry(current.clone()).or_insert(Node::Dir);
        }
    }

    fn write(&mut self, path: &str, contents: &str) {
        let (parent, _) = parent_and_name(path).expect("file path");
        self.mkdir_p(&parent);
        self.nodes.insert(path.to_owned(), Node::File(contents.to_owned()));
    }

    fn symlink(&mut self, path: &str, target: &str) {
        let (parent, _) = parent_and_name(path).expect("link path");
        self.mkdir_p(&parent);
        self.nodes.insert(path.to_owned(), Node::Link(target.to_owned()));
    }

    fn holds(&self, path: &str) -> bool {
        self.nodes.contains_key(path)
    }

    fn contents(&self, path: &str) -> Option<String> {
        match self.nodes.get(path) {
            Some(Node::File(c)) => Some(c.clone()),
            _ => None,
        }
    }

    fn resolve(&self, path: &str, depth: usize) -> Result<String, String> {
        if depth > 16 {
            return Err("Too many levels of symbolic links (os error 40)".to_owned());
        }
        if !path.starts_with('/') {
            return Err("No such file or directory (os error 2)".to_owned());
        }
        let mut current = "/".to_owned();
        for part in path.split('/').filter(|c| !c.is_empty() && *c != ".") {
            if part == ".." {
                current = parent_and_name(&current).map(|(p, _)| p).unwrap_or_else(|| "/".to_owned());
                continue;
            }
            let candidate = child(&current, part);
            match self.nodes.get(&candidate) {
                Some(Node::Link(target)) => {
                    let target = if target.starts_with('/') {
                        target.clone()
                    } else {
                        child(&current, target)
                    };
                    current = self.resolve(&target, depth + 1)?;
                }
                Some(_) => current = candidate,
                None => return Err("No such file or directory (os error 2)".to_owned()),
            }
        }
        Ok(current)
    }

    /// The entry at `path` without following a final symlink.
    fn entry(&self, path: &str) -> Result<(String, Node), String> {
        match parent_and_name(path) {
            None => Ok(("/".to_owned(), Node::Dir)),
            Some((parent, name)) => {
                if name == ".." {
                    let resolved = self.resolve(path, 0)?;
                    return Ok((resolved.clone(), self.nodes.get(&resolved).cloned().unwrap_or(Node::Dir)));
                }
                let parent = self.resolve(&parent, 0)?;
                let full = child(&parent, &name);
                match self.nodes.get(&full) {
                    Some(node) => Ok((full, node.clone())),
                    None => Err("No such file or directory (os error 2)".to_owned()),
                }
            }
        }
    }
}

impl FileSystem for MemFs {
    fn canonicalize(&mut self, path: &str) -> Result<String, String> {
        self.resolve(path, 0)
    }

    fn entry_kind(&mut self, path: &str) -> Result<EntryKind, FsError> {
        match self.entry(path) {
            Ok((_, Node::Dir)) => Ok(EntryKind::Directory),
            Ok((_, Node::File(_))) => Ok(EntryKind::File),
            Ok((_, Node::Link(_))) => Ok(EntryKind::Symlink),
            Err(message) => Err(FsError {
                not_found: true,
                message,
            }),
        }
    }

    fn path_exists(&mut self, path: &str) -> bool {
        self.resolve(path, 0).is_ok()
    }

    fn is_dir(&mut self, path: &str) -> bool {
        match self.resolve(path, 0) {
            Ok(p) => p == "/" || self.nodes.get(&p) == Some(&Node::Dir),
            Err(_) => false,
        }
    }

    fn read_to_string(&mut self, path: &str) -> Result<String, String> {
        let resolved = self.resolve(path, 0)?;
        match self.nodes.get(&resolved) {
            Some(Node::File(c)) => Ok(c.clone()),
            _ => Err("Is a directory (os error 21)".to_owned()),
        }
    }

    fn env_var(&mut self, name: &str) -> Option<String> {
        self.env.get(name).cloned()
    }

    fn read_prefix(&mut self, path: &str, len: usize) -> Option<Vec<u8>> {
        let contents = self.read_to_string(path).ok()?;
        Some(contents.as_bytes().iter().take(len).copied().collect())
    }

    fn create_file(&mut self, path: &str, contents: &str) -> Result<(), WriteError> {
        let (parent, name) = parent_and_name(path).ok_or_else(|| WriteError::Create("no file name".to_owned()))?;
        let parent = self.resolve(&parent, 0).map_err(WriteError::Create)?;
        if !(parent == "/" || self.nodes.get(&parent) == Some(&Node::Dir)) {
            return Err(WriteError::Create("Not a directory (os error 20)".to_owned()));
        }
        let full = child(&parent, &name);
        if self.nodes.contains_key(&full) {
            return Err(WriteError::Exists("File exists (os error 17)".to_owned()));
        }
        self.nodes.insert(full, Node::File(contents.to_owned()));
        Ok(())
    }

    fn create_dir(&mut self, path: &str) -> Result<(), DirError> {
        let (parent, name) = parent_and_name(path).ok_or_else(|| DirError::AlreadyExists("File exists (os error 17)".to_owned()))?;
        let parent = self.resolve(&parent, 0).map_err(DirError::Failed)?;
        let full = child(&parent, &name);
        if self.nodes.contains_key(&full) {
            return Err(DirError::AlreadyExists("File exists (os error 17)".to_owned()));
        }
        self.nodes.insert(full, Node::Dir);
        Ok(())
    }

    fn create_private_dir(&mut self, path: &str) -> Result<(), DirError> {
        self.create_dir(path)
    }

    fn remove_file(&mut self, path: &str) -> Result<(), String> {
        match self.entry(path)? {
            (full, Node::File(_)) | (full, Node::Link(_)) => {
                self.nodes.remove(&full);
                Ok(())
            }
            _ => Err("Is a directory (os error 21)".to_owned()),
        }
    }

    fn remove_dir_all(&mut self, path: &str) -> Result<(), String> {
        let (full, _) = self.entry(path)?;
        let prefix = format!("{full}/");
        self.nodes.retain(|key, _| key != &full && !key.starts_with(&prefix));
        Ok(())
    }

    fn read_dir(&mut self, path: &str) -> Result<Vec<String>, String> {
        let resolved = self.resolve(path, 0)?;
        let prefix = if resolved == "/" { "/".to_owned() } else { format!("{resolved}/") };
        Ok(self
            .nodes
            .keys()
            .filter_map(|key| key.strip_prefix(&prefix))
            .filter(|rest| !rest.is_empty() && !rest.contains('/'))
            .map(str::to_owned)
            .collect())
    }
}

/// Records every request and answers with the queued outputs, last first;
/// success with empty output once the queue is empty.
#[derive(Default)]
struct FakeRunner {
    requests: Vec<CommandRequest>,
    responses: Vec<CommandOutput>,
}

impl CommandRunner for FakeRunner {
    fn run(&mut self, request: &CommandRequest) -> ToolResult<CommandOutput> {
        self.requests.push(request.clone());
        Ok(self.responses.pop().unwrap_or_else(|| CommandOutput {
            status: 0,
            stdout: String::new(),
            stderr: String::new(),
        }))
    }
}

/// Answers `git check-ignore` with a fixed verdict.
#[derive(Default)]
struct IgnoreRunner {
    ignored: bool,
    requests: RefCell<Vec<CommandRequest>>,
}

impl CommandRunner for IgnoreRunner {
    fn run(&mut self, request: &CommandRequest) -> ToolResult<CommandOutput> {
        self.requests.get_mut().push(request.clone());
        Ok(CommandOutput {
            status: if self.ignored { 0 } else { 1 },
            stdout: String::new(),
            stderr: String::new(),
        })
    }
}

fn strings(values: &[&str]) -> Vec<String> {
    values.iter().map(|v| (*v).to_owned()).collect()
}

fn valid_config() -> ProjectConfig {
    ProjectConfig {
        version: 1,
        project_id: "fixture".to_owned(),
        workspace_root: ".worktrees".to_owned(),
        ddev: None,
        files: Vec::new(),
        commands: Vec::new(),
        checks: Vec::new(),
    }
}

fn failed_output() -> CommandOutput {
    CommandOutput {
        status: 1,
        stdout: String::new(),
        stderr: "failed".to_owned(),
    }
}

/// A file system holding an empty repository at `/repo` and an unrelated
/// directory at `/outside`.
fn repository_fs() -> MemFs {
    let mut fs = MemFs::default();
    fs.mkdir_p("/repo");
    fs.mkdir_p("/outside");
    fs
}

// ---------------------------------------------------------------------------
// Requests and errors
// ---------------------------------------------------------------------------

#[test]
fn sensitive_requests_redact_arguments_in_display() {
    let request = CommandRequest::new("printf", strings(&["secret-value"])).sensitive();

    assert_eq!(request.display(), "printf [sensitive command]");
}

#[test]
fn request_builders_preserve_the_process_contract() {
    let cwd = "/tmp/fixture-directory";
    let request = CommandRequest::new("printf", strings(&["two words", "it's-safe"]))
        .cwd(cwd)
        .env("FIXTURE_VALUE", "configured")
        .mutating();

    assert_eq!(request.cwd.as_deref(), Some(cwd));
    assert_eq!(
        request.env,
        [("FIXTURE_VALUE".to_owned(), "configured".to_owned())]
    );
    assert!(request.mutating);
    assert_eq!(request.display(), "printf 'two words' 'it'\\''s-safe'");
    assert_eq!(CommandRequest::new("pwd", Vec::new()).display(), "pwd");
}

#[test]
fn process_start_errors_report_the_request_without_leaking_sensitive_arguments() {
    let cwd = "/tmp/fixture-directory";
    let request = CommandRequest::new("definitely-not-a-command", strings(&["secret"]))
        .cwd(cwd)
        .sensitive();
    let error = RealCommandRunner::start_error(&request, "No such file or directory (os error 2)");

    assert!(error
        .message()
        .contains("definitely-not-a-command [sensitive command]"));
    assert!(error.message().contains(cwd));
    assert!(!error.message().contains("secret"));
}

#[test]
fn errors_and_outputs_expose_stable_cli_status() {
    let usage = ToolError::usage("bad arguments".to_owned());
    let failure = ToolError::new("failed".to_owned());
    let io_error = io_error(&std::io::Error::other("disk unavailable").to_string());
    let output = CommandOutput {
        status: 7,
        stdout: String::new(),
        stderr: "failure".to_owned(),
    };

    assert_eq!(usage.exit_code(), 2);
    assert_eq!(usage.message(), "bad arguments");
    assert_eq!(failure.exit_code(), 1);
    assert!(io_error.message().contains("I/O error: disk unavailable"));
    assert!(!output.success());
    assert!(CommandOutput::dry_run().success());
}

#[test]
fn dry_run_runner_skips_mutation_without_executing_it() {
    let runner = RealCommandRunner::new(true);
    let request = CommandRequest::new("definitely-not-a-command", Vec::new()).mutating();

    assert!(runner.skips(&request));
    let output = CommandOutput::dry_run();

    assert!(output.success());
}

#[test]
fn dry_run_policy_runs_reads_and_live_runs_everything() {
    let dry = RealCommandRunner::new(true);
    let live = RealCommandRunner::new(false);
    let mutating = CommandRequest::new("definitely-not-a-command", Vec::new()).mutating();
    let reading = CommandRequest::new("git", strings(&["status"]));

    assert!(!dry.skips(&reading));
    assert!(!live.skips(&mutating));
    assert_eq!(RealCommandRunner::exit_status(None), 1);
    assert_eq!(RealCommandRunner::exit_status(Some(7)), 7);
}

#[test]
fn dry_run_output_requests_no_mutating_runner_call() {
    let command = CommandRule {
        label: "setup".to_owned(),
        cwd: ".".to_owned(),
        argv: vec!["printf".to_owned(), "secret".to_owned()],
        sensitive: true,
    };
    let request = CommandRequest::new(command.argv[0].as_str(), command.argv[1..].to_vec())
        .cwd("/tmp")
        .mutating()
        .sensitive();

    assert!(request.sensitive);
    assert!(request.mutating);
    assert_eq!(declared_command_request(&command, "/tmp"), request);
}

// ---------------------------------------------------------------------------
// Configuration
// ---------------------------------------------------------------------------

#[test]
fn dot_is_allowed_for_repository_relative_runtime_paths() {
    assert!(validate_repository_relative("app_root", ".").is_ok());
    assert!(validate_workspace_relative("check", ".").is_ok());
}

#[test]
fn names_and_relative_paths_enforce_the_documented_grammar() {
    for invalid in [
        "",
        "Upper",
        "-leading",
        "trailing-",
        "two--dashes",
        "space here",
    ] {
        assert!(
            validate_name("workspace name", invalid).is_err(),
            "{invalid}"
        );
    }
    for invalid in ["", "/absolute", "../escape", "a/../../escape", "a/.."] {
        assert!(
            validate_repository_relative("path", invalid).is_err(),
            "{invalid}"
        );
    }
    assert!(validate_name("workspace name", "task-42").is_ok());
    assert!(validate_repository_relative("path", "a/../b").is_ok());
}

#[test]
fn escaping_paths_are_rejected_before_git_ignore_is_checked() {
    let mut config = valid_config();
    config.workspace_root = "../outside".to_owned();
    let mut fs = Files::new(repository_fs());
    let mut runner = Recorder::new(IgnoreRunner {
        ignored: true,
        ..Default::default()
    });

    let error = config.validate("/repo", &mut runner, &mut fs).unwrap_err();

    assert!(error.message().contains("escapes"));
    assert!(runner.inner_mut().requests.borrow().is_empty());
}

#[test]
fn non_ignored_workspace_roots_are_rejected() {
    let config = valid_config();
    let mut fs = Files::new(repository_fs());
    fs.inner_mut().mkdir_p("/repo/.worktrees");
    let mut runner = Recorder::new(IgnoreRunner::default());

    let error = config.validate("/repo", &mut runner, &mut fs).unwrap_err();

    assert!(error.message().contains("ignored by Git"));
}

#[test]
fn exactly_one_file_source_is_required() {
    let mut config = valid_config();
    config.files.push(FileRule {
        label: "environment".to_owned(),
        destination: ".env".to_owned(),
        template: Some(".env.example".to_owned()),
        source_env: Some("LOCAL_ENV".to_owned()),
    });
    let mut fs = Files::new(repository_fs());
    let mut runner = Recorder::new(IgnoreRunner {
        ignored: true,
        ..Default::default()
    });

    let error = config.validate("/repo", &mut runner, &mut fs).unwrap_err();

    assert!(error.message().contains("exactly one"));
}

#[test]
fn duplicate_file_destinations_are_rejected() {
    let mut config = valid_config();
    config.files = vec![
        FileRule {
            label: "first".to_owned(),
            destination: ".env".to_owned(),
            template: Some("first.env".to_owned()),
            source_env: None,
        },
        FileRule {
            label: "second".to_owned(),
            destination: ".env".to_owned(),
            template: Some("second.env".to_owned()),
            source_env: None,
        },
    ];
    let mut fs = Files::new(repository_fs());
    let mut runner = Recorder::new(IgnoreRunner {
        ignored: true,
        ..Default::default()
    });

    let error = config.validate("/repo", &mut runner, &mut fs).unwrap_err();

    assert!(error.message().contains("distinct files"));
}

#[test]
fn file_command_and_check_rules_reject_invalid_public_configuration() {
    let validate = |config: &ProjectConfig| {
        let mut fs = Files::new(repository_fs());
        fs.inner_mut().mkdir_p("/repo/.worktrees");
        config
            .validate(
                "/repo",
                &mut Recorder::new(IgnoreRunner {
                    ignored: true,
                    ..Default::default()
                }),
                &mut fs,
            )
            .unwrap_err()
            .message()
    };

    let mut empty_file_label = valid_config();
    empty_file_label.files.push(FileRule {
        label: " ".to_owned(),
        destination: ".env".to_owned(),
        template: Some("example.env".to_owned()),
        source_env: None,
    });
    assert!(validate(&empty_file_label).contains("files[].label"));

    let mut missing_source = valid_config();
    missing_source.files.push(FileRule {
        label: "environment".to_owned(),
        destination: ".env".to_owned(),
        template: None,
        source_env: None,
    });
    assert!(validate(&missing_source).contains("exactly one"));

    let mut invalid_source_name = valid_config();
    invalid_source_name.files.push(FileRule {
        label: "environment".to_owned(),
        destination: ".env".to_owned(),
        template: None,
        source_env: Some("1INVALID".to_owned()),
    });
    assert!(validate(&invalid_source_name).contains("variable name"));

    let mut empty_command_label = valid_config();
    empty_command_label.commands.push(CommandRule {
        label: "".to_owned(),
        cwd: ".".to_owned(),
        argv: vec!["true".to_owned()],
        sensitive: false,
    });
    assert!(validate(&empty_command_label).contains("commands[].label"));

    let mut empty_argv = valid_config();
    empty_argv.commands.push(CommandRule {
        label: "setup".to_owned(),
        cwd: ".".to_owned(),
        argv: vec![String::new()],
        sensitive: false,
    });
    assert!(validate(&empty_argv).contains("non-empty argv"));

    for (kind, key, expected) in [
        ("path-exists", Some("KEY"), "cannot define"),
        ("env-key", None, "requires"),
        ("future-kind", None, "unsupported"),
    ] {
        let mut invalid_check = valid_config();
        invalid_check.checks.push(CheckRule {
            label: "health".to_owned(),
            kind: kind.to_owned(),
            path: ".env".to_owned(),
            key: key.map(str::to_owned),
        });
        assert!(validate(&invalid_check).contains(expected));
    }

    let mut valid = valid_config();
    valid.files.push(FileRule {
        label: "environment".to_owned(),
        destination: ".env".to_owned(),
        template: Some("example.env".to_owned()),
        source_env: None,
    });
    valid.commands.push(CommandRule {
        label: "setup".to_owned(),
        cwd: ".".to_owned(),
        argv: vec!["true".to_owned()],
        sensitive: false,
    });
    valid.checks.push(CheckRule {
        label: "environment".to_owned(),
        kind: "env-key".to_owned(),
        path: ".env".to_owned(),
        key: Some("APP_KEY".to_owned()),
    });
    let mut fs = Files::new(repository_fs());
    fs.inner_mut().mkdir_p("/repo/.worktrees");
    assert!(valid
        .validate(
            "/repo",
            &mut Recorder::new(IgnoreRunner {
                ignored: true,
                ..Default::default()
            }),
            &mut fs,
        )
        .is_ok());
}

#[test]
fn safe_paths_reject_symlink_escape_and_symlinked_ddev_metadata() {
    let mut fs = Files::new(repository_fs());
    fs.inner_mut().symlink("/repo/linked", "/outside");

    let error = safe_join(&mut fs, "/repo", "linked/file").unwrap_err();
    assert!(error.message().contains("through a symlink"));
    assert_eq!(nearest_existing_parent(&mut fs, "/repo/missing/child"), "/repo");

    fs.inner_mut().mkdir_p("/repo/.worktrees");
    fs.inner_mut().mkdir_p("/repo/app");
    fs.inner_mut().symlink("/repo/app/.ddev", "/outside");
    let mut config = valid_config();
    config.ddev = Some(DdevConfig {
        app_root: "app".to_owned(),
        source_site: None,
    });
    let error = config
        .validate(
            "/repo",
            &mut Recorder::new(IgnoreRunner {
                ignored: true,
                ..Default::default()
            }),
            &mut fs,
        )
        .unwrap_err();
    assert!(error.message().contains("symlinked .ddev"));
}

#[test]
fn git_ignore_probe_is_repository_relative_and_outside_paths_are_rejected() {
    let mut runner = Recorder::new(IgnoreRunner {
        ignored: true,
        ..Default::default()
    });

    assert!(is_ignored("/repo", "/repo/.worktrees/probe", &mut runner).expect("ignore probe"));
    assert_eq!(runner.inner_mut().requests.borrow()[0].program, "git");
    assert_eq!(
        runner.inner_mut().requests.borrow()[0].args,
        strings(&["-C", "/repo", "check-ignore", "--quiet", "--", ".worktrees/probe"])
    );
    assert!(is_ignored("/repo", "/outside", &mut runner).is_err());
}

// ---------------------------------------------------------------------------
// DDEV identities
// ---------------------------------------------------------------------------

#[test]
fn names_are_deterministic_and_limited_to_dns_label_size() {
    let name = expected_name("fixture", "invoice-fix").expect("valid DDEV name");

    assert_eq!(name, "dw-fixture--invoice-fix");
    assert!(expected_name(&"a".repeat(60), "task").is_err());
}

#[test]
fn exact_identity_requires_running_and_healthy_mutagen() {
    let inspection = DdevInspection {
        entries: vec![DdevProject {
            name: "dw-fixture--task".to_owned(),
            approot: "/tmp/workspace".to_owned(),
            status: "running".to_owned(),
            mutagen_enabled: true,
            mutagen_status: "ok".to_owned(),
        }],
        warnings: Vec::new(),
    };

    let project = require_ready_identity(&inspection, "dw-fixture--task", "/tmp/workspace", &mut Files::new(MemFs::default()))
        .expect("identity should be ready");

    assert_eq!(project.name, "dw-fixture--task");
}

#[test]
fn conflicting_name_or_path_is_rejected_before_start() {
    let inspection = DdevInspection {
        entries: vec![DdevProject {
            name: "dw-fixture--other".to_owned(),
            approot: "/tmp/workspace".to_owned(),
            status: "running".to_owned(),
            mutagen_enabled: false,
            mutagen_status: String::new(),
        }],
        warnings: Vec::new(),
    };

    let error = inspect_new_identity(&inspection, "dw-fixture--task", "/tmp/workspace", &mut Files::new(MemFs::default()))
        .unwrap_err();

    assert!(error.message().contains("already registered"));
}

#[test]
fn data_removal_uses_only_stop_remove_data_unlist() {
    let mut runner = Recorder::new(FakeRunner::default());

    stop_unlist("/tmp/workspace", "dw-fixture--task", true, &mut runner)
        .expect("fake stop should succeed");

    assert_eq!(
        runner.inner_mut().requests[0].args,
        vec![
            "stop".to_owned(),
            "--remove-data".to_owned(),
            "--unlist".to_owned(),
            "dw-fixture--task".to_owned()
        ]
    );
    assert!(!runner.inner_mut().requests[0].args.iter().any(|arg| arg == "delete"));
}

#[test]
fn readiness_requires_one_exact_running_healthy_identity() {
    let root = "/tmp/workspace";
    let project = |name: &str, approot: &str, status: &str, mutagen_status: &str| DdevProject {
        name: name.to_owned(),
        approot: approot.to_owned(),
        status: status.to_owned(),
        mutagen_enabled: !mutagen_status.is_empty(),
        mutagen_status: mutagen_status.to_owned(),
    };

    let cases = [
        vec![],
        vec![project("other", "/tmp/workspace", "running", "")],
        vec![project("dw-fixture--task", "/tmp/workspace", "stopped", "")],
        vec![project(
            "dw-fixture--task",
            "/tmp/workspace",
            "running",
            "failed",
        )],
        vec![
            project("dw-fixture--task", "/tmp/workspace", "running", ""),
            project("dw-fixture--task", "/tmp/other", "running", ""),
        ],
    ];
    for entries in cases {
        let inspection = DdevInspection {
            entries,
            warnings: Vec::new(),
        };
        assert!(require_ready_identity(&inspection, "dw-fixture--task", root, &mut Files::new(MemFs::default())).is_err());
    }
}

#[test]
fn start_and_stop_fail_closed_on_nonzero_process_status() {
    let mut runner = Recorder::new(FakeRunner {
        requests: Vec::new(),
        responses: vec![failed_output(), failed_output()],
    });

    assert!(start("/tmp/workspace", &mut runner).is_err());
    assert!(stop_unlist("/tmp/workspace", "dw-fixture--task", false, &mut runner).is_err());
    assert!(runner.inner_mut().requests.iter().all(|request| request.mutating));
}

#[test]
fn override_creation_requires_named_regular_ignored_ddev_configuration() {
    let mut fs = Files::new(repository_fs());
    fs.inner_mut().mkdir_p("/repo/app");
    let mut runner = Recorder::new(FakeRunner::default());
    assert!(write_override("/repo", "/repo/app", "dw-fixture--task", false, &mut fs, &mut runner).is_err());

    fs.inner_mut().mkdir_p("/repo/app/.ddev");
    assert!(write_override("/repo", "/repo/app", "dw-fixture--task", false, &mut fs, &mut runner).is_err());

    fs.inner_mut().write("/repo/app/.ddev/config.yaml", "type: php\n");
    runner.inner_mut().responses.push(CommandOutput {
        status: 0,
        stdout: String::new(),
        stderr: String::new(),
    });
    let override_path = write_override("/repo", "/repo/app", "dw-fixture--task", false, &mut fs, &mut runner)
        .expect("ignored override should be created");
    assert_eq!(
        fs.inner_mut().contents(&override_path).expect("override contents"),
        "name: dw-fixture--task\n"
    );
    assert!(write_override("/repo", "/repo/app", "dw-fixture--task", false, &mut fs, &mut runner).is_err());
}

/// A registry that reports no projects.
struct EmptyRegistry;

impl DdevRegistry for EmptyRegistry {
    fn inspect<R: CommandRunner>(&mut self, _runner: &mut R, _cwd: &str) -> ToolResult<DdevInspection> {
        Ok(DdevInspection {
            entries: Vec::new(),
            warnings: Vec::new(),
        })
    }
}

struct NoInterrupt;

impl Interrupts for NoInterrupt {
    fn interrupted(&mut self) -> bool {
        false
    }
}

#[test]
fn database_clone_reports_clone_and_restoration_failures_and_cleans_private_dump() {
    let mut fs = Files::new(MemFs::default());
    fs.inner_mut().mkdir_p("/fixture/source/.ddev");
    fs.inner_mut().mkdir_p("/fixture/target");
    fs.inner_mut().mkdir_p("/tmp");
    let failed = CommandOutput {
        status: 1,
        stdout: String::new(),
        stderr: String::new(),
    };
    let mut runner = Recorder::new(FakeRunner {
        requests: Vec::new(),
        responses: vec![failed.clone(), failed],
    });

    let error = clone_database(
        "/fixture/source",
        "/fixture/target",
        "/tmp/ddev-workspaces-database-1-2",
        &mut runner,
        &mut fs,
        &mut Registry::new(EmptyRegistry),
        &mut NoInterrupt,
    )
    .unwrap_err();
    let export = runner
        .inner()
        .requests
        .iter()
        .find(|request| request.args.first().is_some_and(|arg| arg == "export-db"))
        .expect("export request");
    let dump = export
        .args
        .iter()
        .find_map(|argument| argument.strip_prefix("--file="))
        .map(PathBuf::from)
        .expect("database dump path");

    assert!(error.message().contains("could not export"));
    assert!(error.message().contains("source-state restoration failed"));
    assert!(!fs.inner_mut().holds(&dump.parent().expect("private dump directory").display().to_string()));
    assert!(!fs.inner_mut().holds("/fixture/source/.ddev/config.ddev-workspaces-export.yaml"));
}

// ---------------------------------------------------------------------------
// Git output
// ---------------------------------------------------------------------------

#[test]
fn remote_head_parser_requires_one_symbolic_head_and_sha() {
    let (refs, heads) =
        parse_remote_head("ref: refs/heads/main\tHEAD\n0123456789012345678901234567890123456789\tHEAD\n");

    assert_eq!(refs, vec!["refs/heads/main"]);
    assert_eq!(
        heads,
        vec![(
            "refs/heads/main".to_owned(),
            "0123456789012345678901234567890123456789".to_owned()
        )]
    );
}

#[test]
fn prefixed_index_paths_expose_hidden_flags() {
    let paths = parse_prefixed_paths("H normal.txt\0S hidden.txt\0h assumed.txt\0");

    assert_eq!(paths[1], ('S', "hidden.txt".to_owned()));
    assert_eq!(paths[2], ('h', "assumed.txt".to_owned()));
}

#[test]
fn worktree_parser_keeps_locked_and_prunable_markers() {
    let records = parse_worktrees(
        "worktree /tmp/main\0HEAD abc\0branch refs/heads/main\0\0worktree /tmp/old\0HEAD def\0prunable gone\0",
    );

    assert_eq!(records.len(), 2);
    assert!(records[1].prunable);
}

#[test]
fn submodule_parser_names_uninitialized_path() {
    let issues = parse_submodule_issues("-0123456789012345678901234567890123456789 vendor/private\n");

    assert_eq!(issues, vec!["submodule vendor/private: uninitialized"]);
}

fn fixture_repository() -> GitRepository {
    GitRepository {
        root: "/tmp/repo".to_owned(),
        common_dir: "/tmp/repo/.git".to_owned(),
        main_worktree: "/tmp/repo".to_owned(),
    }
}

#[test]
fn template_stage_check_rejects_untracked_paths() {
    let mut runner = Recorder::new(FakeRunner {
        requests: Vec::new(),
        responses: vec![CommandOutput {
            status: 0,
            stdout: String::new(),
            stderr: String::new(),
        }],
    });
    let repository = fixture_repository();

    let error = repository
        .require_stage_zero_file("/tmp/repo/.env.example", &mut runner)
        .unwrap_err();

    assert!(error.message().contains("stage-zero tracked Git file"));
}

#[test]
fn failed_remote_query_is_sanitized() {
    let mut runner = Recorder::new(FakeRunner {
        requests: Vec::new(),
        responses: vec![CommandOutput {
            status: 128,
            stdout: String::new(),
            stderr: "ssh://secret@example.invalid/private".to_owned(),
        }],
    });
    let repository = fixture_repository();

    let error = repository.resolve_base(None, &mut runner).unwrap_err();

    assert!(!error.message().contains("secret@example"));
    assert!(error.message().contains("git fetch"));
}

// ---------------------------------------------------------------------------
// Ownership records
// ---------------------------------------------------------------------------

/// A line-per-field text form of a record, standing in for TOML.
fn encode_record(record: &OwnershipRecord) -> Result<String, String> {
    Ok(format!(
        "{}\n{}\n{}\n{}\n{}\n{}\n{}\n{}\n{}\n",
        record.version,
        record.project_id,
        record.common_directory,
        record.worktree_path,
        record.base_sha,
        record.branch,
        record.ddev_name,
        record.source_only,
        record.ddev_app_root.clone().unwrap_or_default()
    ))
}

fn decode_record(text: &str) -> Result<OwnershipRecord, String> {
    let fields: Vec<&str> = text.lines().collect();
    if fields.len() != 9 {
        return Err(format!("expected 9 fields, found {}", fields.len()));
    }
    Ok(OwnershipRecord {
        version: fields[0].parse().map_err(|_| "invalid version".to_owned())?,
        project_id: fields[1].to_owned(),
        common_directory: fields[2].to_owned(),
        worktree_path: fields[3].to_owned(),
        base_sha: fields[4].to_owned(),
        branch: fields[5].to_owned(),
        ddev_name: fields[6].to_owned(),
        source_only: fields[7] == "true",
        ddev_app_root: if fields[8].is_empty() {
            None
        } else {
            Some(fields[8].to_owned())
        },
    })
}

fn record(directory: &str) -> OwnershipRecord {
    OwnershipRecord {
        version: 1,
        project_id: "fixture".to_owned(),
        common_directory: directory.to_owned(),
        worktree_path: format!("{directory}/.worktrees/task-1"),
        base_sha: "0123456789012345678901234567890123456789".to_owned(),
        branch: "task-1".to_owned(),
        ddev_name: "dw-fixture--task-1".to_owned(),
        source_only: false,
        ddev_app_root: Some(".".to_owned()),
    }
}

#[test]
fn reservation_is_exclusive_and_inspectable() {
    let mut fs = Files::new(MemFs::default());
    fs.inner_mut().mkdir_p("/common");
    let first = record("/common");

    let path = state::reserve(&mut fs, "/common", &first, &encode_record).expect("first reservation");
    let second = state::reserve(&mut fs, "/common", &first, &encode_record).unwrap_err();
    let (_, loaded) = state::load(&mut fs, "/common", "task-1", &decode_record).expect("record should load");

    assert!(fs.inner_mut().holds(&path));
    assert!(second.message().contains("already exists"));
    assert_eq!(loaded, first);
}

#[test]
fn listing_is_empty_until_records_exist_then_sorts_and_reports_invalid_records() {
    let mut fs = Files::new(MemFs::default());
    fs.inner_mut().mkdir_p("/common");
    assert!(state::list(&mut fs, "/common", &decode_record)
        .expect("empty listing")
        .is_empty());

    let mut second = record("/common");
    second.branch = "second".to_owned();
    state::reserve(&mut fs, "/common", &second, &encode_record).expect("second record");
    let mut first = record("/common");
    first.branch = "first".to_owned();
    state::reserve(&mut fs, "/common", &first, &encode_record).expect("first record");
    let records = state::records_directory("/common");
    fs.inner_mut().write(&format!("{records}/ignored.txt"), "ignored");
    fs.inner_mut().write(&format!("{records}/invalid.toml"), "version = 2\n");

    let entries = state::list(&mut fs, "/common", &decode_record).expect("record listing");

    assert_eq!(
        entries.iter().map(|entry| entry.name.as_str()).collect::<Vec<_>>(),
        ["first", "invalid", "second"]
    );
    assert!(entries[0].record.is_ok());
    assert!(entries[1].record.is_err());
    assert!(entries[2].record.is_ok());
}

#[test]
fn missing_and_unsupported_records_are_never_loaded_or_deleted_as_owned() {
    let mut fs = Files::new(MemFs::default());
    fs.inner_mut().mkdir_p("/common");
    assert!(state::load(&mut fs, "/common", "missing", &decode_record).is_err());

    let mut unsupported = record("/common");
    unsupported.version = 2;
    let path = state::reserve(&mut fs, "/common", &unsupported, &encode_record).expect("unsupported record fixture");
    assert!(state::load(&mut fs, "/common", "task-1", &decode_record)
        .unwrap_err()
        .message()
        .contains("unsupported version 2"));

    state::delete(&mut fs, &path).expect("record deletion");
    assert!(!fs.inner_mut().holds(&path));
    assert!(state::delete(&mut fs, &path).is_err());
}

#[test]
fn symlinked_ownership_directories_and_records_are_rejected() {
    let mut fs = Files::new(MemFs::default());
    fs.inner_mut().mkdir_p("/common/ddev-workspaces");
    fs.inner_mut().mkdir_p("/outside");
    fs.inner_mut().symlink("/common/ddev-workspaces/workspaces", "/outside");

    assert!(state::reserve(&mut fs, "/common", &record("/common"), &encode_record).is_err());
    assert!(state::list(&mut fs, "/common", &decode_record).is_err());

    fs.inner_mut().remove_file("/common/ddev-workspaces/workspaces").expect("remove ownership symlink");
    fs.inner_mut().mkdir_p("/common/ddev-workspaces/workspaces");
    fs.inner_mut().write("/outside/record.toml", "version = 1\n");
    fs.inner_mut().symlink(&state::record_path("/common", "task-1"), "/outside/record.toml");
    assert!(state::load(&mut fs, "/common", "task-1", &decode_record).is_err());
}

// ---------------------------------------------------------------------------
// Workspace checks
// ---------------------------------------------------------------------------

#[test]
fn env_key_check_does_not_return_or_print_the_value() {
    let mut fs = Files::new(MemFs::default());
    fs.inner_mut().write("/workspace/.env", "APP_KEY=secret-value\n");
    let check = CheckRule {
        label: "app key".to_owned(),
        kind: "env-key".to_owned(),
        path: ".env".to_owned(),
        key: Some("APP_KEY".to_owned()),
    };

    run_one_check(&mut fs, &check, "/workspace").expect("key should be ready");
}
