use std::collections::BTreeMap;

use ddev_workspaces::command::{
    CommandOutput, CommandRequest, CommandRunner, RealCommandRunner, Recorder, ToolError, ToolResult,
};
use ddev_workspaces::config::{normalize_relative_path, validate_repository_relative, workspace_root_ignored};
use ddev_workspaces::ddev::{
    clone_outcome, compose_contents, entry_in_ddev, expected_name, export_request, import_outcome, import_request,
    is_skipped_site_entry, normalize_ddev_warning, override_contents, reserve_dump_directory, restore_outcome,
    new_identity_conflict, ready_identity, source_override_path, Registry, stderr_messages, stop_unlist_request, symlink_escapes,
    version_outcome, DdevProject,
};
use ddev_workspaces::git::{
    branch_exists_from_status, is_full_commit_id, plan_lfs_batches, source_issues, GitRepository,
    SourceObservations, WorktreeRecord, MAX_BATCH_BYTES,
};
use ddev_workspaces::paths::{
    Files,
    join, parent_path, same_path, starts_with_path, strip_prefix_path, DirError, EntryKind, FileSystem, FsError,
    WriteError,
};
use ddev_workspaces::state::{record_path, validate_record_version, OwnershipRecord, RecordEntry};
use ddev_workspaces::workspace::{
    command_outcome, confirmation_given, confirmation_prompt, env_key_is_set, exit_code, find_owned_ddev,
    format_source_failure,
    data_deletion_check, identity_status, list_entry_status, on_branch, preserved_failure, runtime_failure_status, typed_confirmation,
    unquote, verify_removal_target,
};

/// A file system in which nothing exists and nothing can be created.
struct EmptyFs;

impl FileSystem for EmptyFs {
    fn canonicalize(&mut self, _path: &str) -> Result<String, String> {
        Err("No such file or directory (os error 2)".to_owned())
    }
    fn entry_kind(&mut self, _path: &str) -> Result<EntryKind, FsError> {
        Err(FsError {
            not_found: true,
            message: "No such file or directory (os error 2)".to_owned(),
        })
    }
    fn path_exists(&mut self, _path: &str) -> bool {
        false
    }
    fn is_dir(&mut self, _path: &str) -> bool {
        false
    }
    fn read_to_string(&mut self, _path: &str) -> Result<String, String> {
        Err("No such file or directory (os error 2)".to_owned())
    }
    fn env_var(&mut self, _name: &str) -> Option<String> {
        None
    }
    fn read_prefix(&mut self, _path: &str, _len: usize) -> Option<Vec<u8>> {
        None
    }
    fn create_file(&mut self, _path: &str, _contents: &str) -> Result<(), WriteError> {
        Err(WriteError::Create("Read-only file system (os error 30)".to_owned()))
    }
    fn create_dir(&mut self, _path: &str) -> Result<(), DirError> {
        Err(DirError::Failed("Read-only file system (os error 30)".to_owned()))
    }
    fn create_private_dir(&mut self, _path: &str) -> Result<(), DirError> {
        Err(DirError::Failed("Read-only file system (os error 30)".to_owned()))
    }
    fn remove_file(&mut self, _path: &str) -> Result<(), String> {
        Err("No such file or directory (os error 2)".to_owned())
    }
    fn remove_dir_all(&mut self, _path: &str) -> Result<(), String> {
        Err("No such file or directory (os error 2)".to_owned())
    }
    fn read_dir(&mut self, _path: &str) -> Result<Vec<String>, String> {
        Err("No such file or directory (os error 2)".to_owned())
    }
}

/// A file system whose only feature is a set of directories that already
/// exist, for directory reservation.
struct TakenDirs {
    taken: BTreeMap<String, ()>,
    created: Vec<String>,
}

impl FileSystem for TakenDirs {
    fn canonicalize(&mut self, path: &str) -> Result<String, String> {
        Ok(path.to_owned())
    }
    fn entry_kind(&mut self, _path: &str) -> Result<EntryKind, FsError> {
        Ok(EntryKind::Directory)
    }
    fn path_exists(&mut self, _path: &str) -> bool {
        true
    }
    fn is_dir(&mut self, _path: &str) -> bool {
        true
    }
    fn read_to_string(&mut self, _path: &str) -> Result<String, String> {
        Err("unsupported".to_owned())
    }
    fn env_var(&mut self, _name: &str) -> Option<String> {
        None
    }
    fn read_prefix(&mut self, _path: &str, _len: usize) -> Option<Vec<u8>> {
        None
    }
    fn create_file(&mut self, _path: &str, _contents: &str) -> Result<(), WriteError> {
        Err(WriteError::Create("unsupported".to_owned()))
    }
    fn create_dir(&mut self, path: &str) -> Result<(), DirError> {
        self.create_private_dir(path)
    }
    fn create_private_dir(&mut self, path: &str) -> Result<(), DirError> {
        if self.taken.contains_key(path) {
            Err(DirError::AlreadyExists("File exists (os error 17)".to_owned()))
        } else {
            self.created.push(path.to_owned());
            Ok(())
        }
    }
    fn remove_file(&mut self, _path: &str) -> Result<(), String> {
        Ok(())
    }
    fn remove_dir_all(&mut self, _path: &str) -> Result<(), String> {
        Ok(())
    }
    fn read_dir(&mut self, _path: &str) -> Result<Vec<String>, String> {
        Ok(Vec::new())
    }
}

#[derive(Default)]
struct RecordingRunner {
    requests: Vec<CommandRequest>,
}

impl CommandRunner for RecordingRunner {
    fn run(&mut self, request: &CommandRequest) -> ToolResult<CommandOutput> {
        self.requests.push(request.clone());
        Ok(CommandOutput {
            status: 0,
            stdout: String::new(),
            stderr: String::new(),
        })
    }
}

struct NoRegistry;

impl ddev_workspaces::ddev::DdevRegistry for NoRegistry {
    fn inspect<R: CommandRunner>(
        &mut self,
        _runner: &mut R,
        _cwd: &str,
    ) -> ToolResult<ddev_workspaces::ddev::DdevInspection> {
        Err(ToolError::new("no registry".to_owned()))
    }
}

fn strings(values: &[&str]) -> Vec<String> {
    values.iter().map(|v| (*v).to_owned()).collect()
}

fn output(status: i32, stdout: &str, stderr: &str) -> CommandOutput {
    CommandOutput {
        status,
        stdout: stdout.to_owned(),
        stderr: stderr.to_owned(),
    }
}

fn project(name: &str, approot: &str) -> DdevProject {
    DdevProject {
        name: name.to_owned(),
        approot: approot.to_owned(),
        status: "running".to_owned(),
        mutagen_enabled: false,
        mutagen_status: String::new(),
    }
}

fn repository() -> GitRepository {
    GitRepository {
        root: "/repo".to_owned(),
        common_dir: "/repo/.git".to_owned(),
        main_worktree: "/repo".to_owned(),
    }
}

fn config() -> ddev_workspaces::config::ProjectConfig {
    ddev_workspaces::config::ProjectConfig {
        version: 1,
        project_id: "fixture".to_owned(),
        workspace_root: ".worktrees".to_owned(),
        ddev: None,
        files: Vec::new(),
        commands: Vec::new(),
        checks: Vec::new(),
    }
}

fn owned_record() -> OwnershipRecord {
    OwnershipRecord {
        version: 1,
        project_id: "fixture".to_owned(),
        common_directory: "/repo/.git".to_owned(),
        worktree_path: "/repo/.worktrees/task".to_owned(),
        base_sha: "0123456789012345678901234567890123456789".to_owned(),
        branch: "task".to_owned(),
        ddev_name: "dw-fixture--task".to_owned(),
        source_only: false,
        ddev_app_root: None,
    }
}

// ---------------------------------------------------------------------------
// Names and paths
// ---------------------------------------------------------------------------

#[test]
fn distinct_workspaces_get_distinct_ddev_names() {
    let a = expected_name("shop", "a--b").unwrap_err();
    assert!(a.message().contains("may not contain `--`"));
    let one = expected_name("shop-a", "b").expect("valid");
    let two = expected_name("shop", "a-b").expect("valid");
    assert_eq!(one, "dw-shop-a--b");
    assert_eq!(two, "dw-shop--a-b");
    assert_ne!(one, two);
}

#[test]
fn ddev_name_of_exactly_sixty_three_bytes_is_accepted() {
    let project_id = "a".repeat(57);
    let name = expected_name(&project_id, "b").expect("63 bytes fit");
    assert_eq!(name.len(), 63);
    let error = expected_name(&"a".repeat(58), "b").unwrap_err();
    assert_eq!(
        error.message(),
        format!(
            "DDEV project name `dw-{}--b` is longer than the 63-byte DNS-label limit",
            "a".repeat(58)
        )
    );
}

#[test]
fn invalid_project_id_is_reported_before_the_workspace_name() {
    let error = expected_name("Bad", "Also-Bad").unwrap_err();
    assert_eq!(
        error.message(),
        "project_id `Bad` must match [a-z0-9](?:[a-z0-9-]*[a-z0-9])? and may not contain `--`"
    );
    assert_eq!(error.exit_code(), 1);
}

#[test]
fn accepted_relative_paths_normalize_below_the_root() {
    for (input, expected) in [("a/../b", "b"), ("./x/./y", "x/y"), ("a/b/..", "a"), (".", "")] {
        assert!(validate_repository_relative("path", input).is_ok(), "{input}");
        assert_eq!(normalize_relative_path(input), expected);
    }
    assert_eq!(
        validate_repository_relative("path", "a/../..").unwrap_err().message(),
        "configuration field `path` escapes its repository/workspace root"
    );
    assert_eq!(
        validate_repository_relative("path", "a/..").unwrap_err().message(),
        "configuration field `path` must name a path"
    );
}

#[test]
fn paths_compare_by_component() {
    assert!(same_path("/repo/./a/", "/repo/a"));
    assert!(!same_path("/repo/a", "repo/a"));
    assert!(starts_with_path("/repo/a/b", "/repo/a"));
    assert!(!starts_with_path("/repo/ab", "/repo/a"));
    assert_eq!(strip_prefix_path("/repo/a/b/c", "/repo/a").as_deref(), Some("b/c"));
    assert_eq!(strip_prefix_path("/other", "/repo"), None);
    assert_eq!(join("/repo", "x"), "/repo/x");
    assert_eq!(join("/repo/", "x"), "/repo/x");
    assert_eq!(join("/repo", "/abs"), "/abs");
    assert_eq!(parent_path("/repo/.git").as_deref(), Some("/repo"));
    assert_eq!(parent_path("/"), None);
}

#[test]
fn distinct_workspaces_never_share_a_record_file() {
    let first = record_path("/repo/.git", "task-1");
    let second = record_path("/repo/.git", "task-2");
    assert_eq!(first, "/repo/.git/ddev-workspaces/workspaces/task-1.toml");
    assert_ne!(first, second);
}

// ---------------------------------------------------------------------------
// DDEV requests and outcomes
// ---------------------------------------------------------------------------

#[test]
fn stop_without_data_deletion_only_unlists() {
    let request = stop_unlist_request("/app", "dw-fixture--task", false);
    assert_eq!(request.program, "ddev");
    assert_eq!(request.args, strings(&["stop", "--unlist", "dw-fixture--task"]));
    assert_eq!(request.cwd.as_deref(), Some("/app"));
    assert!(request.mutating);
}

#[test]
fn database_clone_requests_name_the_dump() {
    let export = export_request("/source", "/tmp/d/database.sql.gz");
    let import = import_request("/target", "/tmp/d/database.sql.gz");
    assert_eq!(export.args, strings(&["export-db", "--file=/tmp/d/database.sql.gz"]));
    assert_eq!(
        import.args,
        strings(&["import-db", "--no-progress", "--file=/tmp/d/database.sql.gz"])
    );
    assert_eq!(export.cwd.as_deref(), Some("/source"));
    assert_eq!(import.cwd.as_deref(), Some("/target"));
    assert!(export.mutating && import.mutating);
    assert_eq!(
        source_override_path("/source"),
        "/source/.ddev/config.ddev-workspaces-export.yaml"
    );
}

#[test]
fn import_failures_quote_trimmed_output() {
    let error = import_outcome("/target", &output(1, "  partial ", "error\n")).unwrap_err();
    assert_eq!(
        error.message(),
        "could not import the source DDEV database into /target: partial error"
    );
    let silent = import_outcome("/target", &output(1, " ", "\n")).unwrap_err();
    assert_eq!(
        silent.message(),
        "could not import the source DDEV database into /target"
    );
    assert!(import_outcome("/target", &output(0, "noise", "")).is_ok());
}

#[test]
fn restoration_failure_outranks_and_extends_the_clone_failure() {
    let clone_error = || ToolError::new("could not export the source DDEV database from /s".to_owned());
    let restore_error = || restore_outcome("/s", &output(1, "", "")).unwrap_err();

    let both = clone_outcome(Err(clone_error()), Err(restore_error()), false).unwrap_err();
    assert_eq!(
        both.message(),
        "could not export the source DDEV database from /s; additionally, source-state restoration failed: source DDEV database was cloned, but /s could not be restored to its stopped state"
    );
    let only_restore = clone_outcome(Ok(()), Err(restore_error()), false).unwrap_err();
    assert_eq!(only_restore.message(), restore_error().message());
    let only_clone = clone_outcome(Err(clone_error()), Ok(()), true).unwrap_err();
    assert_eq!(only_clone.message(), clone_error().message());
    let interrupted = clone_outcome(Ok(()), Ok(()), true).unwrap_err();
    assert_eq!(
        interrupted.message(),
        "database cloning was interrupted after source-state cleanup completed"
    );
    assert!(clone_outcome(Ok(()), Ok(()), false).is_ok());
}

#[test]
fn dump_directory_takes_the_first_free_attempt() {
    let mut fs = Files::new(TakenDirs {
        taken: [("/tmp/base-0".to_owned(), ()), ("/tmp/base-1".to_owned(), ())]
            .into_iter()
            .collect(),
        created: Vec::new(),
    });
    assert_eq!(reserve_dump_directory(&mut fs, "/tmp/base").expect("free"), "/tmp/base-2");
    let mut full = Files::new(TakenDirs {
        taken: (0..32).map(|i| (format!("/tmp/base-{i}"), ())).collect(),
        created: Vec::new(),
    });
    assert_eq!(
        reserve_dump_directory(&mut full, "/tmp/base").unwrap_err().message(),
        "could not reserve a private temporary directory for the database clone"
    );
    assert_eq!(
        reserve_dump_directory(&mut Files::new(EmptyFs), "/tmp/base").unwrap_err().message(),
        "I/O error: Read-only file system (os error 30)"
    );
}

#[test]
fn registry_messages_are_trimmed_and_stale_paths_named() {
    assert_eq!(
        stderr_messages("  first \r\n\n\tsecond\n   \n"),
        strings(&["first", "second"])
    );
    assert_eq!(
        normalize_ddev_warning(
            "The project '/missing/app' no longer exists in the filesystem, removing it from registry".to_owned()
        ),
        "stale DDEV registration points to missing path /missing/app"
    );
    assert_eq!(normalize_ddev_warning("plain warning".to_owned()), "plain warning");
}

#[test]
fn version_report_must_name_an_absolute_global_directory() {
    assert_eq!(
        version_outcome(&output(0, "", ""), Ok("/home/u/.ddev".to_owned())).expect("absolute"),
        "/home/u/.ddev"
    );
    assert!(version_outcome(&output(0, "", ""), Ok("relative".to_owned()))
        .unwrap_err()
        .message()
        .contains("non-absolute"));
    assert!(version_outcome(&output(0, "", ""), Err("expected value".to_owned()))
        .unwrap_err()
        .message()
        .contains("unsupported JSON version envelope: expected value"));
    assert!(version_outcome(&output(1, "", ""), Ok("/home".to_owned()))
        .unwrap_err()
        .message()
        .contains("version inspection failed"));
}

#[test]
fn override_names_the_project_and_can_disable_mutagen() {
    assert_eq!(override_contents("dw-a--b", false), "name: dw-a--b\n");
    assert_eq!(
        override_contents("dw-a--b", true),
        "name: dw-a--b\nperformance_mode: none\n"
    );
}

#[test]
fn compose_file_mounts_the_workspace_as_json_text() {
    assert_eq!(
        compose_contents("/w", "wp-content/plugins/x").expect("encodable"),
        "services:\n  web:\n    volumes:\n      - \"/w:/var/www/html/wp-content/plugins/x\"\n"
    );
    assert_eq!(
        compose_contents("/a \"b\"", "p").expect("encodable"),
        "services:\n  web:\n    volumes:\n      - \"/a \\\"b\\\":/var/www/html/p\"\n"
    );
}

#[test]
fn site_copy_skips_generated_state_and_escaping_links() {
    assert!(is_skipped_site_entry(".git", false));
    assert!(is_skipped_site_entry("node_modules", false));
    assert!(is_skipped_site_entry("db_snapshots", true));
    assert!(!is_skipped_site_entry("db_snapshots", false));
    assert!(!is_skipped_site_entry("config.yaml", true));
    assert!(entry_in_ddev("/site/.ddev/traefik", "/site"));
    assert!(!entry_in_ddev("/site/web/.ddev", "/site"));
    assert!(symlink_escapes("/abs", "/site/x", "/site", "/site/repo"));
    assert!(symlink_escapes("../x", "/elsewhere/x", "/site", "/site/repo"));
    assert!(symlink_escapes("repo/x", "/site/repo/x", "/site", "/site/repo"));
    assert!(!symlink_escapes("shared/x", "/site/shared/x", "/site", "/site/repo"));
}

// ---------------------------------------------------------------------------
// Workspace checks and messages
// ---------------------------------------------------------------------------

#[test]
fn environment_keys_need_a_non_empty_possibly_quoted_value() {
    assert_eq!(unquote("\"quoted\""), "quoted");
    assert_eq!(unquote("'single'"), "single");
    assert_eq!(unquote("\""), "\"");
    assert_eq!(unquote("\"mixed'"), "\"mixed'");
    assert!(env_key_is_set("A=1\n APP_KEY = \"x\" \n", "APP_KEY"));
    assert!(!env_key_is_set("APP_KEY=\"\"\n", "APP_KEY"));
    assert!(!env_key_is_set("APP_KEY\nOTHER=1\n", "APP_KEY"));
    assert!(!env_key_is_set("", "APP_KEY"));
}

#[test]
fn owned_ddev_identity_must_be_unique_and_at_the_app_root() {
    let name = "dw-fixture--task";
    let none = find_owned_ddev(&mut Files::new(EmptyFs), &vec![project("other", "/elsewhere")], name, "/app").expect("none");
    assert!(none.is_none());
    let one = find_owned_ddev(&mut Files::new(EmptyFs), &vec![project(name, "/app")], name, "/app").expect("one");
    assert_eq!(one, Some(project(name, "/app")));
    assert!(find_owned_ddev(&mut Files::new(EmptyFs), &vec![project(name, "/other")], name, "/app")
        .unwrap_err()
        .message()
        .contains("refusing cross-project cleanup"));
    assert!(find_owned_ddev(&mut Files::new(EmptyFs), &vec![project("intruder", "/app")], name, "/app")
        .unwrap_err()
        .message()
        .contains("unexpected name `intruder`"));
    assert!(find_owned_ddev(&mut Files::new(EmptyFs), &vec![project(name, "/app"), project(name, "/app")], name, "/app")
        .unwrap_err()
        .message()
        .contains("duplicate registrations"));
}

#[test]
fn confirmations_must_match_the_workspace_name_exactly() {
    assert!(matches!(confirmation_given("task", Some("task"), "removal", false), Ok(true)));
    assert!(matches!(confirmation_given("task", None, "removal", true), Ok(false)));
    assert_eq!(
        confirmation_given("task", Some("Task"), "removal", true).unwrap_err().message(),
        "removal confirmation did not exactly match workspace name `task`; no mutation was attempted"
    );
    assert_eq!(
        confirmation_given("task", None, "DDEV data deletion", false).unwrap_err().message(),
        "non-interactive DDEV data deletion requires `--confirm task`; no mutation was attempted"
    );
    assert_eq!(confirmation_prompt("task", "removal"), "Type task to confirm removal: ");
    assert!(typed_confirmation("task", "  task\n", "removal").is_ok());
    assert!(typed_confirmation("task", "tas", "removal").is_err());
}

#[test]
fn failure_messages_name_what_was_preserved() {
    let error = preserved_failure(&ToolError::new("DDEV start failed".to_owned()), "/w", "/r.toml");
    assert_eq!(
        error.message(),
        "NOT READY — DDEV start failed\nOwnership record preserved at /r.toml; workspace path /w was not rolled back. Run doctor, then remove only after its safety checks pass."
    );
    let diagnostics = ddev_workspaces::git::SourceDiagnostics {
        issues: strings(&["dirty index", "detached HEAD"]),
        warnings: Vec::new(),
        worktrees: Vec::new(),
    };
    assert_eq!(
        format_source_failure(&diagnostics),
        "source verification failed; dirty index; detached HEAD"
    );
    assert_eq!(
        command_outcome("setup", "/w", &output(-3, "", "")).unwrap_err().message(),
        "declared command `setup` failed in /w with status -3; remediate it manually and rerun doctor"
    );
}

#[test]
fn unsupported_record_versions_are_named() {
    let mut record = owned_record();
    record.version = 7;
    assert_eq!(
        validate_record_version(record).unwrap_err(),
        "unsupported ownership record version 7"
    );
    assert!(validate_record_version(owned_record()).is_ok());
}

#[test]
fn malformed_records_never_authorize_removal() {
    let mut runner = Recorder::new(RecordingRunner::default());
    let mut stale = owned_record();
    stale.version = 2;
    let error = verify_removal_target(
        &mut Files::new(EmptyFs),
        &mut runner,
        &mut Registry::new(NoRegistry),
        &repository(),
        &config(),
        "task",
        &stale,
    )
    .unwrap_err();
    assert_eq!(
        error.message(),
        "ownership record version is unsupported; refusing removal"
    );
    let mut renamed = owned_record();
    renamed.ddev_name = "dw-fixture--other".to_owned();
    assert!(verify_removal_target(
        &mut Files::new(EmptyFs),
        &mut runner,
        &mut Registry::new(NoRegistry),
        &repository(),
        &config(),
        "task",
        &renamed,
    )
    .unwrap_err()
    .message()
    .contains("deterministic project identity"));
    assert!(runner.inner_mut().requests.is_empty());
}

#[test]
fn invalid_records_are_listed_as_not_ready() {
    let entry = RecordEntry {
        name: "broken".to_owned(),
        record: Err("expected 9 fields".to_owned()),
    };
    let (line, ready) = list_entry_status(
        &mut Files::new(EmptyFs),
        &mut Recorder::new(RecordingRunner::default()),
        &repository(),
        None,
        None,
        None,
        &entry,
    );
    assert_eq!(line, "broken: INVALID RECORD — expected 9 fields");
    assert!(!ready);
    let foreign = RecordEntry {
        name: "task".to_owned(),
        record: Ok(OwnershipRecord {
            common_directory: "/other/.git".to_owned(),
            ..owned_record()
        }),
    };
    let (line, ready) = list_entry_status(
        &mut Files::new(EmptyFs),
        &mut Recorder::new(RecordingRunner::default()),
        &repository(),
        None,
        None,
        None,
        &foreign,
    );
    assert_eq!(
        line,
        "task: NOT READY — ownership record points to another Git common directory"
    );
    assert!(!ready);
}

#[test]
fn worktree_branch_must_be_the_named_local_branch() {
    let worktree = WorktreeRecord {
        path: "/repo/.worktrees/task".to_owned(),
        head: None,
        branch: Some("refs/heads/task".to_owned()),
        locked: false,
        prunable: false,
    };
    assert!(on_branch(&worktree, "task"));
    assert!(!on_branch(&worktree, "tas"));
}

// ---------------------------------------------------------------------------
// Git
// ---------------------------------------------------------------------------

#[test]
fn lfs_batches_cover_every_path_once_in_order() {
    let long = "p".repeat(20000);
    let paths = vec![long.clone(), long.clone(), "a".to_owned(), "b".to_owned()];
    let batches = plan_lfs_batches(&paths);
    assert_eq!(batches.len(), 2);
    assert_eq!(batches.concat(), paths);
    assert!(batches.iter().all(|b| !b.is_empty()));
    assert!(MAX_BATCH_BYTES >= 20001);
    assert!(plan_lfs_batches(&Vec::new()).is_empty());
}

#[test]
fn branch_probe_statuses_are_distinguished() {
    assert_eq!(branch_exists_from_status(0).expect("exists"), true);
    assert_eq!(branch_exists_from_status(1).expect("absent"), false);
    assert!(branch_exists_from_status(128).is_err());
    assert!(is_full_commit_id("0123456789012345678901234567890123456789"));
    assert!(!is_full_commit_id("0123456789"));
    assert!(!is_full_commit_id("g123456789012345678901234567890123456789"));
}

#[test]
fn worktree_requests_report_git_refusals_without_forcing() {
    let repository = repository();
    let request = repository.remove_worktree_request("/repo/.worktrees/task");
    assert_eq!(request.args, strings(&["worktree", "remove", "/repo/.worktrees/task"]));
    assert!(request.mutating);
    assert_eq!(
        ddev_workspaces::git::remove_worktree_outcome("/w", &output(1, "", "locked")).unwrap_err().message(),
        "Git refused to remove /w without force; resolve the reported cleanliness, lock, or submodule issue manually"
    );
    assert!(ddev_workspaces::git::remove_worktree_outcome("/w", &output(0, "", "")).is_ok());
    assert_eq!(
        ddev_workspaces::git::add_worktree_outcome("/w", "abc", &output(128, "", "")).unwrap_err().message(),
        "Git could not create workspace /w from abc; preserve the ownership record and inspect Git manually"
    );
}

#[test]
fn submodule_failures_name_the_remaining_paths() {
    assert_eq!(
        ddev_workspaces::git::submodule_initialization_failure(&Vec::new()).message(),
        "recursive submodule initialization failed: inspect the named submodule and authenticate its private repository manually"
    );
    assert_eq!(
        ddev_workspaces::git::submodule_initialization_failure(&strings(&["submodule a: uninitialized", "submodule b: conflicted"]))
            .message(),
        "recursive submodule initialization failed: submodule a: uninitialized, submodule b: conflicted; authenticate its private repository manually"
    );
    assert!(ddev_workspaces::git::submodule_verification(&Vec::new()).is_ok());
    assert_eq!(
        ddev_workspaces::git::submodule_verification(&strings(&["submodule a: uninitialized"])).unwrap_err().message(),
        "recursive submodule verification failed: submodule a: uninitialized; inspect those paths manually"
    );
}

#[test]
fn compose_file_escapes_control_characters_as_json_does() {
    assert_eq!(
        compose_contents("/a\tb\\c\u{1}", "p").expect("encodable"),
        "services:\n  web:\n    volumes:\n      - \"/a\\tb\\\\c\\u0001:/var/www/html/p\"\n"
    );
}

fn clean_observations() -> SourceObservations {
    SourceObservations {
        sparse: output(0, "false\n", ""),
        flags: "H a.txt\0".to_owned(),
        missing: Vec::new(),
        head: "a".repeat(40),
        index_diff_status: 0,
        worktree_diff_status: 0,
        branch_status: 0,
        lfs_paths: 0,
        lfs_available: true,
        pointer_only: Vec::new(),
        submodules: output(0, "", ""),
    }
}

#[test]
fn a_clean_source_has_no_issues() {
    assert!(source_issues(&clean_observations(), None).is_empty());
}

#[test]
fn source_issues_follow_the_checks_in_order() {
    let mut o = clean_observations();
    o.sparse = output(0, " true\n", "");
    o.missing = vec!["gone.txt".to_owned()];
    o.index_diff_status = 1;
    o.branch_status = 1;
    o.lfs_paths = 2;
    o.lfs_available = false;
    let expected = "b".repeat(40);
    assert_eq!(
        source_issues(&o, Some(expected.as_str())),
        vec![
            "sparse checkout is enabled; restore the complete working tree manually".to_owned(),
            "tracked path missing: gone.txt".to_owned(),
            format!("worktree HEAD {} differs from expected base {}", "a".repeat(40), expected),
            format!("tracked content or mode differs from {expected}"),
            "repository is detached".to_owned(),
            "Git LFS is required for 2 tracked path(s), but `git lfs` is unavailable; install Git LFS and rerun doctor"
                .to_owned(),
        ]
    );
}

#[test]
fn pointer_only_lfs_content_is_an_issue_when_lfs_is_available() {
    let mut o = clean_observations();
    o.worktree_diff_status = 1;
    o.lfs_paths = 1;
    o.pointer_only = vec!["big.bin".to_owned()];
    assert_eq!(
        source_issues(&o, None),
        vec![
            "working-tree files differ from the index".to_owned(),
            "LFS content is pointer-only: big.bin; materialize it with a manual local/credentialed Git LFS operation"
                .to_owned(),
        ]
    );
}

#[test]
fn exit_code_is_zero_only_when_every_part_is_ready() {
    assert_eq!(exit_code(&vec![]), 0);
    assert_eq!(exit_code(&vec![true, true]), 0);
    assert_eq!(exit_code(&vec![true, false, true]), 1);
}

#[test]
fn a_new_identity_is_refused_when_its_app_root_is_registered_under_another_name() {
    let entries = vec![project("other", "/w/link")];
    let roots = vec!["/w/task".to_owned()];
    let error = new_identity_conflict(&entries, &roots, "dw-a--task", "/w/task", "/w/task").unwrap_err();
    assert_eq!(
        error.message(),
        "workspace app root /w/task is already registered in DDEV as `other`; v1 never reuses another identity"
    );
    let error = new_identity_conflict(&entries, &roots, "other", "/elsewhere", "/elsewhere").unwrap_err();
    assert_eq!(
        error.message(),
        "DDEV project name `other` is already registered at /w/link; v1 never adopts it"
    );
    assert!(new_identity_conflict(&entries, &roots, "dw-a--task", "/w/other", "/w/other").is_ok());
}

#[test]
fn an_unignored_workspace_root_is_refused_with_remediation() {
    assert!(workspace_root_ignored("/repo/.worktrees", true).is_ok());
    assert_eq!(
        workspace_root_ignored("/repo/.worktrees", false).unwrap_err().message(),
        "configuration field `workspace_root` must already be ignored by Git: /repo/.worktrees; add a local ignore rule manually"
    );
}

#[test]
fn a_recorder_hands_each_request_to_its_runner() {
    let mut runner = Recorder::new(RecordingRunner::default());
    let request = CommandRequest::new("git", vec!["status".to_owned()]);
    assert!(runner.run(&request).is_ok());
    assert!(runner.run(&request).is_ok());
    assert_eq!(runner.inner().requests.len(), 2);
    assert_eq!(runner.inner().requests[1].args, vec!["status".to_owned()]);
}

fn registered(name: &str, approot: &str, status: &str, mutagen_enabled: bool, mutagen_status: &str) -> DdevProject {
    DdevProject {
        name: name.to_owned(),
        approot: approot.to_owned(),
        status: status.to_owned(),
        mutagen_enabled,
        mutagen_status: mutagen_status.to_owned(),
    }
}

#[test]
fn a_failing_runtime_check_is_source_only_only_for_a_source_only_workspace() {
    let (line, ready) = runtime_failure_status("task", "missing .env", true);
    assert_eq!(line, "task: SOURCE-ONLY — missing .env");
    assert!(ready);
    let (line, ready) = runtime_failure_status("task", "missing .env", false);
    assert_eq!(line, "task: NOT READY — missing .env");
    assert!(!ready);
}

#[test]
fn a_ready_identity_is_the_one_running_registration_at_its_root() {
    let roots = vec!["/tmp/workspace".to_owned()];
    let entries = vec![registered("dw-fixture--task", "/tmp/workspace", "running", true, "ok")];
    let found = ready_identity(&entries, &roots, "dw-fixture--task", "/tmp/workspace", "/tmp/workspace")
        .expect("ready identity");
    assert_eq!(found, entries[0]);

    let disabled = vec![registered("dw-fixture--task", "/tmp/workspace", "running", false, "")];
    assert!(ready_identity(&disabled, &roots, "dw-fixture--task", "/tmp/workspace", "/tmp/workspace").is_ok());

    let stopped = vec![registered("dw-fixture--task", "/tmp/workspace", "stopped", true, "ok")];
    let error = ready_identity(&stopped, &roots, "dw-fixture--task", "/tmp/workspace", "/tmp/workspace").unwrap_err();
    assert!(error.message().contains("is not running"));

    let unhealthy = vec![registered("dw-fixture--task", "/tmp/workspace", "running", true, "paused")];
    let error = ready_identity(&unhealthy, &roots, "dw-fixture--task", "/tmp/workspace", "/tmp/workspace").unwrap_err();
    assert!(error.message().contains("is not healthy"));

    let twice = vec![
        registered("dw-fixture--task", "/tmp/workspace", "running", true, "ok"),
        registered("other", "/tmp/workspace", "running", true, "ok"),
    ];
    let roots2 = vec!["/tmp/workspace".to_owned(), "/tmp/workspace".to_owned()];
    let error = ready_identity(&twice, &roots2, "dw-fixture--task", "/tmp/workspace", "/tmp/workspace").unwrap_err();
    assert!(error.message().contains("is not unique"));

    let elsewhere = vec![registered("dw-fixture--task", "/tmp/other", "running", true, "ok")];
    let roots3 = vec!["/tmp/other".to_owned()];
    let error = ready_identity(&elsewhere, &roots3, "dw-fixture--task", "/tmp/workspace", "/tmp/workspace").unwrap_err();
    assert!(error.message().contains("DDEV identity mismatch"));

    let none: Vec<DdevProject> = Vec::new();
    let error = ready_identity(&none, &Vec::new(), "dw-fixture--task", "/tmp/workspace", "/tmp/workspace").unwrap_err();
    assert!(error.message().contains("is not unique"));
}

#[test]
fn deleting_ddev_data_needs_the_owned_identity() {
    let error = data_deletion_check(true, false).unwrap_err();
    assert_eq!(error.message(), "--delete-ddev-data was requested but the exact owned DDEV identity is absent");
    assert_eq!(error.exit_code(), 1);
    assert!(data_deletion_check(true, true).is_ok());
    assert!(data_deletion_check(false, false).is_ok());
}

#[test]
fn every_error_exits_with_status_one_or_two() {
    assert_eq!(ToolError::new("failed".to_owned()).exit_code(), 1);
    assert_eq!(ToolError::usage("bad flag".to_owned()).exit_code(), 2);
    assert_eq!(ToolError::usage("bad flag".to_owned()).clone().exit_code(), 2);
}

#[test]
fn a_sensitive_process_keeps_no_output() {
    let secret = CommandRequest::new("printf", vec!["token".to_owned()]).sensitive();
    let output = RealCommandRunner::finished(&secret, Some(0), "token".to_owned(), "warning".to_owned());
    assert_eq!(output.status, 0);
    assert_eq!(output.stdout, "");
    assert_eq!(output.stderr, "");
    let plain = CommandRequest::new("printf", vec!["hello".to_owned()]);
    let output = RealCommandRunner::finished(&plain, None, "hello".to_owned(), "".to_owned());
    assert_eq!(output.status, 1);
    assert_eq!(output.stdout, "hello");
}

#[test]
fn the_owned_identity_decides_a_configured_workspace_line() {
    let running = registered("dw-fixture--task", "/tmp/workspace", "Running", false, "");
    let (line, ready) = identity_status("task", "/tmp/workspace", &Ok(Some(running)));
    assert_eq!(line, "task: READY — running at /tmp/workspace");
    assert!(ready);
    let stopped = registered("dw-fixture--task", "/tmp/workspace", "stopped", true, "ok");
    let (line, ready) = identity_status("task", "/tmp/workspace", &Ok(Some(stopped)));
    assert_eq!(line, "task: NOT READY — DDEV identity is stopped or Mutagen is unhealthy");
    assert!(!ready);
    let (line, ready) = identity_status("task", "/tmp/workspace", &Ok(None));
    assert_eq!(line, "task: SOURCE-ONLY — DDEV identity is not registered");
    assert!(ready);
    let (line, ready) = identity_status("task", "/tmp/workspace", &Err(ToolError::new("duplicate".to_owned())));
    assert_eq!(line, "task: NOT READY — duplicate");
    assert!(!ready);
}
