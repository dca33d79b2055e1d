use std::collections::BTreeMap;

use ddev_workspaces::command::{CommandOutput, CommandRequest, CommandRunner, Recorder, ToolError, ToolResult};
use ddev_workspaces::config::{source_from_environment, CheckRule, CommandRule, FileRule, ProjectConfig};
use ddev_workspaces::ddev::{inspect_new_identity, DdevInspection, DdevRegistry, Registry};
use ddev_workspaces::paths::{
    DirError, EntryKind, FileSystem, Files, FsError, WriteError,
};
use ddev_workspaces::state::OwnershipRecord;
use ddev_workspaces::workspace::{
    create, doctor, find_owned_ddev, list, remove, run_declared_commands, runtime_precondition_failure, Host,
    PlannedFile,
};

#[derive(Clone, Debug, PartialEq)]
enum Node {
    Dir,
    File(String),
    Link(String),
}

/// An in-memory Unix file system: absolute paths, directories, files and
/// symlinks, plus an environment.
#[derive(Default)]
struct MemFs {
    nodes: BTreeMap<String, Node>,
    env: BTreeMap<String, String>,
    cwd: String,
}

fn components(path: &str) -> Vec<&str> {
    path.split('/').filter(|c| !c.is_empty() && *c != ".").collect()
}

fn child(parent: &str, name: &str) -> String {
    if parent == "/" {
        format!("/{name}")
    } else {
        format!("{parent}/{name}")
    }
}

fn parent_and_name(path: &str) -> Option<(String, String)> {
    let parts = components(path);
    let (last, rest) = parts.split_last()?;
    Some((format!("/{}", rest.join("/")), (*last).to_owned()))
}

impl MemFs {
    fn mkdir_p(&mut self, path: &str) {
        let mut current = "/".to_owned();
        for part in components(path) {
            current = child(&current, part);
            self.nodes.entry(current.clone()).or_insert(Node::Dir);
        }
    }

    fn write(&mut self, path: &str, contents: &str) {
        let (parent, _) = parent_and_name(path).expect("file path");
        self.mkdir_p(&parent);
        self.nodes.insert(path.to_owned(), Node::File(contents.to_owned()));
    }

    fn symlink(&mut self, path: &str, target: &str) {
        let (parent, _) = parent_and_name(path).expect("link path");
        self.mkdir_p(&parent);
        self.nodes.insert(path.to_owned(), Node::Link(target.to_owned()));
    }

    fn holds(&self, path: &str) -> bool {
        self.nodes.contains_key(path)
    }

    fn contents(&self, path: &str) -> Option<String> {
        match self.nodes.get(path) {
            Some(Node::File(c)) => Some(c.clone()),
            _ => None,
        }
    }

    fn resolve(&self, path: &str, depth: usize) -> Result<String, String> {
        if depth > 16 {
            return Err("Too many levels of symbolic links (os error 40)".to_owned());
        }
        if !path.starts_with('/') {
            let absolute = child(if self.cwd.is_empty() { "/" } else { &self.cwd }, path);
            return self.resolve(&absolute, depth + 1);
        }
        let mut current = "/".to_owned();
        for part in path.split('/').filter(|c| !c.is_empty() && *c != ".") {
            if part == ".." {
                current = parent_and_name(&current).map(|(p, _)| p).unwrap_or_else(|| "/".to_owned());
                continue;
            }
            let candidate = child(&current, part);
            match self.nodes.get(&candidate) {
                Some(Node::Link(target)) => {
                    let target = if target.starts_with('/') {
                        target.clone()
                    } else {
                        child(&current, target)
                    };
                    current = self.resolve(&target, depth + 1)?;
                }
                Some(_) => current = candidate,
                None => return Err("No such file or directory (os error 2)".to_owned()),
            }
        }
        Ok(current)
    }

    /// The entry at `path` without following a final symlink.
    fn entry(&self, path: &str) -> Result<(String, Node), String> {
        match parent_and_name(path) {
            None => Ok(("/".to_owned(), Node::Dir)),
            Some((parent, name)) => {
                if name == ".." {
                    let resolved = self.resolve(path, 0)?;
                    return Ok((resolved.clone(), self.nodes.get(&resolved).cloned().unwrap_or(Node::Dir)));
                }
                let parent = self.resolve(&parent, 0)?;
                let full = child(&parent, &name);
                match self.nodes.get(&full) {
                    Some(node) => Ok((full, node.clone())),
                    None => Err("No such file or directory (os error 2)".to_owned()),
                }
            }
        }
    }
}

impl FileSystem for MemFs {
    fn canonicalize(&mut self, path: &str) -> Result<String, String> {
        self.resolve(path, 0)
    }

    fn entry_kind(&mut self, path: &str) -> Result<EntryKind, FsError> {
        match self.entry(path) {
            Ok((_, Node::Dir)) => Ok(EntryKind::Directory),
            Ok((_, Node::File(_))) => Ok(EntryKind::File),
            Ok((_, Node::Link(_))) => Ok(EntryKind::Symlink),
            Err(message) => Err(FsError {
                not_found: true,
                message,
            }),
        }
    }

    fn path_exists(&mut self, path: &str) -> bool {
        self.resolve(path, 0).is_ok()
    }

    fn is_dir(&mut self, path: &str) -> bool {
        match self.resolve(path, 0) {
            Ok(p) => p == "/" || self.nodes.get(&p) == Some(&Node::Dir),
            Err(_) => false,
        }
    }

    fn read_to_string(&mut self, path: &str) -> Result<String, String> {
        let resolved = self.resolve(path, 0)?;
        match self.nodes.get(&resolved) {
            Some(Node::File(c)) => Ok(c.clone()),
            _ => Err("Is a directory (os error 21)".to_owned()),
        }
    }

    fn env_var(&mut self, name: &str) -> Option<String> {
        self.env.get(name).cloned()
    }

    fn read_prefix(&mut self, path: &str, len: usize) -> Option<Vec<u8>> {
        let contents = self.read_to_string(path).ok()?;
        Some(contents.as_bytes().iter().take(len).copied().collect())
    }

    fn create_file(&mut self, path: &str, contents: &str) -> Result<(), WriteError> {
        let (parent, name) = parent_and_name(path).ok_or_else(|| WriteError::Create("no file name".to_owned()))?;
        let parent = self.resolve(&parent, 0).map_err(WriteError::Create)?;
        if !(parent == "/" || self.nodes.get(&parent) == Some(&Node::Dir)) {
            return Err(WriteError::Create("Not a directory (os error 20)".to_owned()));
        }
        let full = child(&parent, &name);
        if self.nodes.contains_key(&full) {
            return Err(WriteError::Exists("File exists (os error 17)".to_owned()));
        }
        self.nodes.insert(full, Node::File(contents.to_owned()));
        Ok(())
    }

    fn create_dir(&mut self, path: &str) -> Result<(), DirError> {
        let (parent, name) = parent_and_name(path).ok_or_else(|| DirError::AlreadyExists("File exists (os error 17)".to_owned()))?;
        let parent = self.resolve(&parent, 0).map_err(DirError::Failed)?;
        let full = child(&parent, &name);
        if self.nodes.contains_key(&full) {
            return Err(DirError::AlreadyExists("File exists (os error 17)".to_owned()));
        }
        self.nodes.insert(full, Node::Dir);
        Ok(())
    }

    fn create_private_dir(&mut self, path: &str) -> Result<(), DirError> {
        self.create_dir(path)
    }

    fn remove_file(&mut self, path: &str) -> Result<(), String> {
        match self.entry(path)? {
            (full, Node::File(_)) | (full, Node::Link(_)) => {
                self.nodes.remove(&full);
                Ok(())
            }
            _ => Err("Is a directory (os error 21)".to_owned()),
        }
    }

    fn remove_dir_all(&mut self, path: &str) -> Result<(), String> {
        let (full, _) = self.entry(path)?;
        let prefix = format!("{full}/");
        self.nodes.retain(|key, _| key != &full && !key.starts_with(&prefix));
        Ok(())
    }

    fn read_dir(&mut self, path: &str) -> Result<Vec<String>, String> {
        let resolved = self.resolve(path, 0)?;
        let prefix = if resolved == "/" { "/".to_owned() } else { format!("{resolved}/") };
        Ok(self
            .nodes
            .keys()
            .filter_map(|key| key.strip_prefix(&prefix))
            .filter(|rest| !rest.is_empty() && !rest.contains('/'))
            .map(str::to_owned)
            .collect())
    }
}


const SHA: &str = "0123456789012345678901234567890123456789";

/// Answers the Git commands of a clean repository at `/repo` whose only
/// linked worktree is `/repo/.worktrees/task` on branch `task`.
struct FakeGit {
    requests: Vec<CommandRequest>,
    dirty: bool,
    worktree_listed: bool,
    index_flags: String,
}

impl FakeGit {
    fn new() -> Self {
        FakeGit {
            requests: Vec::new(),
            dirty: false,
            worktree_listed: true,
            index_flags: String::new(),
        }
    }

    fn mutating_requests(&self) -> Vec<String> {
        self.requests
            .iter()
            .filter(|request| request.mutating)
            .map(|request| request.args.join(" "))
            .collect()
    }
}

fn reply(status: i32, stdout: &str) -> ToolResult<CommandOutput> {
    Ok(CommandOutput {
        status,
        stdout: stdout.to_owned(),
        stderr: String::new(),
    })
}

impl CommandRunner for FakeGit {
    fn run(&mut self, request: &CommandRequest) -> ToolResult<CommandOutput> {
        self.requests.push(request.clone());
        let args = request.args.join(" ");
        if args == "rev-parse --show-toplevel" {
            return reply(0, "/repo\n");
        }
        if args == "rev-parse --git-common-dir" {
            return reply(0, ".git\n");
        }
        if args.contains("check-ignore") {
            return reply(0, "");
        }
        if args == "worktree list --porcelain -z" {
            let mut listing = format!("worktree /repo\0HEAD {SHA}\0branch refs/heads/main\0\0");
            if self.worktree_listed {
                listing.push_str(&format!("worktree /repo/.worktrees/task\0HEAD {SHA}\0branch refs/heads/task\0\0"));
            }
            return reply(0, &listing);
        }
        if args.starts_with("rev-parse --verify --quiet --end-of-options") {
            return reply(0, &format!("{SHA}\n"));
        }
        if args.starts_with("show-ref --verify --quiet") {
            return reply(1, "");
        }
        if args == "status --porcelain --untracked-files=normal" {
            return reply(0, if self.dirty { " M tracked.txt\n" } else { "" });
        }
        if args == "submodule status --recursive" {
            return reply(0, "");
        }
        if args.starts_with("worktree remove") {
            return reply(0, "");
        }
        if args == "ls-files -v -z" {
            let flags = self.index_flags.clone();
            return reply(0, &flags);
        }
        if args == "ls-files --stage -z" {
            return reply(0, "");
        }
        if args == "rev-parse HEAD" {
            return reply(0, &format!("{SHA}\n"));
        }
        if args == "diff-index --quiet HEAD --" || args == "diff-files --quiet --" {
            return reply(0, "");
        }
        if args == "symbolic-ref --quiet --short HEAD" {
            return reply(0, "main\n");
        }
        reply(1, "")
    }
}

/// Records the report and reads records in a line-per-field form.
struct TestHost {
    lines: Vec<String>,
    config: ProjectConfig,
}

impl TestHost {
    fn new() -> Self {
        TestHost {
            lines: Vec::new(),
            config: ProjectConfig {
                version: 1,
                project_id: "fixture".to_owned(),
                workspace_root: ".worktrees".to_owned(),
                ddev: None,
                files: Vec::new(),
                commands: Vec::new(),
                checks: Vec::new(),
            },
        }
    }

    fn said(&self, line: &str) -> bool {
        self.lines.iter().any(|l| l == line)
    }
}

impl Host for TestHost {
    fn say(&mut self, line: &str) {
        self.lines.push(line.to_owned());
    }

    fn interactive(&mut self) -> bool {
        false
    }

    fn ask(&mut self, _prompt: &str) -> Result<String, String> {
        Err("no terminal".to_owned())
    }

    fn parse_config(&self, _text: &str) -> Result<ProjectConfig, String> {
        Ok(self.config.clone())
    }

    fn parse_record(&self, text: &str) -> Result<OwnershipRecord, String> {
        let fields: Vec<&str> = text.lines().collect();
        if fields.len() != 8 {
            return Err(format!("expected 8 fields, found {}", fields.len()));
        }
        Ok(OwnershipRecord {
            version: fields[0].parse().map_err(|_| "invalid version".to_owned())?,
            project_id: fields[1].to_owned(),
            common_directory: fields[2].to_owned(),
            worktree_path: fields[3].to_owned(),
            base_sha: fields[4].to_owned(),
            branch: fields[5].to_owned(),
            ddev_name: fields[6].to_owned(),
            source_only: fields[7] == "true",
            ddev_app_root: None,
        })
    }

    fn serialize_record(&self, record: &OwnershipRecord) -> Result<String, String> {
        Ok(format!(
            "{}\n{}\n{}\n{}\n{}\n{}\n{}\n{}\n",
            record.version,
            record.project_id,
            record.common_directory,
            record.worktree_path,
            record.base_sha,
            record.branch,
            record.ddev_name,
            record.source_only
        ))
    }

    fn copy_planned_file(&mut self, _file: &PlannedFile) -> ToolResult<()> {
        Ok(())
    }
}

struct NoDdev;

impl DdevRegistry for NoDdev {
    fn inspect<R: CommandRunner>(&mut self, _runner: &mut R, _cwd: &str) -> ToolResult<DdevInspection> {
        Err(ToolError::new("DDEV is not configured".to_owned()))
    }
}

const RECORD_PATH: &str = "/repo/.git/ddev-workspaces/workspaces/task.toml";

/// A repository at `/repo` (the working directory) with its configuration
/// and an ignored workspace root, and, when `with_workspace`, the managed
/// workspace `task` and its record.
fn repository(with_workspace: bool) -> MemFs {
    let mut fs = MemFs::default();
    fs.cwd = "/repo".to_owned();
    fs.mkdir_p("/repo/.git");
    fs.mkdir_p("/repo/.worktrees");
    fs.write("/repo/.ddev-workspaces.toml", "version = 1\n");
    if with_workspace {
        fs.mkdir_p("/repo/.worktrees/task");
        fs.write(
            RECORD_PATH,
            &format!("1\nfixture\n/repo/.git\n/repo/.worktrees/task\n{SHA}\ntask\ndw-fixture--task\nfalse\n"),
        );
    }
    fs
}

#[test]
fn list_reports_no_managed_workspaces_in_a_fresh_repository() {
    let mut fs = Files::new(repository(false));
    let mut git = Recorder::new(FakeGit::new());
    let mut host = TestHost::new();

    let code = list(".", &mut git, &mut fs, &mut Registry::new(NoDdev), &mut host).expect("listing");

    assert_eq!(code, 0);
    assert!(host.said("No managed workspaces for /repo"));
    assert!(host.said("READY — list complete"));
    assert!(git.inner_mut().mutating_requests().is_empty());
}

#[test]
fn create_dry_run_plans_without_reserving_or_mutating() {
    let mut fs = Files::new(repository(false));
    let mut git = Recorder::new(FakeGit::new());
    git.inner_mut().worktree_listed = false;
    let mut host = TestHost::new();

    let code = create("task", Some("HEAD"), false, true, &mut git, &mut fs, &mut Registry::new(NoDdev), &mut host)
        .expect("dry run");

    assert_eq!(code, 0);
    assert!(host.said("Workspace: /repo/.worktrees/task"));
    assert!(host.said(&format!("Base: HEAD @ {SHA}")));
    assert!(host.said(&format!("Planned: git worktree add -b task /repo/.worktrees/task {SHA}")));
    assert!(host.said("DDEV: skipped (not configured)"));
    assert!(host.said(
        "READY — dry run complete; no reservation, branch, path, file, or DDEV mutation performed"
    ));
    assert!(git.inner_mut().mutating_requests().is_empty());
    assert!(!fs.inner_mut().holds(RECORD_PATH));
}

#[test]
fn create_refuses_an_invalid_workspace_name_before_touching_anything() {
    let mut fs = Files::new(repository(false));
    let mut git = Recorder::new(FakeGit::new());
    let mut host = TestHost::new();

    let error = create("Bad--Name", None, false, false, &mut git, &mut fs, &mut Registry::new(NoDdev), &mut host).unwrap_err();

    assert!(error.message().starts_with("workspace name `Bad--Name` must match"));
    assert!(git.inner_mut().requests.is_empty());
}

#[test]
fn remove_dry_run_lists_owned_targets_without_mutation() {
    let mut fs = Files::new(repository(true));
    let mut git = Recorder::new(FakeGit::new());
    let mut host = TestHost::new();

    let code = remove("task", true, false, None, None, &mut git, &mut fs, &mut Registry::new(NoDdev), &mut host)
        .expect("preflight");

    assert_eq!(code, 0);
    assert!(host.said("Will remove managed worktree /repo/.worktrees/task."));
    assert!(host.said("Will retain branch task."));
    assert!(host.said("DRY RUN — no DDEV, Git, file, or ownership mutation performed"));
    assert!(git.inner_mut().mutating_requests().is_empty());
    assert!(fs.inner_mut().holds(RECORD_PATH));
}

#[test]
fn remove_with_matching_confirmation_removes_the_worktree_then_the_record() {
    let mut fs = Files::new(repository(true));
    let mut git = Recorder::new(FakeGit::new());
    let mut host = TestHost::new();

    let code = remove("task", false, false, Some("task"), None, &mut git, &mut fs, &mut Registry::new(NoDdev), &mut host)
        .expect("removal");

    assert_eq!(code, 0);
    assert_eq!(git.inner_mut().mutating_requests(), ["worktree remove /repo/.worktrees/task"]);
    assert!(!fs.inner_mut().holds(RECORD_PATH));
    assert!(host.said("READY — managed workspace removed; branch retained"));
}

#[test]
fn remove_refuses_a_mismatched_confirmation_before_any_mutation() {
    let mut fs = Files::new(repository(true));
    let mut git = Recorder::new(FakeGit::new());
    let mut host = TestHost::new();

    let error = remove("task", false, false, Some("other"), None, &mut git, &mut fs, &mut Registry::new(NoDdev), &mut host)
        .unwrap_err();

    assert_eq!(
        error.message(),
        "removal confirmation did not exactly match workspace name `task`; no mutation was attempted"
    );
    assert!(git.inner_mut().mutating_requests().is_empty());
    assert!(fs.inner_mut().holds(RECORD_PATH));
}

#[test]
fn remove_refuses_a_dirty_worktree() {
    let mut fs = Files::new(repository(true));
    let mut git = Recorder::new(FakeGit::new());
    git.inner_mut().dirty = true;
    let mut host = TestHost::new();

    let error = remove("task", false, false, Some("task"), None, &mut git, &mut fs, &mut Registry::new(NoDdev), &mut host)
        .unwrap_err();

    assert_eq!(
        error.message(),
        "worktree /repo/.worktrees/task is dirty or has untracked files; commit or remove them manually"
    );
    assert!(git.inner_mut().mutating_requests().is_empty());
}

#[test]
fn remove_refuses_a_worktree_git_does_not_list() {
    let mut fs = Files::new(repository(true));
    let mut git = Recorder::new(FakeGit::new());
    git.inner_mut().worktree_listed = false;
    let mut host = TestHost::new();

    let error = remove("task", true, false, None, None, &mut git, &mut fs, &mut Registry::new(NoDdev), &mut host).unwrap_err();

    assert_eq!(
        error.message(),
        "Git does not currently prove the owned worktree path; refusing removal"
    );
}

#[test]
fn data_deletion_without_an_owned_ddev_identity_is_refused() {
    let mut fs = Files::new(repository(true));
    let mut git = Recorder::new(FakeGit::new());
    let mut host = TestHost::new();

    let error = remove("task", false, true, Some("task"), Some("task"), &mut git, &mut fs, &mut Registry::new(NoDdev), &mut host)
        .unwrap_err();

    assert_eq!(
        error.message(),
        "--delete-ddev-data was requested but the exact owned DDEV identity is absent"
    );
    assert!(git.inner_mut().mutating_requests().is_empty());
}

#[test]
fn doctor_reports_a_clean_configured_repository_ready() {
    let mut fs = Files::new(repository(false));
    let mut git = Recorder::new(FakeGit::new());
    let mut host = TestHost::new();

    let code = doctor(None, &mut git, &mut fs, &mut Registry::new(NoDdev), &mut host).expect("diagnosis");

    assert_eq!(code, 0, "{:?}", host.lines);
    assert!(host.said("Repository: /repo"));
    assert!(host.said("Source: READY"));
    assert!(host.said("Configuration: READY"));
    assert!(host.said("DDEV: skipped (not configured)"));
    assert!(host.said("READY"));
    assert!(git.inner_mut().mutating_requests().is_empty());
}

#[test]
fn doctor_reports_hidden_index_flags_not_ready() {
    let mut fs = Files::new(repository(false));
    let mut git = Recorder::new(FakeGit::new());
    git.inner_mut().index_flags = "H normal.txt\0S hidden.txt\0".to_owned();
    let mut host = TestHost::new();

    let code = doctor(Some("/repo"), &mut git, &mut fs, &mut Registry::new(NoDdev), &mut host).expect("diagnosis");

    assert_eq!(code, 1);
    assert!(host.said("Source: NOT READY"));
    assert!(host.lines.iter().any(|line| line.starts_with("- ") && line.contains("hidden.txt")));
    assert!(host.said(
        "NOT READY — restore the reported repository or configuration state, then rerun doctor"
    ));
}

fn bare_config() -> ProjectConfig {
    ProjectConfig {
        version: 1,
        project_id: "fixture".to_owned(),
        workspace_root: ".worktrees".to_owned(),
        ddev: None,
        files: Vec::new(),
        commands: Vec::new(),
        checks: Vec::new(),
    }
}

#[test]
fn runtime_precondition_failure_names_an_escaping_file_destination() {
    let mut fs = Files::new(repository(true));
    let mut config = bare_config();
    config.files.push(FileRule {
        label: "env".to_owned(),
        destination: "../outside.env".to_owned(),
        template: Some(".env.example".to_owned()),
        source_env: None,
    });
    config.checks.push(CheckRule {
        label: "env".to_owned(),
        kind: "path-exists".to_owned(),
        path: ".env".to_owned(),
        key: None,
    });
    let failure = runtime_precondition_failure(&mut fs, &config, "/repo/.worktrees/task");
    assert_eq!(
        failure,
        Some("configuration field `path` escapes its repository/workspace root".to_owned())
    );
}

#[test]
fn runtime_precondition_failure_is_none_without_rules() {
    let mut fs = Files::new(repository(true));
    assert_eq!(runtime_precondition_failure(&mut fs, &bare_config(), "/repo/.worktrees/task"), None);
}

#[test]
fn declared_commands_refuse_an_absolute_cwd_before_running() {
    let mut fs = Files::new(repository(true));
    let mut git = Recorder::new(FakeGit::new());
    let mut config = bare_config();
    config.commands.push(CommandRule {
        label: "install".to_owned(),
        cwd: "/tmp".to_owned(),
        argv: vec!["composer".to_owned(), "install".to_owned()],
        sensitive: false,
    });
    let error = run_declared_commands(&mut fs, &mut git, &config, "/repo/.worktrees/task").unwrap_err();
    assert_eq!(error.message(), "configuration field `path` must be a non-empty relative path");
    assert!(git.inner_mut().requests.is_empty());
}

#[test]
fn an_unset_file_source_variable_is_named() {
    let mut fs = Files::new(repository(false));
    let error = source_from_environment(&mut fs, "APP_ENV_FILE").unwrap_err();
    assert_eq!(
        error.message(),
        "environment variable `APP_ENV_FILE` is not set for the named file source; set it manually"
    );
}

#[test]
fn an_empty_registry_holds_no_owned_or_conflicting_identity() {
    let mut fs = Files::new(repository(true));
    let empty = DdevInspection { entries: Vec::new(), warnings: Vec::new() };
    let owned = find_owned_ddev(&mut fs, &empty.entries, "dw-fixture--task", "/repo/.worktrees/task").unwrap();
    assert!(owned.is_none());
    assert!(inspect_new_identity(&empty, "dw-fixture--task", "/repo/.worktrees/task", &mut fs).is_ok());
}

#[test]
fn remove_dry_run_refuses_data_deletion_without_an_owned_identity() {
    let mut fs = Files::new(repository(true));
    let mut git = Recorder::new(FakeGit::new());
    let mut host = TestHost::new();

    let error = remove("task", true, true, None, None, &mut git, &mut fs, &mut Registry::new(NoDdev), &mut host).unwrap_err();

    assert_eq!(
        error.message(),
        "--delete-ddev-data was requested but the exact owned DDEV identity is absent"
    );
    assert!(!host.said("READY — removal preflight complete"));
    assert!(git.inner_mut().mutating_requests().is_empty());
    assert!(fs.inner_mut().holds(RECORD_PATH));
}

#[test]
fn list_keeps_a_full_workspace_with_a_failing_check_not_ready() {
    let mut fs = Files::new(repository(true));
    let mut git = Recorder::new(FakeGit::new());
    let mut host = TestHost::new();
    host.config.checks.push(CheckRule {
        label: "required artifact".to_owned(),
        kind: "path-exists".to_owned(),
        path: "missing-artifact".to_owned(),
        key: None,
    });

    let code = list(".", &mut git, &mut fs, &mut Registry::new(NoDdev), &mut host).expect("listing");

    assert_eq!(code, 1, "{:?}", host.lines);
    assert!(host.lines.iter().any(|line| line.starts_with("task: NOT READY")), "{:?}", host.lines);
    assert!(!host.lines.iter().any(|line| line.starts_with("task: SOURCE-ONLY")), "{:?}", host.lines);
}
