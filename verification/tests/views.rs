use zed_core::search_panel;
use zed_core::search_panel::{
    DockPosition, DockSide, PaneEvent, PaneItem, PanelAction, ProjectSearchMode,
    ProjectSearchPanel,
};
use zed_core::staged_diff;
use zed_core::staged_diff::{
    DeployPlan, MoveOutcome, RefreshReason, Registration, RemovedPath, ShownBuffer, ShownPath,
    StagedDiff,
};
use zed_core::terminal_agent;
use zed_core::terminal_agent::{
    Agent, AgentServerCommand, CommandLookup, HideStrategy, LaunchError, RevealStrategy,
    TerminalAgentView, TerminalAgentViewEvent, TerminalId, TerminalRequest, ThreadId,
};
use zed_core::workflows;
use zed_core::workflows::{
    Arch, BundleRequest, CheckRequests, Checkout, DocsSecrets, Job, Level, NamedJob, NixRequest,
    Permissions, Platform, ReleaseChannel, ReleaseParts, Runner, Step, StepAction, UploadKeys,
};

fn shown(path: &str, is_dirty: bool) -> ShownPath {
    ShownPath { path: path.to_owned(), buffer: Some(ShownBuffer { buffer_id: 1, is_dirty }) }
}

fn agent_view(title: Option<&str>, work_dirs: &[&str]) -> TerminalAgentView {
    TerminalAgentView::new(
        ThreadId(3),
        Agent { id: "codex".to_owned(), label: "Codex".to_owned() },
        "session".to_owned(),
        title.map(|title| title.to_owned()),
        work_dirs.iter().map(|path| (*path).to_owned()).collect(),
    )
}

fn command() -> AgentServerCommand {
    AgentServerCommand {
        path: "/bin/codex".to_owned(),
        args: vec!["resume".to_owned(), "session".to_owned()],
        env: Some(vec![("KEY".to_owned(), "value".to_owned())]),
    }
}

fn blank_job(name: &str, needs: &[&str]) -> NamedJob<Job> {
    NamedJob {
        name: name.to_owned(),
        job: Job {
            needs: needs.iter().map(|need| (*need).to_owned()).collect(),
            condition: None,
            permissions: None,
            runs_on: None,
            timeout_minutes: None,
            outputs: Vec::new(),
            steps: Vec::new(),
        },
    }
}

fn keys() -> UploadKeys {
    UploadKeys { access_key: "access".to_owned(), secret_key: "secret".to_owned() }
}

#[test]
fn files_that_are_no_longer_staged_leave_the_view() {
    let mut diff = StagedDiff::new();
    let files = vec![shown("a", false), shown("b", true), shown("c", false)];
    let listed = vec!["a".to_owned()];
    let paths = |removed: Vec<RemovedPath>| -> Vec<String> {
        removed.into_iter().map(|removed| removed.path).collect()
    };
    assert_eq!(
        paths(diff.start_refresh(&files, Some(&listed), RefreshReason::StatusesChanged)),
        ["b", "c"]
    );
    assert_eq!(
        paths(diff.start_refresh(&files, Some(&listed), RefreshReason::DiffChanged)),
        ["c"]
    );
    assert_eq!(
        paths(diff.start_refresh(&files, None, RefreshReason::DiffChanged)),
        ["a", "c"]
    );
}

#[test]
fn view_scrolls_to_a_file_that_was_asked_for_before() {
    let mut diff = StagedDiff::new();
    assert_eq!(diff.move_to_path("b", Some(4)), MoveOutcome::Select(4));
    assert_eq!(diff.move_to_path("b", None), MoveOutcome::Pending);
    assert_eq!(
        diff.register_buffer("a", 1, true),
        Registration { selects_start: true, scrolls_to_path: false }
    );
    assert_eq!(
        diff.register_buffer("b", 2, false),
        Registration { selects_start: false, scrolls_to_path: true }
    );
    diff.finish_refresh();
    assert_eq!(
        diff.register_buffer("b", 2, false),
        Registration { selects_start: false, scrolls_to_path: false }
    );
}

#[test]
fn files_that_are_being_changed_are_not_replaced() {
    let changed = RefreshReason::DiffChanged;
    assert!(!staged_diff::takes_loaded_buffer(true, changed, true, true, true));
    assert!(staged_diff::takes_loaded_buffer(true, changed, false, true, true));
    assert!(staged_diff::takes_loaded_buffer(true, changed, true, false, true));
    assert!(staged_diff::takes_loaded_buffer(true, changed, true, true, false));
    let listed = RefreshReason::StatusesChanged;
    assert!(staged_diff::takes_loaded_buffer(true, listed, true, true, true));
    assert!(!staged_diff::takes_loaded_buffer(false, listed, false, false, false));
}

#[test]
fn view_is_shown_for_the_active_repository() {
    assert_eq!(
        StagedDiff::deploy_at(Some(1), Some(2), Some(3), Some("a".to_owned())),
        DeployPlan { existing: Some(1), switch_to: Some(2), move_to: Some("a".to_owned()) }
    );
    assert_eq!(
        StagedDiff::deploy_at(None, Some(2), Some(2), None),
        DeployPlan { existing: None, switch_to: None, move_to: None }
    );
}

#[test]
fn empty_view_takes_the_focus_itself() {
    assert!(staged_diff::focuses_itself(true));
    assert!(!staged_diff::focuses_itself(false));
    assert!(staged_diff::handle_editor_event(true, true));
    assert!(!staged_diff::handle_editor_event(true, false));
    assert!(!staged_diff::handle_editor_event(false, true));
    assert_eq!(staged_diff::key_context(true), "EmptyPane");
    assert_eq!(staged_diff::key_context(false), "GitDiff");
    assert_eq!(staged_diff::EMPTY_TEXT, "No staged changes");
}

#[test]
fn panel_always_has_a_search() {
    let mut panel = ProjectSearchPanel::load(true).expect("a panel");
    assert_eq!(panel.items, [PaneItem::Search]);
    assert!(ProjectSearchPanel::load(false).is_none());
    panel.set_active(true);
    assert_eq!(panel.items, [PaneItem::Search]);
    panel.items = vec![PaneItem::Other];
    panel.set_active(false);
    assert_eq!(panel.items, [PaneItem::Other]);
    panel.set_active(true);
    assert_eq!(panel.items, [PaneItem::Other, PaneItem::Search]);
    panel.ensure_view();
    assert_eq!(panel.items.len(), 2);
}

#[test]
fn panel_is_at_a_side() {
    for side in [DockSide::Left, DockSide::Right] {
        let position = ProjectSearchPanel::position(side);
        assert!(ProjectSearchPanel::position_is_valid(position));
        assert_eq!(ProjectSearchPanel::set_position(position), Some(side));
    }
    assert!(!ProjectSearchPanel::position_is_valid(DockPosition::Bottom));
    assert_eq!(ProjectSearchPanel::set_position(DockPosition::Bottom), None);
    assert_eq!(search_panel::ACTIVATION_PRIORITY, 4);
}

#[test]
fn panel_has_an_icon_where_it_is_used() {
    assert!(ProjectSearchPanel::shows_icon(true, ProjectSearchMode::Panel));
    assert!(!ProjectSearchPanel::shows_icon(true, ProjectSearchMode::Elsewhere));
    assert!(!ProjectSearchPanel::shows_icon(false, ProjectSearchMode::Panel));
}

#[test]
fn panel_closes_when_it_loses_the_focus() {
    assert!(ProjectSearchPanel::handle_action(PanelAction::Toggle, false));
    assert!(!ProjectSearchPanel::handle_action(PanelAction::Toggle, true));
    assert!(!ProjectSearchPanel::handle_action(PanelAction::ToggleFocus, false));
    assert!(ProjectSearchPanel::handle_pane_event(PaneEvent::Remove));
    assert!(!ProjectSearchPanel::handle_pane_event(PaneEvent::Other));
}

#[test]
fn agent_runs_in_a_terminal_of_its_own() {
    let view = agent_view(Some("Fix it"), &["/work", "/other"]);
    let spawn =
        view.launch_terminal(true, true, CommandLookup::Found(command())).expect("a program");
    assert_eq!(spawn.id, "agent-terminal:codex:Fix it");
    assert_eq!(spawn.label, "Fix it");
    assert_eq!(spawn.full_label, "Fix it");
    assert_eq!(spawn.command.as_deref(), Some("/bin/codex"));
    assert_eq!(spawn.command_label, "/bin/codex resume session");
    assert_eq!(spawn.args, ["resume", "session"]);
    assert_eq!(spawn.cwd.as_deref(), Some("/work"));
    assert_eq!(spawn.env, vec![("KEY".to_owned(), "value".to_owned())]);
    assert!(spawn.use_new_terminal && spawn.allow_concurrent_runs);
    assert_eq!(spawn.reveal, RevealStrategy::Always);
    assert_eq!(spawn.hide, HideStrategy::Never);
}

#[test]
fn agent_without_folders_or_variables() {
    let mut command = command();
    command.args.clear();
    command.env = None;
    let spawn = terminal_agent::build_spawn_in_terminal("a", "t", &Vec::new(), &command);
    assert_eq!(spawn.command_label, "/bin/codex");
    assert_eq!(spawn.cwd, None);
    assert!(spawn.env.is_empty());
}

#[test]
fn agent_is_not_started_for_a_reason() {
    let view = agent_view(None, &[]);
    let found = || CommandLookup::Found(command());
    assert_eq!(view.launch_terminal(false, false, found()), Err(LaunchError::NoProject));
    assert_eq!(view.launch_terminal(true, false, found()), Err(LaunchError::NoWorkspace));
    assert_eq!(
        view.launch_terminal(true, true, CommandLookup::NotRegistered),
        Err(LaunchError::NotRegistered)
    );
    assert_eq!(
        view.launch_terminal(true, true, CommandLookup::Failed("no login".to_owned())),
        Err(LaunchError::NoCommand("no login".to_owned()))
    );
    assert_eq!(LaunchError::NoProject.message(), "project no longer exists");
    assert_eq!(LaunchError::NoWorkspace.message(), "workspace no longer exists");
    assert_eq!(
        LaunchError::NotRegistered.message(),
        "external agent is not registered for terminal launch"
    );
    assert_eq!(LaunchError::NoTerminal("full".to_owned()).message(), "full");
}

#[test]
fn agent_view_shows_its_terminal_once_it_runs() {
    let mut view = agent_view(None, &[]);
    assert_eq!(view.thread_id(), ThreadId(3));
    assert_eq!(view.agent().id, "codex");
    assert_eq!(view.title(), "Codex");
    assert_eq!(agent_view(Some("Mine"), &[]).title(), "Mine");
    assert_eq!(
        view.launch_new_session(),
        TerminalRequest::NewSession { session_id: "session".to_owned() }
    );
    assert_eq!(
        view.resume_session(),
        TerminalRequest::ResumeSession { session_id: "session".to_owned() }
    );
    assert_eq!(
        view.finish_launch(Err("full".to_owned())),
        Err(LaunchError::NoTerminal("full".to_owned()))
    );
    assert_eq!(view.terminal_view(), None);
    assert_eq!(view.finish_launch(Ok(TerminalId(8))), Ok(TerminalAgentViewEvent::Loaded));
    assert_eq!(view.terminal_view(), Some(TerminalId(8)));
}

#[test]
fn check_tells_whether_there_is_anything_new() {
    let check = workflows::check_for_changes("owner");
    assert_eq!(check.name, "check_for_changes");
    assert_eq!(check.job.condition.as_deref(), Some("owner"));
    assert_eq!(check.job.runs_on, Some(Runner::LinuxSmall));
    assert_eq!(
        check.job.permissions,
        Some(Permissions { actions: Some(Level::Write), contents: None })
    );
    assert_eq!(check.job.outputs[0].name, "bump_nightly");
    assert_eq!(check.job.outputs[0].step_id, "check");
    assert_eq!(check.job.steps.len(), 2);
    assert_eq!(check.job.steps[0].action, StepAction::Checkout(Checkout::WithTags));
    assert_eq!(check.job.steps[1].id.as_deref(), Some("check"));
    assert!(workflows::CHECK_NIGHTLY_TAG.starts_with("if [ \"$GITHUB_EVENT_NAME\" = \"push\" ]"));
    assert!(workflows::CHECK_NIGHTLY_TAG.ends_with("fi\n"));
    assert!(workflows::UPDATE_NIGHTLY_TAG.ends_with("git push origin nightly --force\n"));
    assert!(workflows::UPDATE_NIGHTLY_TAG.contains("\n  exit 0\n"));
}

#[test]
fn guarded_job_waits_for_the_check() {
    let check = workflows::check_for_changes("owner");
    let guarded = workflows::with_changes_guard(blank_job("tests", &["first"]), &check, "owner");
    assert_eq!(guarded.name, "tests");
    assert_eq!(guarded.job.needs, ["first", "check_for_changes"]);
    assert_eq!(
        guarded.job.condition.as_deref(),
        Some("owner && needs.check_for_changes.outputs.bump_nightly == 'true'")
    );
}

#[test]
fn release_jobs_have_an_hour() {
    let first = blank_job("first", &[]);
    let job = workflows::release_job(&vec![&first], "owner");
    assert_eq!(job.needs, ["first"]);
    assert_eq!(job.timeout_minutes, Some(60));
    let style = workflows::check_style("owner");
    assert!(style.job.needs.is_empty());
    assert_eq!(style.job.runs_on, Some(Runner::MacDefault));
    assert_eq!(style.job.steps[1].action, StepAction::CargoFmt);
    assert_eq!(style.job.steps[2].action, StepAction::Script("./script/clippy".to_owned()));
}

#[test]
fn builds_are_published_before_the_tag_moves() {
    let job = workflows::update_nightly_tag_job(blank_job("", &["build"]).job, &keys());
    assert_eq!(job.name, "update_nightly_tag");
    assert_eq!(job.job.needs, ["build"]);
    assert_eq!(job.job.runs_on, Some(Runner::LinuxMedium));
    assert_eq!(job.job.steps.len(), 7);
    let upload: &Step = &job.job.steps[4];
    assert_eq!(upload.action, StepAction::Script("./script/upload-nightly".to_owned()));
    assert_eq!(
        upload.env,
        vec![
            ("DIGITALOCEAN_SPACES_ACCESS_KEY".to_owned(), "access".to_owned()),
            ("DIGITALOCEAN_SPACES_SECRET_KEY".to_owned(), "secret".to_owned()),
        ]
    );
    assert!(job.job.steps[5].zippy_git_identity);
    assert_eq!(job.job.steps[6].action, StepAction::CreateSentryRelease);
}

#[test]
fn tests_and_lints_run_on_windows() {
    assert_eq!(
        workflows::check_requests(),
        CheckRequests {
            tests_on: Platform::Windows,
            clippy_on: Platform::Windows,
            clippy_arch: None,
        }
    );
}

#[test]
fn every_system_is_built_for() {
    let requests = workflows::build_requests("check_style", "tests", "clippy");
    let built: Vec<(Platform, Arch)> =
        requests.bundle.iter().map(|request| (request.platform, request.arch)).collect();
    assert_eq!(
        built,
        [
            (Platform::Linux, Arch::AARCH64),
            (Platform::Linux, Arch::X86_64),
            (Platform::Mac, Arch::AARCH64),
            (Platform::Mac, Arch::X86_64),
            (Platform::Windows, Arch::AARCH64),
            (Platform::Windows, Arch::X86_64),
        ]
    );
    assert_eq!(
        requests.bundle[5],
        BundleRequest {
            platform: Platform::Windows,
            arch: Arch::X86_64,
            channel: Some(ReleaseChannel::Nightly),
            deps: vec!["check_style".to_owned(), "tests".to_owned(), "clippy".to_owned()],
        }
    );
    assert_eq!(
        (requests.nix_linux_x86.platform, requests.nix_linux_x86.arch),
        (Platform::Linux, Arch::X86_64)
    );
    assert_eq!(
        requests.nix_mac_arm,
        NixRequest {
            platform: Platform::Mac,
            arch: Arch::AARCH64,
            package: "default".to_owned(),
            cachix_filter: None,
            deps: vec!["check_style".to_owned(), "tests".to_owned()],
        }
    );
}

#[test]
fn every_build_has_a_job_of_the_release() {
    let requests = workflows::build_requests("check_style", "tests", "clippy");
    let names = ["b0", "b1", "b2", "b3", "b4", "b5"];
    let bundle: Vec<NamedJob<Job>> = requests
        .bundle
        .iter()
        .zip(names)
        .map(|(request, name)| {
            let deps: Vec<&str> = request.deps.iter().map(|dep| dep.as_str()).collect();
            blank_job(name, &deps)
        })
        .collect();
    let workflow = workflows::release_nightly(
        ReleaseParts {
            tests: blank_job("tests", &[]),
            clippy: blank_job("clippy", &[]),
            bundle,
            nix_linux_x86: blank_job("nix_linux", &["check_style", "tests"]),
            nix_mac_arm: blank_job("nix_mac", &["check_style", "tests"]),
            release_base: blank_job("", &names).job,
            notify_on_failure: blank_job("notify", &names),
        },
        "owner",
        &keys(),
    );
    assert_eq!(workflow.jobs.len(), 14);
    assert_eq!(workflow.jobs[4].name, "b0");
    assert_eq!(workflow.jobs[9].name, "b5");
    assert_eq!(workflow.jobs[10].name, "nix_linux");
    assert_eq!(workflow.jobs[11].name, "nix_mac");
}

#[test]
fn jobs_of_the_release_come_after_those_they_need() {
    let looked_at = ["check_style", "tests", "clippy"];
    let workflow = workflows::release_nightly(
        ReleaseParts {
            tests: blank_job("tests", &[]),
            clippy: blank_job("clippy", &[]),
            bundle: vec![blank_job("linux", &looked_at), blank_job("mac", &looked_at)],
            nix_linux_x86: blank_job("nix_linux", &looked_at[..2]),
            nix_mac_arm: blank_job("nix_mac", &looked_at[..2]),
            release_base: blank_job("", &["linux", "mac"]).job,
            notify_on_failure: blank_job("notify", &["linux", "mac"]),
        },
        "owner",
        &keys(),
    );
    let names: Vec<&str> = workflow.jobs.iter().map(|job| job.name.as_str()).collect();
    assert_eq!(
        names,
        [
            "check_for_changes",
            "check_style",
            "tests",
            "clippy",
            "linux",
            "mac",
            "nix_linux",
            "nix_mac",
            "update_nightly_tag",
            "notify",
        ]
    );
    for (at, job) in workflow.jobs.iter().enumerate() {
        for need in &job.job.needs {
            assert!(names[..at].contains(&need.as_str()));
        }
    }
    assert_eq!(workflow.name, "release_nightly");
    assert_eq!(workflow.schedule, ["0 * * * *"]);
    assert_eq!(workflow.push_tags, ["nightly"]);
    let concurrency = workflow.concurrency.expect("a group");
    assert_eq!(concurrency.group, "release-nightly-${{ github.event_name }}");
    assert!(concurrency.cancel_in_progress);
    assert_eq!(workflow.env[0], ("CARGO_TERM_COLOR".to_owned(), "always".to_owned()));
    assert_eq!(workflow.env[1], ("RUST_BACKTRACE".to_owned(), "1".to_owned()));
}

#[test]
fn documentation_is_deployed_from_its_branch() {
    let workflow = workflows::deploy_docs_nightly_pr(DocsSecrets {
        amplitude_api_key: "one".to_owned(),
        cloudflare_api_token: "two".to_owned(),
        cloudflare_account_id: "three".to_owned(),
    });
    assert_eq!(workflow.push_branches, ["staged-docs-releases"]);
    assert_eq!(workflow.jobs.len(), 1);
    let job = &workflow.jobs[0];
    assert_eq!(job.name, "deploy_docs");
    assert_eq!(job.job.uses, ".github/workflows/deploy_docs.yml");
    assert_eq!(job.job.condition.as_deref(), Some("github.repository_owner == 'zed-industries'"));
    assert_eq!(
        job.job.permissions,
        Some(Permissions { actions: None, contents: Some(Level::Read) })
    );
    assert_eq!(job.job.with[1], ("checkout_ref".to_owned(), "${{ github.sha }}".to_owned()));
    assert_eq!(job.job.secrets[2], ("CLOUDFLARE_ACCOUNT_ID".to_owned(), "three".to_owned()));
}
