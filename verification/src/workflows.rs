//! The nightly release and the deployment of the documentation, as workflows that a build service
//! runs.

use crate::text;
use vstd::prelude::*;

verus! {

/// The branch whose pushes deploy the documentation.
pub const BRANCH_NAME: &'static str = "staged-docs-releases";

/// Finds out whether there is anything new to release.
pub const CHECK_NIGHTLY_TAG: &'static str = r#"if [ "$GITHUB_EVENT_NAME" = "push" ]; then
    # Push events always take precedence; cancel any in-progress scheduled runs
    gh run list \
        --workflow release_nightly.yml \
        --status in_progress \
        --event schedule \
        --json databaseId \
        -q '.[].databaseId' | while read -r run_id; do
        echo "Cancelling in-progress scheduled run $run_id"
        gh run cancel "$run_id" || true
    done
    echo "Push event, proceeding with nightly release"
    echo "bump_nightly=true" >> "$GITHUB_OUTPUT"
    exit 0
fi

# For scheduled events: check if a push-triggered run is already in progress
if gh run list \
    --workflow release_nightly.yml \
    --status in_progress \
    --event push \
    --json databaseId \
    -q '.[].databaseId' | grep -q .; then
    echo "A push-triggered nightly release is in progress, skipping scheduled run"
    echo "bump_nightly=false" >> "$GITHUB_OUTPUT"
    exit 0
fi

if ! NIGHTLY_SHA=$(git rev-parse nightly 2>/dev/null); then
    echo "No nightly tag found, changes detected"
    echo "bump_nightly=true" >> "$GITHUB_OUTPUT"
    exit 0
fi

HEAD_SHA=$(git rev-parse HEAD)
if [ "$NIGHTLY_SHA" = "$HEAD_SHA" ]; then
    echo "nightly tag already points to HEAD ($HEAD_SHA), no new nightly needed"
    echo "bump_nightly=false" >> "$GITHUB_OUTPUT"
else
    echo "Changes detected: nightly=$NIGHTLY_SHA HEAD=$HEAD_SHA"
    echo "bump_nightly=true" >> "$GITHUB_OUTPUT"
fi
"#;

/// Moves the nightly tag to the commit that was released.
pub const UPDATE_NIGHTLY_TAG: &'static str = r#"if [ "$(git rev-parse nightly)" = "$(git rev-parse HEAD)" ]; then
  echo "Nightly tag already points to current commit. Skipping tagging."
  exit 0
fi
git tag -f nightly
git push origin nightly --force
"#;

/// What a job may do with a part of the project.
#[derive(Clone, Copy, Debug, PartialEq, Eq, Structural)]
pub enum Level {
    Read,
    Write,
}

/// What a job may do with the project. What is not listed is left as it is.
#[derive(Clone, Copy, Debug, PartialEq, Eq, Structural)]
pub struct Permissions {
    pub actions: Option<Level>,
    pub contents: Option<Level>,
}

/// The machine that a job runs on.
#[derive(Clone, Copy, Debug, PartialEq, Eq, Structural)]
pub enum Runner {
    LinuxSmall,
    LinuxMedium,
    MacDefault,
    /// A machine that is described elsewhere, by its number there.
    Other(u64),
}

/// How much of the project a step checks out.
#[derive(Clone, Copy, Debug, PartialEq, Eq, Structural)]
pub enum Checkout {
    WithTags,
    FullHistory,
}

/// What a step does.
#[derive(Debug, PartialEq, Eq)]
pub enum StepAction {
    Checkout(Checkout),
    CargoFmt,
    /// Runs a script of the project.
    Script(String),
    /// Runs the text as a shell script.
    Bash(String),
    DownloadWorkflowArtifacts,
    PrepReleaseArtifacts,
    CreateSentryRelease,
    /// A step that is described elsewhere, by its number there.
    Other(u64),
}

/// A step of a job.
#[derive(Debug, PartialEq, Eq)]
pub struct Step {
    pub action: StepAction,
    pub id: Option<String>,
    pub env: Vec<(String, String)>,
    /// Whether the step commits in the name of the release bot.
    pub zippy_git_identity: bool,
}

/// A value that a step leaves for other jobs.
#[derive(Debug, PartialEq, Eq)]
pub struct JobOutput {
    /// What the other jobs call it.
    pub name: String,
    pub step_id: String,
    /// What the step calls it.
    pub step_output: String,
}

/// A job of a workflow.
#[derive(Debug, PartialEq, Eq)]
pub struct Job {
    /// The jobs that must have ended well before.
    pub needs: Vec<String>,
    pub condition: Option<String>,
    pub permissions: Option<Permissions>,
    pub runs_on: Option<Runner>,
    pub timeout_minutes: Option<u32>,
    pub outputs: Vec<JobOutput>,
    pub steps: Vec<Step>,
}

/// A job that is another workflow.
#[derive(Debug, PartialEq, Eq)]
pub struct UsesJob {
    pub condition: Option<String>,
    pub permissions: Option<Permissions>,
    pub uses: String,
    pub with: Vec<(String, String)>,
    pub secrets: Vec<(String, String)>,
}

/// A job and what it is called.
#[derive(Debug, PartialEq, Eq)]
pub struct NamedJob<J> {
    pub name: String,
    pub job: J,
}

/// How runs of a workflow get along.
#[derive(Debug, PartialEq, Eq)]
pub struct Concurrency {
    /// Only one run of a group goes on at a time.
    pub group: String,
    pub cancel_in_progress: bool,
}

/// A workflow.
#[derive(Debug, PartialEq, Eq)]
pub struct Workflow<J> {
    pub name: String,
    /// When it runs by itself.
    pub schedule: Vec<String>,
    /// The tags whose pushes start it.
    pub push_tags: Vec<String>,
    /// The branches whose pushes start it.
    pub push_branches: Vec<String>,
    pub concurrency: Option<Concurrency>,
    pub env: Vec<(String, String)>,
    pub jobs: Vec<NamedJob<J>>,
}

/// What a [`StepAction`] says.
#[verifier::ext_equal]
pub enum ActionView {
    Checkout(Checkout),
    CargoFmt,
    Script(Seq<char>),
    Bash(Seq<char>),
    DownloadWorkflowArtifacts,
    PrepReleaseArtifacts,
    CreateSentryRelease,
    Other(u64),
}

/// What a [`Step`] says.
#[verifier::ext_equal]
pub struct StepView {
    pub action: ActionView,
    pub id: Option<Seq<char>>,
    pub env: Seq<(Seq<char>, Seq<char>)>,
    pub zippy_git_identity: bool,
}

/// What a [`JobOutput`] says.
#[verifier::ext_equal]
pub struct OutputView {
    pub name: Seq<char>,
    pub step_id: Seq<char>,
    pub step_output: Seq<char>,
}

/// What a [`Job`] says.
#[verifier::ext_equal]
pub struct JobView {
    pub needs: Seq<Seq<char>>,
    pub condition: Option<Seq<char>>,
    pub permissions: Option<Permissions>,
    pub runs_on: Option<Runner>,
    pub timeout_minutes: Option<u32>,
    pub outputs: Seq<OutputView>,
    pub steps: Seq<StepView>,
}

/// What a [`NamedJob`] says.
#[verifier::ext_equal]
pub struct NamedJobView {
    pub name: Seq<char>,
    pub job: JobView,
}

impl StepAction {
    /// What the action says.
    pub open spec fn view(&self) -> ActionView {
        match *self {
            StepAction::Checkout(checkout) => ActionView::Checkout(checkout),
            StepAction::CargoFmt => ActionView::CargoFmt,
            StepAction::Script(command) => ActionView::Script(command@),
            StepAction::Bash(script) => ActionView::Bash(script@),
            StepAction::DownloadWorkflowArtifacts => ActionView::DownloadWorkflowArtifacts,
            StepAction::PrepReleaseArtifacts => ActionView::PrepReleaseArtifacts,
            StepAction::CreateSentryRelease => ActionView::CreateSentryRelease,
            StepAction::Other(number) => ActionView::Other(number),
        }
    }
}

impl Step {
    /// What the step says.
    pub open spec fn view(&self) -> StepView {
        StepView {
            action: self.action@,
            id: text::said(self.id),
            env: text::text_pairs(self.env@),
            zippy_git_identity: self.zippy_git_identity,
        }
    }
}

impl JobOutput {
    /// What the output says.
    pub open spec fn view(&self) -> OutputView {
        OutputView {
            name: self.name@,
            step_id: self.step_id@,
            step_output: self.step_output@,
        }
    }
}

impl Job {
    /// What the job says.
    pub open spec fn view(&self) -> JobView {
        JobView {
            needs: text::texts(self.needs@),
            condition: text::said(self.condition),
            permissions: self.permissions,
            runs_on: self.runs_on,
            timeout_minutes: self.timeout_minutes,
            outputs: Seq::new(self.outputs@.len(), |i: int| self.outputs@[i]@),
            steps: Seq::new(self.steps@.len(), |i: int| self.steps@[i]@),
        }
    }
}

impl NamedJob<Job> {
    /// What the job says.
    pub open spec fn view(&self) -> NamedJobView {
        NamedJobView { name: self.name@, job: self.job@ }
    }
}

/// What a list of jobs says.
pub open spec fn job_views(jobs: Seq<NamedJob<Job>>) -> Seq<NamedJobView> {
    Seq::new(jobs.len(), |i: int| jobs[i]@)
}

/// A job of which nothing is said.
pub open spec fn blank_job() -> JobView {
    JobView {
        needs: Seq::empty(),
        condition: None,
        permissions: None,
        runs_on: None,
        timeout_minutes: None,
        outputs: Seq::empty(),
        steps: Seq::empty(),
    }
}

/// A step that only does one thing.
pub open spec fn plain_step(action: ActionView) -> StepView {
    StepView { action, id: None, env: Seq::empty(), zippy_git_identity: false }
}

impl Job {
    /// The job with one more step at its end.
    fn add_step(self, step: Step) -> (job: Self)
        ensures
            job@ == (JobView { steps: self@.steps.push(step@), ..self@ }),
    {
        let mut steps = self.steps;
        steps.push(step);
        let job = Job {
            needs: self.needs,
            condition: self.condition,
            permissions: self.permissions,
            runs_on: self.runs_on,
            timeout_minutes: self.timeout_minutes,
            outputs: self.outputs,
            steps,
        };
        assert(job@ =~= (JobView { steps: self@.steps.push(step@), ..self@ }));
        job
    }
}

impl Step {
    fn plain(action: StepAction) -> (step: Self)
        ensures
            step@ == plain_step(action@),
    {
        let step = Step { action, id: None, env: Vec::new(), zippy_git_identity: false };
        assert(step@ =~= plain_step(action@));
        step
    }
}

/// The job that finds out whether there is anything new to release.
pub open spec fn checking_job(owner_guard: Seq<char>) -> NamedJobView {
    NamedJobView {
        name: "check_for_changes"@,
        job: JobView {
            condition: Some(owner_guard),
            permissions: Some(Permissions { actions: Some(Level::Write), contents: None }),
            runs_on: Some(Runner::LinuxSmall),
            outputs: seq![
                OutputView {
                    name: "bump_nightly"@,
                    step_id: "check"@,
                    step_output: "bump_nightly"@,
                },
            ],
            steps: seq![
                plain_step(ActionView::Checkout(Checkout::WithTags)),
                StepView {
                    id: Some("check"@),
                    ..plain_step(ActionView::Bash(CHECK_NIGHTLY_TAG@))
                },
            ],
            ..blank_job()
        },
    }
}

/// The job that finds out whether there is anything new to release.
pub fn check_for_changes(owner_guard: &str) -> (job: NamedJob<Job>)
    ensures
        job@ == checking_job(owner_guard@),
{
    let check = Step {
        action: StepAction::Bash(CHECK_NIGHTLY_TAG.to_owned()),
        id: Some("check".to_owned()),
        env: Vec::new(),
        zippy_git_identity: false,
    };
    assert(check@ =~= (StepView {
        id: Some("check"@),
        ..plain_step(ActionView::Bash(CHECK_NIGHTLY_TAG@))
    }));
    let mut outputs: Vec<JobOutput> = Vec::new();
    outputs.push(
        JobOutput {
            name: "bump_nightly".to_owned(),
            step_id: "check".to_owned(),
            step_output: "bump_nightly".to_owned(),
        },
    );
    let job = Job {
        needs: Vec::new(),
        condition: Some(owner_guard.to_owned()),
        permissions: Some(Permissions { actions: Some(Level::Write), contents: None }),
        runs_on: Some(Runner::LinuxSmall),
        timeout_minutes: None,
        outputs,
        steps: Vec::new(),
    }.add_step(Step::plain(StepAction::Checkout(Checkout::WithTags))).add_step(check);
    assert(job@ =~= checking_job(owner_guard@).job);
    NamedJob { name: "check_for_changes".to_owned(), job }
}

/// When a job runs that only has work where there is something new to release.
pub open spec fn changes_condition(owner_guard: Seq<char>, check: Seq<char>) -> Seq<char> {
    owner_guard + " && needs."@ + check + ".outputs.bump_nightly == 'true'"@
}

impl NamedJobView {
    /// The job, held back until the check has found something new.
    pub open spec fn guarded(self, check: Seq<char>, owner_guard: Seq<char>) -> NamedJobView {
        NamedJobView {
            job: JobView {
                needs: self.job.needs.push(check),
                condition: Some(changes_condition(owner_guard, check)),
                ..self.job
            },
            ..self
        }
    }
}

/// Holds the job back until the check has found something new.
pub fn with_changes_guard(job: NamedJob<Job>, check: &NamedJob<Job>, owner_guard: &str) -> (guarded:
    NamedJob<Job>)
    ensures
        guarded@ == job@.guarded(check.name@, owner_guard@),
{
    let mut condition = text::joined(owner_guard, " && needs.");
    condition.append(check.name.as_str());
    condition.append(".outputs.bump_nightly == 'true'");
    let mut needs = job.job.needs;
    needs.push(check.name.clone());
    let guarded = NamedJob {
        name: job.name,
        job: Job {
            needs,
            condition: Some(condition),
            permissions: job.job.permissions,
            runs_on: job.job.runs_on,
            timeout_minutes: job.job.timeout_minutes,
            outputs: job.job.outputs,
            steps: job.job.steps,
        },
    };
    assert(guarded@.job =~= job@.guarded(check.name@, owner_guard@).job);
    guarded
}

/// A job of a release that waits for others.
pub open spec fn releasing_job(deps: Seq<Seq<char>>, owner_guard: Seq<char>) -> JobView {
    JobView {
        needs: deps,
        condition: Some(owner_guard),
        timeout_minutes: Some(60),
        ..blank_job()
    }
}

/// What the jobs are called.
pub open spec fn names(jobs: Seq<&NamedJob<Job>>) -> Seq<Seq<char>> {
    Seq::new(jobs.len(), |i: int| jobs[i].name@)
}

/// A job of a release that waits for others.
pub fn release_job(deps: &Vec<&NamedJob<Job>>, owner_guard: &str) -> (job: Job)
    ensures
        job@ == releasing_job(names(deps@), owner_guard@),
{
    let mut needs: Vec<String> = Vec::new();
    let mut at: usize = 0;
    while at < deps.len()
        invariant
            at <= deps@.len(),
            text::texts(needs@) == names(deps@).take(at as int),
        decreases deps@.len() - at,
    {
        let ghost before = needs@;
        needs.push(deps[at].name.clone());
        at = at + 1;
        assert(text::texts(needs@) =~= text::texts(before).push(deps@[at - 1].name@));
        assert(text::texts(needs@) =~= names(deps@).take(at as int));
    }
    assert(names(deps@).take(at as int) =~= names(deps@));
    let job = Job {
        needs,
        condition: Some(owner_guard.to_owned()),
        permissions: None,
        runs_on: None,
        timeout_minutes: Some(60),
        outputs: Vec::new(),
        steps: Vec::new(),
    };
    assert(job@ =~= releasing_job(names(deps@), owner_guard@));
    job
}

/// The job that looks at how the code is written.
pub open spec fn styling_job(owner_guard: Seq<char>) -> NamedJobView {
    NamedJobView {
        name: "check_style"@,
        job: JobView {
            runs_on: Some(Runner::MacDefault),
            steps: seq![
                plain_step(ActionView::Checkout(Checkout::FullHistory)),
                plain_step(ActionView::CargoFmt),
                plain_step(ActionView::Script("./script/clippy"@)),
            ],
            ..releasing_job(Seq::empty(), owner_guard)
        },
    }
}

/// The job that looks at how the code is written.
pub fn check_style(owner_guard: &str) -> (job: NamedJob<Job>)
    ensures
        job@ == styling_job(owner_guard@),
{
    let deps: Vec<&NamedJob<Job>> = Vec::new();
    assert(names(deps@) =~= Seq::empty());
    let mut job = release_job(&deps, owner_guard);
    job.runs_on = Some(Runner::MacDefault);
    let job = job.add_step(Step::plain(StepAction::Checkout(Checkout::FullHistory))).add_step(
        Step::plain(StepAction::CargoFmt),
    ).add_step(Step::plain(StepAction::Script("./script/clippy".to_owned())));
    assert(job@ =~= styling_job(owner_guard@).job);
    NamedJob { name: "check_style".to_owned(), job }
}

/// The keys of the place that nightly builds are put.
#[derive(Debug, PartialEq, Eq)]
pub struct UploadKeys {
    pub access_key: String,
    pub secret_key: String,
}

/// The step that uploads the builds.
pub open spec fn upload_step(keys: UploadKeys) -> StepView {
    StepView {
        env: seq![
            ("DIGITALOCEAN_SPACES_ACCESS_KEY"@, keys.access_key@),
            ("DIGITALOCEAN_SPACES_SECRET_KEY"@, keys.secret_key@),
        ],
        ..plain_step(ActionView::Script("./script/upload-nightly"@))
    }
}

/// The job that publishes the builds and moves the nightly tag.
pub open spec fn tagging_job(base: JobView, keys: UploadKeys) -> NamedJobView {
    NamedJobView {
        name: "update_nightly_tag"@,
        job: JobView {
            runs_on: Some(Runner::LinuxMedium),
            steps: base.steps + seq![
                plain_step(ActionView::Checkout(Checkout::WithTags)),
                plain_step(ActionView::DownloadWorkflowArtifacts),
                plain_step(ActionView::Script("ls -lR ./artifacts"@)),
                plain_step(ActionView::PrepReleaseArtifacts),
                upload_step(keys),
                StepView {
                    zippy_git_identity: true,
                    ..plain_step(ActionView::Bash(UPDATE_NIGHTLY_TAG@))
                },
                plain_step(ActionView::CreateSentryRelease),
            ],
            ..base
        },
    }
}

/// The job that publishes the builds and moves the nightly tag. `base` is a job of a release that
/// waits for all the builds.
pub fn update_nightly_tag_job(base: Job, keys: &UploadKeys) -> (job: NamedJob<Job>)
    ensures
        job@ == tagging_job(base@, *keys),
{
    let mut env: Vec<(String, String)> = Vec::new();
    env.push(("DIGITALOCEAN_SPACES_ACCESS_KEY".to_owned(), keys.access_key.clone()));
    env.push(("DIGITALOCEAN_SPACES_SECRET_KEY".to_owned(), keys.secret_key.clone()));
    let upload = Step {
        action: StepAction::Script("./script/upload-nightly".to_owned()),
        id: None,
        env,
        zippy_git_identity: false,
    };
    assert(upload@.env =~= upload_step(*keys).env);
    let tag = Step {
        action: StepAction::Bash(UPDATE_NIGHTLY_TAG.to_owned()),
        id: None,
        env: Vec::new(),
        zippy_git_identity: true,
    };
    assert(tag@ =~= (StepView {
        zippy_git_identity: true,
        ..plain_step(ActionView::Bash(UPDATE_NIGHTLY_TAG@))
    }));
    let mut job = base;
    job.runs_on = Some(Runner::LinuxMedium);
    let job = job.add_step(Step::plain(StepAction::Checkout(Checkout::WithTags))).add_step(
        Step::plain(StepAction::DownloadWorkflowArtifacts),
    ).add_step(Step::plain(StepAction::Script("ls -lR ./artifacts".to_owned()))).add_step(
        Step::plain(StepAction::PrepReleaseArtifacts),
    ).add_step(upload).add_step(tag).add_step(Step::plain(StepAction::CreateSentryRelease));
    assert(job@ =~= tagging_job(base@, *keys).job);
    NamedJob { name: "update_nightly_tag".to_owned(), job }
}

/// A system that is built for.
#[derive(Clone, Copy, Debug, PartialEq, Eq, Structural)]
pub enum Platform {
    Linux,
    Mac,
    Windows,
}

/// A processor that is built for.
#[derive(Clone, Copy, Debug, PartialEq, Eq, Structural)]
pub enum Arch {
    X86_64,
    AARCH64,
}

/// Which users a build is for.
#[derive(Clone, Copy, Debug, PartialEq, Eq, Structural)]
pub enum ReleaseChannel {
    Nightly,
}

/// What is looked at before the nightly release is built.
#[derive(Clone, Copy, Debug, PartialEq, Eq, Structural)]
pub struct CheckRequests {
    /// Where all the tests are run, whatever has changed.
    pub tests_on: Platform,
    /// Where the lints are run.
    pub clippy_on: Platform,
    /// The processor the lints are run for, where it is not that of the machine.
    pub clippy_arch: Option<Arch>,
}

/// What is looked at before the nightly release is built. Windows is the fastest to test on.
pub fn check_requests() -> (requests: CheckRequests)
    ensures
        requests == (CheckRequests {
            tests_on: Platform::Windows,
            clippy_on: Platform::Windows,
            clippy_arch: None,
        }),
{
    CheckRequests { tests_on: Platform::Windows, clippy_on: Platform::Windows, clippy_arch: None }
}

/// A build to make that users install.
#[derive(Debug, PartialEq, Eq)]
pub struct BundleRequest {
    pub platform: Platform,
    pub arch: Arch,
    pub channel: Option<ReleaseChannel>,
    pub deps: Vec<String>,
}

/// A package to build.
#[derive(Debug, PartialEq, Eq)]
pub struct NixRequest {
    pub platform: Platform,
    pub arch: Arch,
    pub package: String,
    /// Which of what is built is kept for later builds. Without it everything is.
    pub cachix_filter: Option<String>,
    pub deps: Vec<String>,
}

/// The builds to make of the nightly release.
#[derive(Debug, PartialEq, Eq)]
pub struct BuildRequests {
    pub bundle: Vec<BundleRequest>,
    pub nix_linux_x86: NixRequest,
    pub nix_mac_arm: NixRequest,
}

/// What a [`BundleRequest`] says.
#[verifier::ext_equal]
pub struct BundleRequestView {
    pub platform: Platform,
    pub arch: Arch,
    pub channel: Option<ReleaseChannel>,
    pub deps: Seq<Seq<char>>,
}

/// What a [`NixRequest`] says.
#[verifier::ext_equal]
pub struct NixRequestView {
    pub platform: Platform,
    pub arch: Arch,
    pub package: Seq<char>,
    pub cachix_filter: Option<Seq<char>>,
    pub deps: Seq<Seq<char>>,
}

/// What [`BuildRequests`] say.
#[verifier::ext_equal]
pub struct BuildRequestsView {
    pub bundle: Seq<BundleRequestView>,
    pub nix_linux_x86: NixRequestView,
    pub nix_mac_arm: NixRequestView,
}

impl BundleRequest {
    /// What the request says.
    pub open spec fn view(&self) -> BundleRequestView {
        BundleRequestView {
            platform: self.platform,
            arch: self.arch,
            channel: self.channel,
            deps: text::texts(self.deps@),
        }
    }
}

impl NixRequest {
    /// What the request says.
    pub open spec fn view(&self) -> NixRequestView {
        NixRequestView {
            platform: self.platform,
            arch: self.arch,
            package: self.package@,
            cachix_filter: text::said(self.cachix_filter),
            deps: text::texts(self.deps@),
        }
    }
}

impl BuildRequests {
    /// What the requests say.
    pub open spec fn view(&self) -> BuildRequestsView {
        BuildRequestsView {
            bundle: Seq::new(self.bundle@.len(), |i: int| self.bundle@[i]@),
            nix_linux_x86: self.nix_linux_x86@,
            nix_mac_arm: self.nix_mac_arm@,
        }
    }
}

/// A nightly build to install for a system and a processor.
pub open spec fn nightly_bundle(
    platform: Platform,
    arch: Arch,
    deps: Seq<Seq<char>>,
) -> BundleRequestView {
    BundleRequestView { platform, arch, channel: Some(ReleaseChannel::Nightly), deps }
}

/// The default package for a system and a processor.
pub open spec fn default_package(
    platform: Platform,
    arch: Arch,
    deps: Seq<Seq<char>>,
) -> NixRequestView {
    NixRequestView { platform, arch, package: "default"@, cachix_filter: None, deps }
}

/// The builds of the nightly release: one to install for every system and processor, which waits
/// for everything that is looked at before, and two packages, which do not wait for the lints.
pub open spec fn builds(
    style: Seq<char>,
    tests: Seq<char>,
    clippy: Seq<char>,
) -> BuildRequestsView {
    let all = seq![style, tests, clippy];
    let most = seq![style, tests];
    BuildRequestsView {
        bundle: seq![
            nightly_bundle(Platform::Linux, Arch::AARCH64, all),
            nightly_bundle(Platform::Linux, Arch::X86_64, all),
            nightly_bundle(Platform::Mac, Arch::AARCH64, all),
            nightly_bundle(Platform::Mac, Arch::X86_64, all),
            nightly_bundle(Platform::Windows, Arch::AARCH64, all),
            nightly_bundle(Platform::Windows, Arch::X86_64, all),
        ],
        nix_linux_x86: default_package(Platform::Linux, Arch::X86_64, most),
        nix_mac_arm: default_package(Platform::Mac, Arch::AARCH64, most),
    }
}

fn bundle_request(platform: Platform, arch: Arch, style: &str, tests: &str, clippy: &str) -> (request:
    BundleRequest)
    ensures
        request@ == nightly_bundle(platform, arch, seq![style@, tests@, clippy@]),
{
    let mut deps: Vec<String> = Vec::new();
    deps.push(style.to_owned());
    deps.push(tests.to_owned());
    deps.push(clippy.to_owned());
    assert(text::texts(deps@) =~= seq![style@, tests@, clippy@]);
    BundleRequest { platform, arch, channel: Some(ReleaseChannel::Nightly), deps }
}

fn nix_request(platform: Platform, arch: Arch, style: &str, tests: &str) -> (request: NixRequest)
    ensures
        request@ == default_package(platform, arch, seq![style@, tests@]),
{
    let mut deps: Vec<String> = Vec::new();
    deps.push(style.to_owned());
    deps.push(tests.to_owned());
    assert(text::texts(deps@) =~= seq![style@, tests@]);
    NixRequest { platform, arch, package: "default".to_owned(), cachix_filter: None, deps }
}

/// The builds of the nightly release, given what the jobs are called that come before them.
pub fn build_requests(style: &str, tests: &str, clippy: &str) -> (requests: BuildRequests)
    ensures
        requests@ == builds(style@, tests@, clippy@),
{
    let mut bundle: Vec<BundleRequest> = Vec::new();
    bundle.push(bundle_request(Platform::Linux, Arch::AARCH64, style, tests, clippy));
    bundle.push(bundle_request(Platform::Linux, Arch::X86_64, style, tests, clippy));
    bundle.push(bundle_request(Platform::Mac, Arch::AARCH64, style, tests, clippy));
    bundle.push(bundle_request(Platform::Mac, Arch::X86_64, style, tests, clippy));
    bundle.push(bundle_request(Platform::Windows, Arch::AARCH64, style, tests, clippy));
    bundle.push(bundle_request(Platform::Windows, Arch::X86_64, style, tests, clippy));
    let requests = BuildRequests {
        bundle,
        nix_linux_x86: nix_request(Platform::Linux, Arch::X86_64, style, tests),
        nix_mac_arm: nix_request(Platform::Mac, Arch::AARCH64, style, tests),
    };
    assert(requests@.bundle =~= builds(style@, tests@, clippy@).bundle);
    requests
}

/// The jobs of the nightly release that are described elsewhere.
#[derive(Debug)]
pub struct ReleaseParts {
    pub tests: NamedJob<Job>,
    pub clippy: NamedJob<Job>,
    /// The builds to install.
    pub bundle: Vec<NamedJob<Job>>,
    pub nix_linux_x86: NamedJob<Job>,
    pub nix_mac_arm: NamedJob<Job>,
    /// A job of a release that waits for all of `bundle`.
    pub release_base: Job,
    pub notify_on_failure: NamedJob<Job>,
}

impl ReleaseParts {
    /// The jobs of the nightly release.
    pub open spec fn jobs(self, owner_guard: Seq<char>, keys: UploadKeys) -> Seq<NamedJobView> {
        let check = checking_job(owner_guard);
        seq![
            check,
            styling_job(owner_guard).guarded(check.name, owner_guard),
            self.tests@.guarded(check.name, owner_guard),
            self.clippy@.guarded(check.name, owner_guard),
        ] + job_views(self.bundle@) + seq![
            self.nix_linux_x86@,
            self.nix_mac_arm@,
            tagging_job(self.release_base@, keys),
            self.notify_on_failure@,
        ]
    }
}

fn texts_of(first: &str) -> (list: Vec<String>)
    ensures
        text::texts(list@) == seq![first@],
{
    let mut list: Vec<String> = Vec::new();
    list.push(first.to_owned());
    assert(text::texts(list@) =~= seq![first@]);
    list
}

/// The workflow that releases a nightly version: every hour, and whenever the nightly tag is
/// pushed.
pub fn release_nightly(parts: ReleaseParts, owner_guard: &str, keys: &UploadKeys) -> (workflow:
    Workflow<Job>)
    ensures
        workflow.name@ == "release_nightly"@,
        text::texts(workflow.schedule@) == seq!["0 * * * *"@],
        text::texts(workflow.push_tags@) == seq!["nightly"@],
        workflow.push_branches@.len() == 0,
        workflow.concurrency matches Some(concurrency) && concurrency.group@
            == "release-nightly-${{ github.event_name }}"@ && concurrency.cancel_in_progress,
        text::text_pairs(workflow.env@) == seq![
            ("CARGO_TERM_COLOR"@, "always"@),
            ("RUST_BACKTRACE"@, "1"@),
        ],
        job_views(workflow.jobs@) == parts.jobs(owner_guard@, *keys),
{
    let ghost all = parts.jobs(owner_guard@, *keys);
    let ghost bundle = parts.bundle@;
    let check = check_for_changes(owner_guard);
    let style = with_changes_guard(check_style(owner_guard), &check, owner_guard);
    let tests = with_changes_guard(parts.tests, &check, owner_guard);
    let clippy = with_changes_guard(parts.clippy, &check, owner_guard);
    let update_nightly_tag = update_nightly_tag_job(parts.release_base, keys);
    let mut env: Vec<(String, String)> = Vec::new();
    env.push(("CARGO_TERM_COLOR".to_owned(), "always".to_owned()));
    env.push(("RUST_BACKTRACE".to_owned(), "1".to_owned()));
    assert(text::text_pairs(env@) =~= seq![
        ("CARGO_TERM_COLOR"@, "always"@),
        ("RUST_BACKTRACE"@, "1"@),
    ]);
    let mut jobs: Vec<NamedJob<Job>> = Vec::new();
    jobs.push(check);
    jobs.push(style);
    jobs.push(tests);
    jobs.push(clippy);
    let mut built = parts.bundle;
    jobs.append(&mut built);
    jobs.push(parts.nix_linux_x86);
    jobs.push(parts.nix_mac_arm);
    jobs.push(update_nightly_tag);
    jobs.push(parts.notify_on_failure);
    assert(job_views(jobs@) =~= all);
    Workflow {
        name: "release_nightly".to_owned(),
        schedule: texts_of("0 * * * *"),
        push_tags: texts_of("nightly"),
        push_branches: Vec::new(),
        concurrency: Some(
            Concurrency {
                group: "release-nightly-${{ github.event_name }}".to_owned(),
                cancel_in_progress: true,
            },
        ),
        env,
        jobs,
    }
}

/// The secrets that deploying the documentation takes.
#[derive(Debug, PartialEq, Eq)]
pub struct DocsSecrets {
    pub amplitude_api_key: String,
    pub cloudflare_api_token: String,
    pub cloudflare_account_id: String,
}

impl NamedJob<UsesJob> {
    /// Whether this is the job that deploys the documentation.
    pub open spec fn deploys_docs(self, secrets: DocsSecrets) -> bool {
        &&& self.name@ == "deploy_docs"@
        &&& text::said(self.job.condition) == Some("github.repository_owner == 'zed-industries'"@)
        &&& self.job.permissions == Some(
            Permissions { actions: None, contents: Some(Level::Read) },
        )
        &&& self.job.uses@ == ".github/workflows/deploy_docs.yml"@
        &&& text::text_pairs(self.job.with@) == seq![
            ("channel"@, "nightly"@),
            ("checkout_ref"@, "${{ github.sha }}"@),
        ]
        &&& text::text_pairs(self.job.secrets@) == seq![
            ("DOCS_AMPLITUDE_API_KEY"@, secrets.amplitude_api_key@),
            ("CLOUDFLARE_API_TOKEN"@, secrets.cloudflare_api_token@),
            ("CLOUDFLARE_ACCOUNT_ID"@, secrets.cloudflare_account_id@),
        ]
    }
}

/// The job that deploys the documentation of the pushed commit.
pub fn deploy_docs(secrets: DocsSecrets) -> (job: NamedJob<UsesJob>)
    ensures
        job.deploys_docs(secrets),
{
    let mut with: Vec<(String, String)> = Vec::new();
    with.push(("channel".to_owned(), "nightly".to_owned()));
    with.push(("checkout_ref".to_owned(), "${{ github.sha }}".to_owned()));
    assert(text::text_pairs(with@) =~= seq![
        ("channel"@, "nightly"@),
        ("checkout_ref"@, "${{ github.sha }}"@),
    ]);
    let mut passed: Vec<(String, String)> = Vec::new();
    passed.push(("DOCS_AMPLITUDE_API_KEY".to_owned(), secrets.amplitude_api_key));
    passed.push(("CLOUDFLARE_API_TOKEN".to_owned(), secrets.cloudflare_api_token));
    passed.push(("CLOUDFLARE_ACCOUNT_ID".to_owned(), secrets.cloudflare_account_id));
    assert(text::text_pairs(passed@) =~= seq![
        ("DOCS_AMPLITUDE_API_KEY"@, secrets.amplitude_api_key@),
        ("CLOUDFLARE_API_TOKEN"@, secrets.cloudflare_api_token@),
        ("CLOUDFLARE_ACCOUNT_ID"@, secrets.cloudflare_account_id@),
    ]);
    NamedJob {
        name: "deploy_docs".to_owned(),
        job: UsesJob {
            condition: Some("github.repository_owner == 'zed-industries'".to_owned()),
            permissions: Some(Permissions { actions: None, contents: Some(Level::Read) }),
            uses: ".github/workflows/deploy_docs.yml".to_owned(),
            with,
            secrets: passed,
        },
    }
}

/// The workflow that deploys the documentation whenever its branch is pushed.
pub fn deploy_docs_nightly_pr(secrets: DocsSecrets) -> (workflow: Workflow<UsesJob>)
    ensures
        workflow.name@ == "deploy_docs_nightly_pr"@,
        workflow.schedule@.len() == 0,
        workflow.push_tags@.len() == 0,
        text::texts(workflow.push_branches@) == seq![BRANCH_NAME@],
        workflow.concurrency is None,
        workflow.env@.len() == 0,
        workflow.jobs@.len() == 1,
        workflow.jobs@[0].deploys_docs(secrets),
{
    let mut jobs: Vec<NamedJob<UsesJob>> = Vec::new();
    jobs.push(deploy_docs(secrets));
    Workflow {
        name: "deploy_docs_nightly_pr".to_owned(),
        schedule: Vec::new(),
        push_tags: Vec::new(),
        push_branches: texts_of(BRANCH_NAME),
        concurrency: None,
        env: Vec::new(),
        jobs,
    }
}

/// Whether a job of the given name stands before the place `end`.
pub open spec fn stands_before(jobs: Seq<NamedJobView>, name: Seq<char>, end: int) -> bool {
    exists|i: int| 0 <= i < end && (#[trigger] jobs[i]).name == name
}

/// Whether the job only needs jobs of the given names.
pub open spec fn only_needs(job: JobView, allowed: Seq<Seq<char>>) -> bool {
    forall|i: int| 0 <= i < job.needs.len() ==> allowed.contains(#[trigger] job.needs[i])
}

/// What the builds to install are called.
pub open spec fn bundle_names(parts: ReleaseParts) -> Seq<Seq<char>> {
    Seq::new(parts.bundle@.len(), |i: int| parts.bundle@[i].name@)
}

impl ReleaseParts {
    /// The builds to make, given what the jobs before them are called.
    pub open spec fn requested(self) -> BuildRequestsView {
        builds("check_style"@, self.tests.name@, self.clippy.name@)
    }

    /// Whether there is a job for every build that was asked for, which waits for what it was
    /// asked to wait for, and the jobs behind the builds wait for no others than the builds.
    pub open spec fn are_as_requested(self) -> bool {
        &&& self.tests@.job.needs.len() == 0
        &&& self.clippy@.job.needs.len() == 0
        &&& self.bundle@.len() == self.requested().bundle.len()
        &&& forall|i: int|
            0 <= i < self.bundle@.len() ==> (#[trigger] self.bundle@[i])@.job.needs
                == self.requested().bundle[i].deps
        &&& self.nix_linux_x86@.job.needs == self.requested().nix_linux_x86.deps
        &&& self.nix_mac_arm@.job.needs == self.requested().nix_mac_arm.deps
        &&& only_needs(self.release_base@, bundle_names(self))
        &&& only_needs(self.notify_on_failure@.job, bundle_names(self))
    }
}

/// No job of the nightly release waits for one that is listed behind it, so none waits forever.
pub proof fn needed_jobs_come_first(
    parts: ReleaseParts,
    owner_guard: Seq<char>,
    keys: UploadKeys,
    at: int,
    need: int,
)
    requires
        parts.are_as_requested(),
        0 <= at < parts.jobs(owner_guard, keys).len(),
        0 <= need < parts.jobs(owner_guard, keys)[at].job.needs.len(),
    ensures
        stands_before(
            parts.jobs(owner_guard, keys),
            parts.jobs(owner_guard, keys)[at].job.needs[need],
            at,
        ),
{
    let jobs = parts.jobs(owner_guard, keys);
    let wanted = jobs[at].job.needs[need];
    let built = parts.bundle@.len() as int;
    let looked_at = seq!["check_style"@, parts.tests.name@, parts.clippy.name@];
    if at < 4 {
        assert(at > 0);
        assert(jobs[0].name == wanted);
    } else if at < 4 + built + 2 {
        if at < 4 + built {
            assert(jobs[at] == parts.bundle@[at - 4]@);
        }
        assert(wanted == looked_at[need]);
        assert(looked_at.contains(wanted));
        let i = choose|i: int| 0 <= i < looked_at.len() && looked_at[i] == wanted;
        assert(jobs[i + 1].name == wanted);
    } else {
        assert(bundle_names(parts).contains(wanted));
        let i = choose|i: int|
            0 <= i < bundle_names(parts).len() && bundle_names(parts)[i] == wanted;
        assert(jobs[i + 4].name == wanted);
    }
}

/// The nightly release has fourteen jobs: the check, the three that look at the code, one for each
/// of the eight builds, the one that publishes them, and the one that tells of failures.
pub proof fn every_build_has_a_job(parts: ReleaseParts, owner_guard: Seq<char>, keys: UploadKeys)
    requires
        parts.are_as_requested(),
    ensures
        parts.jobs(owner_guard, keys).len() == 14,
        parts.jobs(owner_guard, keys).subrange(4, 10) == job_views(parts.bundle@),
        parts.jobs(owner_guard, keys)[10] == parts.nix_linux_x86@,
        parts.jobs(owner_guard, keys)[11] == parts.nix_mac_arm@,
{
    assert(parts.jobs(owner_guard, keys).subrange(4, 10) =~= job_views(parts.bundle@));
}

/// Style, tests and lints are only looked at where the check found something new: each of these
/// jobs needs the check and asks what it found.
pub proof fn release_waits_for_changes(parts: ReleaseParts, owner_guard: Seq<char>, keys: UploadKeys)
    ensures
        forall|i: int|
            1 <= i < 4 ==> {
                let job = (#[trigger] parts.jobs(owner_guard, keys)[i]).job;
                &&& job.needs.contains("check_for_changes"@)
                &&& job.condition == Some(changes_condition(owner_guard, "check_for_changes"@))
            },
{
    let jobs = parts.jobs(owner_guard, keys);
    assert forall|i: int| 1 <= i < 4 implies (#[trigger] jobs[i]).job.needs.contains(
        "check_for_changes"@,
    ) by {
        assert(jobs[i].job.needs.last() == "check_for_changes"@);
    }
}

/// Holding a job back changes when it runs and nothing else: it does the same on the same machine
/// and still waits for what it waited for.
pub proof fn guarded_jobs_do_the_same(
    job: NamedJobView,
    check: Seq<char>,
    owner_guard: Seq<char>,
    at: int,
)
    ensures
        ({
            let guarded = job.guarded(check, owner_guard);
            &&& guarded.name == job.name
            &&& guarded.job.steps == job.job.steps
            &&& guarded.job.runs_on == job.job.runs_on
            &&& guarded.job.permissions == job.job.permissions
            &&& guarded.job.timeout_minutes == job.job.timeout_minutes
            &&& guarded.job.outputs == job.job.outputs
            &&& guarded.job.needs.len() == job.job.needs.len() + 1
            &&& 0 <= at < job.job.needs.len() ==> guarded.job.needs[at] == job.job.needs[at]
            &&& guarded.job.needs.last() == check
            &&& guarded.job.condition is Some
            &&& text::begins_with(guarded.job.condition->0, owner_guard)
            &&& guarded.job.condition->0.skip(owner_guard.len() as int) == " && needs."@ + check
                + ".outputs.bump_nightly == 'true'"@
        }),
{
    let rest = " && needs."@ + check + ".outputs.bump_nightly == 'true'"@;
    let condition = changes_condition(owner_guard, check);
    assert(condition =~= owner_guard + rest);
    text::beginning_and_rest_make_the_text(condition, owner_guard, rest);
}

/// What the other jobs ask of the check is what one of its steps leaves under that name: the step
/// that looks at the nightly tag, after the tags were checked out.
pub proof fn check_leaves_what_is_asked_for(owner_guard: Seq<char>)
    ensures
        ({
            let job = checking_job(owner_guard).job;
            &&& job.outputs.len() == 1
            &&& job.outputs[0].name == "bump_nightly"@
            &&& job.outputs[0].step_output == "bump_nightly"@
            &&& job.steps.len() == 2
            &&& job.steps[0].action == ActionView::Checkout(Checkout::WithTags)
            &&& job.steps[1].id == Some(job.outputs[0].step_id)
            &&& job.steps[1].action == ActionView::Bash(CHECK_NIGHTLY_TAG@)
            &&& job.needs.len() == 0
            &&& job.condition == Some(owner_guard)
            &&& job.permissions is Some && job.permissions->0.actions == Some(Level::Write)
        }),
{
}

/// Every system and processor gets exactly one build to install, for the nightly users, which
/// waits for style, tests and lints. The two packages wait for style and tests.
pub proof fn every_machine_gets_a_build(
    style: Seq<char>,
    tests: Seq<char>,
    clippy: Seq<char>,
    platform: Platform,
    arch: Arch,
)
    ensures
        exists|i: int|
            0 <= i < builds(style, tests, clippy).bundle.len() && (#[trigger] builds(
                style,
                tests,
                clippy,
            ).bundle[i]).platform == platform && builds(style, tests, clippy).bundle[i].arch
                == arch,
        forall|i: int, j: int|
            0 <= i < j < builds(style, tests, clippy).bundle.len() ==> (#[trigger] builds(
                style,
                tests,
                clippy,
            ).bundle[i]).platform != (#[trigger] builds(style, tests, clippy).bundle[j]).platform
                || builds(style, tests, clippy).bundle[i].arch != builds(
                style,
                tests,
                clippy,
            ).bundle[j].arch,
        forall|i: int|
            0 <= i < builds(style, tests, clippy).bundle.len() ==> (#[trigger] builds(
                style,
                tests,
                clippy,
            ).bundle[i]).channel == Some(ReleaseChannel::Nightly) && builds(
                style,
                tests,
                clippy,
            ).bundle[i].deps == seq![style, tests, clippy],
        builds(style, tests, clippy).nix_linux_x86.deps == seq![style, tests],
        builds(style, tests, clippy).nix_mac_arm.deps == seq![style, tests],
        builds(style, tests, clippy).nix_linux_x86.platform is Linux,
        builds(style, tests, clippy).nix_linux_x86.arch is X86_64,
        builds(style, tests, clippy).nix_mac_arm.platform is Mac,
        builds(style, tests, clippy).nix_mac_arm.arch is AARCH64,
        builds(style, tests, clippy).nix_linux_x86.cachix_filter is None,
        builds(style, tests, clippy).nix_mac_arm.cachix_filter is None,
{
    let bundle = builds(style, tests, clippy).bundle;
    let i: int = match (platform, arch) {
        (Platform::Linux, Arch::AARCH64) => 0,
        (Platform::Linux, Arch::X86_64) => 1,
        (Platform::Mac, Arch::AARCH64) => 2,
        (Platform::Mac, Arch::X86_64) => 3,
        (Platform::Windows, Arch::AARCH64) => 4,
        (Platform::Windows, Arch::X86_64) => 5,
    };
    assert(bundle[i].platform == platform && bundle[i].arch == arch);
}

/// The job that publishes waits and runs as the job of a release that it was made of, and first
/// does what that one does. The builds are downloaded before they are prepared, prepared before
/// they are uploaded, and uploaded before the tag moves; only then is the release announced. The
/// upload has both keys, and only the tag moves in the name of the release bot.
pub proof fn builds_are_published_before_the_tag_moves(base: JobView, keys: UploadKeys, at: int)
    ensures
        ({
            let job = tagging_job(base, keys).job;
            let first = base.steps.len() as int;
            &&& job.needs == base.needs
            &&& job.condition == base.condition
            &&& job.timeout_minutes == base.timeout_minutes
            &&& job.permissions == base.permissions
            &&& job.outputs == base.outputs
            &&& job.runs_on == Some(Runner::LinuxMedium)
            &&& job.steps.len() == first + 7
            &&& 0 <= at < first ==> job.steps[at] == base.steps[at]
            &&& job.steps[first].action == ActionView::Checkout(Checkout::WithTags)
            &&& job.steps[first + 1].action is DownloadWorkflowArtifacts
            &&& job.steps[first + 3].action is PrepReleaseArtifacts
            &&& job.steps[first + 4].action == ActionView::Script("./script/upload-nightly"@)
            &&& job.steps[first + 4].env.contains(
                ("DIGITALOCEAN_SPACES_ACCESS_KEY"@, keys.access_key@),
            )
            &&& job.steps[first + 4].env.contains(
                ("DIGITALOCEAN_SPACES_SECRET_KEY"@, keys.secret_key@),
            )
            &&& job.steps[first + 5].action == ActionView::Bash(UPDATE_NIGHTLY_TAG@)
            &&& job.steps[first + 6].action is CreateSentryRelease
            &&& first <= at < first + 7 ==> (job.steps[at].zippy_git_identity <==> at == first + 5)
        }),
{
    let env = upload_step(keys).env;
    assert(env[0] == ("DIGITALOCEAN_SPACES_ACCESS_KEY"@, keys.access_key@));
    assert(env[1] == ("DIGITALOCEAN_SPACES_SECRET_KEY"@, keys.secret_key@));
}

/// A job of a release waits for every job that it was given, for an hour at most, and only runs
/// for the owner.
pub proof fn release_jobs_wait_for_all(deps: Seq<Seq<char>>, owner_guard: Seq<char>, at: int)
    requires
        0 <= at < deps.len(),
    ensures
        releasing_job(deps, owner_guard).needs.len() == deps.len(),
        releasing_job(deps, owner_guard).needs[at] == deps[at],
        releasing_job(deps, owner_guard).condition == Some(owner_guard),
        releasing_job(deps, owner_guard).timeout_minutes == Some(60u32),
        releasing_job(deps, owner_guard).steps.len() == 0,
{
}

/// The code is checked out before its format and its lints are looked at.
pub proof fn style_is_looked_at_in_a_checkout(owner_guard: Seq<char>)
    ensures
        ({
            let job = styling_job(owner_guard).job;
            &&& job.steps.len() == 3
            &&& job.steps[0].action is Checkout
            &&& job.steps[1].action is CargoFmt
            &&& job.steps[2].action == ActionView::Script("./script/clippy"@)
            &&& job.needs.len() == 0
            &&& job.condition == Some(owner_guard)
        }),
{
}

/// The release publishes what was built and tells of failures, whatever was built: the jobs that do
/// so are the last two, and are what they were described to be.
pub proof fn release_ends_with_publishing(
    parts: ReleaseParts,
    owner_guard: Seq<char>,
    keys: UploadKeys,
)
    ensures
        ({
            let jobs = parts.jobs(owner_guard, keys);
            &&& jobs.len() == parts.bundle@.len() + 8
            &&& jobs[0] == checking_job(owner_guard)
            &&& jobs[1].name == "check_style"@
            &&& jobs[2].name == parts.tests.name@ && jobs[2].job.steps == parts.tests@.job.steps
            &&& jobs[3].name == parts.clippy.name@ && jobs[3].job.steps == parts.clippy@.job.steps
            &&& jobs[jobs.len() - 2].name == "update_nightly_tag"@
            &&& jobs[jobs.len() - 2].job.needs == parts.release_base@.needs
            &&& jobs[jobs.len() - 1] == parts.notify_on_failure@
            &&& forall|i: int|
                0 <= i < parts.bundle@.len() ==> jobs[4 + i] == (#[trigger] parts.bundle@[i])@
        }),
{
}

/// The documentation is deployed only for the owner, with nothing but reading allowed, from the
/// pushed commit, and with every secret under its own name.
pub proof fn documentation_is_deployed_as_pushed(job: NamedJob<UsesJob>, secrets: DocsSecrets)
    requires
        job.deploys_docs(secrets),
    ensures
        job.job.condition is Some && job.job.condition->0@
            == "github.repository_owner == 'zed-industries'"@,
        job.job.permissions is Some && job.job.permissions->0.actions is None
            && job.job.permissions->0.contents == Some(Level::Read),
        job.job.with@.len() == 2,
        job.job.with@[0].0@ == "channel"@ && job.job.with@[0].1@ == "nightly"@,
        job.job.with@[1].0@ == "checkout_ref"@ && job.job.with@[1].1@ == "${{ github.sha }}"@,
        job.job.secrets@.len() == 3,
        job.job.secrets@[0].1@ == secrets.amplitude_api_key@,
        job.job.secrets@[1].1@ == secrets.cloudflare_api_token@,
        job.job.secrets@[2].1@ == secrets.cloudflare_account_id@,
{
    let with = text::text_pairs(job.job.with@);
    let passed = text::text_pairs(job.job.secrets@);
    assert(with.len() == job.job.with@.len());
    assert(with[0] == ("channel"@, "nightly"@));
    assert(with[1] == ("checkout_ref"@, "${{ github.sha }}"@));
    assert(passed.len() == job.job.secrets@.len());
    assert(passed[0] == ("DOCS_AMPLITUDE_API_KEY"@, secrets.amplitude_api_key@));
    assert(passed[1] == ("CLOUDFLARE_API_TOKEN"@, secrets.cloudflare_api_token@));
    assert(passed[2] == ("CLOUDFLARE_ACCOUNT_ID"@, secrets.cloudflare_account_id@));
}

} // verus!
