//! An agent that runs in a terminal.

use crate::text;
use vstd::prelude::*;

verus! {

/// Something that happens to the view of an agent.
#[derive(Clone, Copy, Debug, PartialEq, Eq, Structural)]
pub enum TerminalAgentViewEvent {
    /// The agent's terminal is there.
    Loaded,
}

/// Identifies a thread.
#[derive(Clone, Copy, Debug, PartialEq, Eq, Structural)]
pub struct ThreadId(pub u64);

/// Identifies a terminal that is shown.
#[derive(Clone, Copy, Debug, PartialEq, Eq, Structural)]
pub struct TerminalId(pub u64);

/// An agent.
#[derive(Debug, PartialEq, Eq)]
pub struct Agent {
    pub id: String,
    pub label: String,
}

/// What the agent's program is started for.
#[derive(Debug, PartialEq, Eq)]
pub enum TerminalRequest {
    NewSession { session_id: String },
    ResumeSession { session_id: String },
}

/// How the agent's program is started.
#[derive(Debug, PartialEq, Eq)]
pub struct AgentServerCommand {
    pub path: String,
    pub args: Vec<String>,
    pub env: Option<Vec<(String, String)>>,
}

/// When a terminal is shown.
#[derive(Clone, Copy, Debug, PartialEq, Eq, Structural)]
pub enum RevealStrategy {
    Always,
}

/// When a terminal is hidden.
#[derive(Clone, Copy, Debug, PartialEq, Eq, Structural)]
pub enum HideStrategy {
    Never,
}

/// A program to run in a terminal.
#[derive(Debug, PartialEq, Eq)]
pub struct SpawnInTerminal {
    pub id: String,
    pub full_label: String,
    pub label: String,
    pub command_label: String,
    pub command: Option<String>,
    pub args: Vec<String>,
    pub cwd: Option<String>,
    pub env: Vec<(String, String)>,
    pub use_new_terminal: bool,
    pub allow_concurrent_runs: bool,
    pub reveal: RevealStrategy,
    pub hide: HideStrategy,
}

/// The program with its arguments, one behind the other.
pub open spec fn command_line(path: Seq<char>, args: Seq<Seq<char>>) -> Seq<char>
    decreases args.len(),
{
    if args.len() == 0 {
        path
    } else {
        command_line(path, args.drop_last()) + seq![' '] + args.last()
    }
}

impl SpawnInTerminal {
    /// Whether this is how an agent is run: always in a terminal of its own that is shown at once
    /// and stays, in the first of the working directories.
    pub open spec fn runs(
        self,
        agent_id: Seq<char>,
        title: Seq<char>,
        work_dirs: Seq<Seq<char>>,
        command: AgentServerCommand,
    ) -> bool {
        &&& self.id@ == "agent-terminal:"@ + agent_id + ":"@ + title
        &&& self.full_label@ == title
        &&& self.label@ == title
        &&& self.command_label@ == command_line(command.path@, text::texts(command.args@))
        &&& self.command matches Some(program) && program@ == command.path@
        &&& text::texts(self.args@) == text::texts(command.args@)
        &&& match self.cwd {
            Some(cwd) => work_dirs.len() > 0 && cwd@ == work_dirs[0],
            None => work_dirs.len() == 0,
        }
        &&& text::text_pairs(self.env@) == (match command.env {
            Some(env) => text::text_pairs(env@),
            None => Seq::empty(),
        })
        &&& self.use_new_terminal
        &&& self.allow_concurrent_runs
    }
}

fn copied_texts(list: &Vec<String>) -> (copy: Vec<String>)
    ensures
        text::texts(copy@) == text::texts(list@),
{
    let mut copy: Vec<String> = Vec::new();
    let mut at: usize = 0;
    while at < list.len()
        invariant
            at <= list@.len(),
            copy@ == list@.take(at as int),
        decreases list@.len() - at,
    {
        copy.push(list[at].clone());
        at = at + 1;
        assert(copy@ =~= list@.take(at as int));
    }
    assert(list@.take(at as int) =~= list@);
    copy
}

fn copied_env(env: &Option<Vec<(String, String)>>) -> (copy: Vec<(String, String)>)
    ensures
        text::text_pairs(copy@) == (match *env {
            Some(env) => text::text_pairs(env@),
            None => Seq::empty(),
        }),
{
    let mut copy: Vec<(String, String)> = Vec::new();
    if let Some(env) = env {
        let mut at: usize = 0;
        while at < env.len()
            invariant
                at <= env@.len(),
                copy@ == env@.take(at as int),
            decreases env@.len() - at,
        {
            copy.push((env[at].0.clone(), env[at].1.clone()));
            at = at + 1;
            assert(copy@ =~= env@.take(at as int));
        }
        assert(env@.take(at as int) =~= env@);
    }
    assert(text::text_pairs(copy@) =~= (match *env {
        Some(env) => text::text_pairs(env@),
        None => Seq::empty(),
    }));
    copy
}

fn command_line_text(path: &str, args: &Vec<String>) -> (label: String)
    ensures
        label@ == command_line(path@, text::texts(args@)),
{
    let ghost all = text::texts(args@);
    let mut label = path.to_owned();
    let mut at: usize = 0;
    assert(all.take(0) =~= Seq::empty());
    while at < args.len()
        invariant
            at <= args@.len(),
            all == text::texts(args@),
            label@ == command_line(path@, all.take(at as int)),
        decreases args@.len() - at,
    {
        let ghost before = label@;
        assert(all.take(at + 1).drop_last() =~= all.take(at as int));
        text::push_char(&mut label, ' ');
        label.append(args[at].as_str());
        assert(label@ =~= before + seq![' '] + args@[at as int]@);
        at = at + 1;
    }
    assert(all.take(at as int) =~= all);
    label
}

/// How an agent is run in a terminal.
pub fn build_spawn_in_terminal(
    agent_id: &str,
    title: &str,
    work_dirs: &Vec<String>,
    command: &AgentServerCommand,
) -> (spawn: SpawnInTerminal)
    ensures
        spawn.runs(agent_id@, title@, text::texts(work_dirs@), *command),
{
    let mut id = text::joined("agent-terminal:", agent_id);
    id.append(":");
    id.append(title);
    let cwd = if work_dirs.len() > 0 {
        Some(work_dirs[0].clone())
    } else {
        None
    };
    SpawnInTerminal {
        id,
        full_label: title.to_owned(),
        label: title.to_owned(),
        command_label: command_line_text(command.path.as_str(), &command.args),
        command: Some(command.path.clone()),
        args: copied_texts(&command.args),
        cwd,
        env: copied_env(&command.env),
        use_new_terminal: true,
        allow_concurrent_runs: true,
        reveal: RevealStrategy::Always,
        hide: HideStrategy::Never,
    }
}

/// Why an agent's program was not started.
#[derive(Debug, PartialEq, Eq)]
pub enum LaunchError {
    NoProject,
    NoWorkspace,
    /// No program is known for the agent.
    NotRegistered,
    /// How it is started could not be found out.
    NoCommand(String),
    /// It could not be started.
    NoTerminal(String),
}

impl LaunchError {
    /// The sentence that describes the error.
    pub open spec fn text(self) -> Seq<char> {
        match self {
            LaunchError::NoProject => "project no longer exists"@,
            LaunchError::NoWorkspace => "workspace no longer exists"@,
            LaunchError::NotRegistered => "external agent is not registered for terminal launch"@,
            LaunchError::NoCommand(reason) => reason@,
            LaunchError::NoTerminal(reason) => reason@,
        }
    }

    /// The sentence that describes the error.
    pub fn message(&self) -> (message: String)
        ensures
            message@ == self.text(),
    {
        match self {
            LaunchError::NoProject => "project no longer exists".to_owned(),
            LaunchError::NoWorkspace => "workspace no longer exists".to_owned(),
            LaunchError::NotRegistered =>
                "external agent is not registered for terminal launch".to_owned(),
            LaunchError::NoCommand(reason) => reason.clone(),
            LaunchError::NoTerminal(reason) => reason.clone(),
        }
    }
}

/// What is known about how the agent's program is started.
#[derive(Debug)]
pub enum CommandLookup {
    /// The agent is not one that runs in a terminal.
    NotRegistered,
    Failed(String),
    Found(AgentServerCommand),
}

/// The view of an agent that runs in a terminal.
#[derive(Debug)]
pub struct TerminalAgentView {
    thread_id: ThreadId,
    agent: Agent,
    agent_session_id: String,
    title: Option<String>,
    work_dirs: Vec<String>,
    terminal_view: Option<TerminalId>,
}

/// What a [`TerminalAgentView`] holds.
pub struct TerminalAgentViewState {
    pub thread_id: ThreadId,
    pub agent: Agent,
    pub agent_session_id: String,
    pub title: Option<String>,
    pub work_dirs: Seq<Seq<char>>,
    pub terminal_view: Option<TerminalId>,
}

impl TerminalAgentViewState {
    /// What the view is called: its own title, or else what the agent is called.
    pub open spec fn shown_title(self) -> Seq<char> {
        match self.title {
            Some(title) => title@,
            None => self.agent.label@,
        }
    }
}

impl TerminalAgentView {
    /// What the view holds.
    pub closed spec fn view(&self) -> TerminalAgentViewState {
        TerminalAgentViewState {
            thread_id: self.thread_id,
            agent: self.agent,
            agent_session_id: self.agent_session_id,
            title: self.title,
            work_dirs: text::texts(self.work_dirs@),
            terminal_view: self.terminal_view,
        }
    }

    /// The view of an agent whose program was not started yet.
    pub fn new(
        thread_id: ThreadId,
        agent: Agent,
        agent_session_id: String,
        title: Option<String>,
        work_dirs: Vec<String>,
    ) -> (view: Self)
        ensures
            view@ == (TerminalAgentViewState {
                thread_id,
                agent,
                agent_session_id,
                title,
                work_dirs: text::texts(work_dirs@),
                terminal_view: None,
            }),
    {
        TerminalAgentView {
            thread_id,
            agent,
            agent_session_id,
            title,
            work_dirs,
            terminal_view: None,
        }
    }

    /// The thread that the view is about.
    pub fn thread_id(&self) -> (thread_id: ThreadId)
        ensures
            thread_id == self@.thread_id,
    {
        self.thread_id
    }

    /// The agent that the view is about.
    pub fn agent(&self) -> (agent: &Agent)
        ensures
            *agent == self@.agent,
    {
        &self.agent
    }

    /// What the view is called.
    pub fn title(&self) -> (title: String)
        ensures
            title@ == self@.shown_title(),
    {
        match &self.title {
            Some(title) => title.clone(),
            None => self.agent.label.clone(),
        }
    }

    /// The agent's terminal.
    pub fn terminal_view(&self) -> (terminal: Option<TerminalId>)
        ensures
            terminal == self@.terminal_view,
    {
        self.terminal_view
    }

    /// What the agent's program is started for when the session is new.
    pub fn launch_new_session(&self) -> (request: TerminalRequest)
        ensures
            request == (TerminalRequest::NewSession { session_id: self@.agent_session_id }),
    {
        TerminalRequest::NewSession { session_id: self.agent_session_id.clone() }
    }

    /// What the agent's program is started for when the session goes on.
    pub fn resume_session(&self) -> (request: TerminalRequest)
        ensures
            request == (TerminalRequest::ResumeSession { session_id: self@.agent_session_id }),
    {
        TerminalRequest::ResumeSession { session_id: self.agent_session_id.clone() }
    }

    /// How the agent's program is started, or why it is not.
    pub fn launch_terminal(
        &self,
        project_is_open: bool,
        workspace_is_open: bool,
        command: CommandLookup,
    ) -> (spawn: Result<SpawnInTerminal, LaunchError>)
        ensures
            if !project_is_open {
                spawn == Err::<SpawnInTerminal, _>(LaunchError::NoProject)
            } else if !workspace_is_open {
                spawn == Err::<SpawnInTerminal, _>(LaunchError::NoWorkspace)
            } else {
                match command {
                    CommandLookup::NotRegistered => spawn == Err::<SpawnInTerminal, _>(
                        LaunchError::NotRegistered,
                    ),
                    CommandLookup::Failed(reason) => spawn == Err::<SpawnInTerminal, _>(
                        LaunchError::NoCommand(reason),
                    ),
                    CommandLookup::Found(command) => spawn is Ok && spawn->Ok_0.runs(
                        self@.agent.id@,
                        self@.shown_title(),
                        self@.work_dirs,
                        command,
                    ),
                }
            },
    {
        if !project_is_open {
            return Err(LaunchError::NoProject);
        }
        if !workspace_is_open {
            return Err(LaunchError::NoWorkspace);
        }
        match command {
            CommandLookup::NotRegistered => Err(LaunchError::NotRegistered),
            CommandLookup::Failed(reason) => Err(LaunchError::NoCommand(reason)),
            CommandLookup::Found(command) => Ok(
                build_spawn_in_terminal(
                    self.agent.id.as_str(),
                    self.title().as_str(),
                    &self.work_dirs,
                    &command,
                ),
            ),
        }
    }

    /// Ends the start of the agent's program: its terminal is shown, or nothing changes.
    pub fn finish_launch(&mut self, terminal: Result<TerminalId, String>) -> (event: Result<
        TerminalAgentViewEvent,
        LaunchError,
    >)
        ensures
            match terminal {
                Ok(terminal) => {
                    &&& event == Ok::<_, LaunchError>(TerminalAgentViewEvent::Loaded)
                    &&& final(self)@ == (TerminalAgentViewState {
                        terminal_view: Some(terminal),
                        ..old(self)@
                    })
                },
                Err(reason) => {
                    &&& event == Err::<TerminalAgentViewEvent, _>(LaunchError::NoTerminal(reason))
                    &&& final(self)@ == old(self)@
                },
            },
    {
        match terminal {
            Ok(terminal) => {
                self.terminal_view = Some(terminal);
                Ok(TerminalAgentViewEvent::Loaded)
            },
            Err(reason) => Err(LaunchError::NoTerminal(reason)),
        }
    }
}

/// The command line is the program and its arguments with spaces between them.
pub proof fn command_line_joins_the_arguments(path: Seq<char>, args: Seq<Seq<char>>)
    ensures
        command_line(path, args) == text::join(seq![path] + args, seq![' ']),
    decreases args.len(),
{
    let all = seq![path] + args;
    if args.len() == 0 {
        assert(all =~= seq![path]);
    } else {
        command_line_joins_the_arguments(path, args.drop_last());
        assert(all.drop_last() =~= seq![path] + args.drop_last());
    }
}

/// The program is run as it was found: with its own path, all its arguments in their order, and
/// the environment that was set for it, if any.
pub proof fn program_is_run_as_found(
    spawn: SpawnInTerminal,
    agent_id: Seq<char>,
    title: Seq<char>,
    work_dirs: Seq<Seq<char>>,
    command: AgentServerCommand,
    at: int,
)
    requires
        spawn.runs(agent_id, title, work_dirs, command),
    ensures
        spawn.command is Some && spawn.command->0@ == command.path@,
        spawn.args@.len() == command.args@.len(),
        0 <= at < command.args@.len() ==> spawn.args@[at]@ == command.args@[at]@,
        command.env is None ==> spawn.env@.len() == 0,
        command.env is Some ==> spawn.env@.len() == command.env->0@.len(),
        command.env is Some && 0 <= at < spawn.env@.len() ==> spawn.env@[at].0@
            == command.env->0@[at].0@ && spawn.env@[at].1@ == command.env->0@[at].1@,
        spawn.command_label@ == text::join(
            seq![command.path@] + text::texts(command.args@),
            seq![' '],
        ),
{
    command_line_joins_the_arguments(command.path@, text::texts(command.args@));
    assert(text::texts(spawn.args@).len() == spawn.args@.len());
    assert(text::texts(command.args@).len() == command.args@.len());
    assert(text::text_pairs(spawn.env@).len() == spawn.env@.len());
    if 0 <= at < command.args@.len() {
        assert(text::texts(spawn.args@)[at] == text::texts(command.args@)[at]);
    }
    if let Some(env) = command.env {
        assert(text::text_pairs(env@).len() == env@.len());
        if 0 <= at < spawn.env@.len() {
            assert(text::text_pairs(spawn.env@)[at] == text::text_pairs(env@)[at]);
        }
    }
}

/// An agent works in the first of its directories, under its title, in a terminal of its own.
/// Terminals of one agent with different titles are known under different names.
pub proof fn agents_have_terminals_of_their_own(
    first: SpawnInTerminal,
    second: SpawnInTerminal,
    agent_id: Seq<char>,
    first_title: Seq<char>,
    second_title: Seq<char>,
    work_dirs: Seq<Seq<char>>,
    command: AgentServerCommand,
)
    requires
        first.runs(agent_id, first_title, work_dirs, command),
        second.runs(agent_id, second_title, work_dirs, command),
    ensures
        first.id@ == second.id@ ==> first_title == second_title,
        first.use_new_terminal && first.allow_concurrent_runs,
        first.label@ == first_title && first.full_label@ == first_title,
        work_dirs.len() > 0 ==> first.cwd is Some && first.cwd->0@ == work_dirs[0],
        work_dirs.len() == 0 ==> first.cwd is None,
        text::begins_with(first.id@, "agent-terminal:"@),
{
    let front = "agent-terminal:"@ + agent_id + ":"@;
    assert(first.id@ =~= front + first_title);
    assert(second.id@ =~= front + second_title);
    assert(first.id@.skip(front.len() as int) =~= first_title);
    assert(second.id@.skip(front.len() as int) =~= second_title);
    assert(first.id@.take("agent-terminal:"@.len() as int) =~= "agent-terminal:"@);
}

/// A view is called what it was named, and what its agent is called only without a name.
pub proof fn names_come_before_labels(view: TerminalAgentViewState)
    ensures
        view.title is Some ==> view.shown_title() == view.title->0@,
        view.title is None ==> view.shown_title() == view.agent.label@,
{
}

} // verus!
