//! Commands as plain values.

use vstd::prelude::*;

verus! {

broadcast use vstd::string::group_string_axioms;

/// The lanes that commands run in. Each has workers of its own, so that the
/// commands of one never wait for those of another.
#[derive(Clone, Copy, Debug, PartialEq, Eq, Structural)]
pub enum Lane {
    /// What the user waits for.
    Interactive,
    /// What runs in the background again and again.
    Poll,
    /// What takes long.
    Long,
}

impl Lane {
    /// How many commands of a lane run at once.
    pub open spec fn workers_model(self) -> nat {
        match self {
            Lane::Interactive => 8,
            Lane::Poll => 8,
            Lane::Long => 4,
        }
    }

    /// How many commands of this lane run at once.
    pub fn workers(self) -> (r: usize)
        ensures
            r == self.workers_model(),
    {
        match self {
            Lane::Interactive => 8,
            Lane::Poll => 8,
            Lane::Long => 4,
        }
    }

    /// The place of this lane among all.
    pub fn index(self) -> (r: usize)
        ensures
            r == (match self {
                Lane::Interactive => 0int,
                Lane::Poll => 1,
                Lane::Long => 2,
            }),
    {
        match self {
            Lane::Interactive => 0,
            Lane::Poll => 1,
            Lane::Long => 2,
        }
    }

    /// The name of this lane in logs.
    pub fn name(self) -> (r: &'static str)
        ensures
            r@ == (match self {
                Lane::Interactive => "interactive"@,
                Lane::Poll => "poll"@,
                Lane::Long => "long"@,
            }),
    {
        match self {
            Lane::Interactive => "interactive",
            Lane::Poll => "poll",
            Lane::Long => "long",
        }
    }
}

/// The lane that a thread's commands run in.
#[derive(Clone, Copy, Debug, PartialEq, Eq, Structural)]
pub struct ThreadLane {
    pub lane: Lane,
}

impl ThreadLane {
    /// A thread begins in the interactive lane.
    pub fn new() -> (r: ThreadLane)
        ensures
            r.lane == Lane::Interactive,
    {
        ThreadLane { lane: Lane::Interactive }
    }
}

/// The lane that a thread is in.
pub fn current_lane(thread: &ThreadLane) -> (r: Lane)
    ensures
        r == thread.lane,
{
    thread.lane
}

/// Runs `f` in another lane, and returns to the one before.
pub fn with_lane<R, F: FnOnce(ThreadLane) -> R>(thread: &mut ThreadLane, lane: Lane, f: F) -> (r: R)
    requires
        f.requires((ThreadLane { lane },)),
    ensures
        *final(thread) == *old(thread),
        f.ensures((ThreadLane { lane },), r),
{
    let previous: Lane = thread.lane;
    thread.lane = lane;
    let result: R = f(*thread);
    thread.lane = previous;
    result
}

/// A command to run.
#[derive(Clone, Debug, PartialEq, Eq)]
pub struct CommandSpec {
    pub program: String,
    pub args: Vec<String>,
    pub cwd: Option<String>,
    pub env: Vec<(String, String)>,
    /// Milliseconds after which the command is given up.
    pub timeout_ms: Option<u64>,
    pub lane: Lane,
    /// The command's name in logs, in place of the program's.
    pub label: Option<String>,
    /// The commands that are called off together.
    pub scope: Option<u64>,
}

/// A [`CommandSpec`] with its texts as sequences.
pub struct CommandModel {
    pub program: Seq<char>,
    pub args: Seq<Seq<char>>,
    pub cwd: Option<Seq<char>>,
    pub env: Seq<(Seq<char>, Seq<char>)>,
    pub timeout_ms: Option<u64>,
    pub lane: Lane,
    pub label: Option<Seq<char>>,
    pub scope: Option<u64>,
}

impl DeepView for CommandSpec {
    type V = CommandModel;

    open spec fn deep_view(&self) -> CommandModel {
        CommandModel {
            program: self.program@,
            args: self.args.deep_view(),
            cwd: self.cwd.deep_view(),
            env: self.env.deep_view(),
            timeout_ms: self.timeout_ms,
            lane: self.lane,
            label: self.label.deep_view(),
            scope: self.scope,
        }
    }
}

/// A program in a lane, with nothing else said of it yet.
pub open spec fn bare_command(program: Seq<char>, lane: Lane) -> CommandModel {
    CommandModel {
        program,
        args: Seq::empty(),
        cwd: None,
        env: Seq::empty(),
        timeout_ms: None,
        lane,
        label: None,
        scope: None,
    }
}

impl CommandSpec {
    /// A program without arguments, in the lane that the thread is in.
    pub fn new(program: &str, thread: &ThreadLane) -> (r: CommandSpec)
        ensures
            r.deep_view() == bare_command(program@, thread.lane),
    {
        let r: CommandSpec = CommandSpec {
            program: program.to_owned(),
            args: Vec::new(),
            cwd: None,
            env: Vec::new(),
            timeout_ms: None,
            lane: thread.lane,
            label: None,
            scope: None,
        };
        assert(r.deep_view().args == bare_command(program@, thread.lane).args);
        assert(r.deep_view().env == bare_command(program@, thread.lane).env);
        r
    }

    /// With one more argument.
    pub fn arg(self, arg: &str) -> (r: CommandSpec)
        ensures
            r.deep_view() == (CommandModel {
                args: self.deep_view().args.push(arg@),
                ..self.deep_view()
            }),
    {
        let mut r: CommandSpec = self;
        let ghost before = r.args.deep_view();
        r.args.push(arg.to_owned());
        assert(r.args.deep_view() == before.push(arg@));
        r
    }

    /// With more arguments.
    pub fn args(self, args: &Vec<String>) -> (r: CommandSpec)
        ensures
            r.deep_view() == (CommandModel {
                args: self.deep_view().args + args.deep_view(),
                ..self.deep_view()
            }),
    {
        let mut r: CommandSpec = self;
        let ghost start = r.args.deep_view();
        let ghost more = args.deep_view();
        let mut i: usize = 0;
        assert(start + more.take(0) == start);
        while i < args.len()
            invariant
                i <= args@.len(),
                more == args.deep_view(),
                r.args.deep_view() == start + more.take(i as int),
                r.deep_view() == (CommandModel { args: r.args.deep_view(), ..self.deep_view() }),
            decreases args@.len() - i,
        {
            let ghost before = r.args.deep_view();
            r.args.push(args[i].clone());
            assert(r.args.deep_view() == before.push(more[i as int]));
            assert(start + more.take(i + 1) == (start + more.take(i as int)).push(more[i as int]));
            i = i + 1;
        }
        assert(more.take(more.len() as int) == more);
        r
    }

    /// To be run in a directory.
    pub fn current_dir(self, dir: &str) -> (r: CommandSpec)
        ensures
            r.deep_view() == (CommandModel { cwd: Some(dir@), ..self.deep_view() }),
    {
        let mut r: CommandSpec = self;
        r.cwd = Some(dir.to_owned());
        r
    }

    /// With one more variable in its environment.
    pub fn env(self, key: &str, value: &str) -> (r: CommandSpec)
        ensures
            r.deep_view() == (CommandModel {
                env: self.deep_view().env.push((key@, value@)),
                ..self.deep_view()
            }),
    {
        let mut r: CommandSpec = self;
        let ghost before = r.env.deep_view();
        r.env.push((key.to_owned(), value.to_owned()));
        assert(r.env.deep_view() == before.push((key@, value@)));
        r
    }

    /// To be given up after some milliseconds.
    pub fn timeout(self, timeout_ms: u64) -> (r: CommandSpec)
        ensures
            r.deep_view() == (CommandModel { timeout_ms: Some(timeout_ms), ..self.deep_view() }),
    {
        let mut r: CommandSpec = self;
        r.timeout_ms = Some(timeout_ms);
        r
    }

    /// In another lane.
    pub fn lane(self, lane: Lane) -> (r: CommandSpec)
        ensures
            r.deep_view() == (CommandModel { lane, ..self.deep_view() }),
    {
        let mut r: CommandSpec = self;
        r.lane = lane;
        r
    }

    /// With another name in logs.
    pub fn label(self, label: &str) -> (r: CommandSpec)
        ensures
            r.deep_view() == (CommandModel { label: Some(label@), ..self.deep_view() }),
    {
        let mut r: CommandSpec = self;
        r.label = Some(label.to_owned());
        r
    }

    /// Called off together with the other commands of a scope.
    pub fn scope(self, scope: u64) -> (r: CommandSpec)
        ensures
            r.deep_view() == (CommandModel { scope: Some(scope), ..self.deep_view() }),
    {
        let mut r: CommandSpec = self;
        r.scope = Some(scope);
        r
    }

    /// The same command once more.
    pub fn copy(&self) -> (r: CommandSpec)
        ensures
            r.deep_view() == self.deep_view(),
    {
        let mut r: CommandSpec = CommandSpec {
            program: self.program.clone(),
            args: Vec::new(),
            cwd: self.cwd.clone(),
            env: Vec::new(),
            timeout_ms: self.timeout_ms,
            lane: self.lane,
            label: self.label.clone(),
            scope: self.scope,
        };
        assert(r.args.deep_view() + self.args.deep_view() == self.args.deep_view());
        r = r.args(&self.args);
        let ghost model = self.env.deep_view();
        let mut i: usize = 0;
        while i < self.env.len()
            invariant
                i <= self.env@.len(),
                model == self.env.deep_view(),
                r.env.deep_view() == model.take(i as int),
                r.deep_view() == (CommandModel { env: r.env.deep_view(), ..self.deep_view() }),
            decreases self.env@.len() - i,
        {
            assert(model.take(i + 1) == model.take(i as int).push(model[i as int]));
            assert(model[i as int] == (self.env@[i as int].0@, self.env@[i as int].1@));
            r = r.env(self.env[i].0.as_str(), self.env[i].1.as_str());
            i = i + 1;
        }
        assert(model.take(model.len() as int) == model);
        r
    }

    /// The command's name in logs.
    pub fn audit_label(&self) -> (r: String)
        ensures
            r@ == (match self.label.deep_view() {
                Some(label) => label,
                None => self.program@,
            }),
    {
        match &self.label {
            Some(label) => label.clone(),
            None => self.program.clone(),
        }
    }
}

/// What a command left behind.
#[derive(Clone, Debug, PartialEq, Eq)]
pub struct CommandOutput {
    /// Its exit code; `None` where a signal ended it.
    pub code: Option<i32>,
    pub stdout: Vec<u8>,
    pub stderr: Vec<u8>,
}

impl CommandOutput {
    /// Whether the command reported success.
    pub fn success(&self) -> (r: bool)
        ensures
            r == (self.code == Some(0i32)),
    {
        match self.code {
            Some(code) => code == 0,
            None => false,
        }
    }
}

/// The systems that open pages in different ways.
#[derive(Clone, Copy, Debug, PartialEq, Eq, Structural)]
pub enum System {
    Linux,
    Mac,
    Windows,
}

/// The command that opens a page in the user's browser.
pub open spec fn opener_model(system: System, url: Seq<char>) -> CommandModel {
    match system {
        System::Linux => CommandModel { args: seq![url], ..bare_command("xdg-open"@, Lane::Interactive) },
        System::Mac => CommandModel { args: seq![url], ..bare_command("open"@, Lane::Interactive) },
        System::Windows => CommandModel {
            args: seq!["/C"@, "start"@, ""@, url],
            ..bare_command("cmd"@, Lane::Interactive)
        },
    }
}

/// The command that opens a page in the user's browser.
pub fn open_url(system: System, url: &str) -> (r: CommandSpec)
    ensures
        r.deep_view() == opener_model(system, url@),
{
    let thread: ThreadLane = ThreadLane::new();
    let r: CommandSpec = match system {
        System::Linux => CommandSpec::new("xdg-open", &thread).arg(url),
        System::Mac => CommandSpec::new("open", &thread).arg(url),
        System::Windows => CommandSpec::new("cmd", &thread).arg("/C").arg("start").arg("").arg(
            url,
        ),
    };
    assert(r.deep_view().args == opener_model(system, url@).args);
    r
}

/// The limit of open files to set: the hard one, where the soft one is below.
pub fn raise_fd_limit(soft: u64, hard: u64) -> (r: Option<u64>)
    ensures
        r == (if soft < hard {
            Some(hard)
        } else {
            None
        }),
{
    if soft >= hard {
        None
    } else {
        Some(hard)
    }
}

// ---------------------------------------------------------------------------
// Laws
// ---------------------------------------------------------------------------

/// An address is opened with the opener of the system, which is handed the address as
/// it is; two addresses are never opened alike.
pub proof fn addresses_are_handed_over(system: System, a: Seq<char>, b: Seq<char>)
    ensures
        opener_model(system, a).args.last() == a,
        opener_model(system, a) == opener_model(system, b) ==> a == b,
        opener_model(system, a).lane == Lane::Interactive,
{
    assert(opener_model(system, a).args.last() == a);
    assert(opener_model(system, b).args.last() == b);
}

/// Each system has its own opener.
pub proof fn systems_have_their_own_opener(url: Seq<char>)
    ensures
        opener_model(System::Linux, url).program == "xdg-open"@,
        opener_model(System::Mac, url).program == "open"@,
        opener_model(System::Windows, url).program == "cmd"@,
        opener_model(System::Linux, url).args == seq![url],
        opener_model(System::Mac, url).args == seq![url],
{
}

} // verus!
