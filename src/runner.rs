use vstd::prelude::*;
use vstd::string::StringExecFns;

verus! {

/// The one command line that is run for a fixed window in the background,
/// then killed, in place of being run to completion.
pub const BOUNDED_COMMAND: &'static str = "npm run dev";

/// How long the bounded command is left running before it is killed.
pub const BOUNDED_WINDOW_SECS: u64 = 10;

/// How often the progress indicator redraws while the bounded command runs.
pub const SPINNER_TICK_MILLIS: u64 = 200;

pub open spec fn glyph_spec(tick: nat) -> Seq<char> {
    seq!["|"@, "/"@, "-"@, "\\"@][(tick % 4) as int]
}

/// The indicator's glyph at its `tick`-th redraw: the four glyphs in turn.
pub fn spinner_glyph(tick: usize) -> (r: &'static str)
    ensures
        r@ == glyph_spec(tick as nat),
{
    let k = tick % 4;
    if k == 0 {
        "|"
    } else if k == 1 {
        "/"
    } else if k == 2 {
        "-"
    } else {
        "\\"
    }
}

/// How a command line is run.
#[derive(PartialEq, Eq, Structural, Clone, Copy, Debug)]
pub enum Mode {
    /// Run through the shell to completion; a non-zero exit stops the set.
    Foreground,
    /// Started, left running for a fixed window, then killed; never a failure.
    Bounded,
}

pub open spec fn is_bounded(cmd: Seq<char>) -> bool {
    cmd == BOUNDED_COMMAND@
}

pub open spec fn mode_spec(cmd: Seq<char>) -> Mode {
    if is_bounded(cmd) {
        Mode::Bounded
    } else {
        Mode::Foreground
    }
}

/// The mode for a command line: bounded for exactly the one special command.
pub fn mode_of(cmd: &String) -> (r: Mode)
    ensures
        r == mode_spec(cmd@),
{
    let special = String::from_str(BOUNDED_COMMAND);
    if *cmd == special {
        Mode::Bounded
    } else {
        Mode::Foreground
    }
}

/// What the driver of a run is asked to do next.
#[derive(PartialEq, Eq, Structural, Clone, Copy, Debug)]
pub enum Step {
    /// Run the command at `index` in the given mode, then report how it went.
    Run { index: usize, mode: Mode },
    /// Every command finished: record the run in the log.
    Log,
    /// The command at this index failed: nothing more runs and nothing is logged.
    Halt(usize),
}

/// The progress of one run of a command set.
pub struct Execution {
    pub commands: Vec<String>,
    /// How many commands have finished.
    pub done: usize,
    /// The command that failed, once one has.
    pub failed: Option<usize>,
}

pub struct ExecutionView {
    pub commands: Seq<Seq<char>>,
    pub done: nat,
    pub failed: Option<nat>,
}

impl View for Execution {
    type V = ExecutionView;

    open spec fn view(&self) -> ExecutionView {
        ExecutionView {
            commands: self.commands.deep_view(),
            done: self.done as nat,
            failed: match self.failed {
                Some(i) => Some(i as nat),
                None => None,
            },
        }
    }
}

impl ExecutionView {
    pub open spec fn wf(self) -> bool {
        &&& self.done <= self.commands.len()
        &&& match self.failed {
            Some(i) => i == self.done && i < self.commands.len(),
            None => true,
        }
    }

    /// A command is still to be run.
    pub open spec fn running(self) -> bool {
        self.failed is None && self.done < self.commands.len()
    }

    /// Every command finished.
    pub open spec fn completed(self) -> bool {
        self.failed is None && self.done == self.commands.len()
    }

    pub open spec fn step(self) -> Step {
        match self.failed {
            Some(i) => Step::Halt(i as usize),
            None => if self.done < self.commands.len() {
                Step::Run {
                    index: self.done as usize,
                    mode: mode_spec(self.commands[self.done as int]),
                }
            } else {
                Step::Log
            },
        }
    }

    /// The state once the running command reports; a bounded command counts
    /// as finished whatever it reports. Outside a run nothing changes.
    pub open spec fn record(self, succeeded: bool) -> ExecutionView {
        if !self.running() {
            self
        } else if succeeded || is_bounded(self.commands[self.done as int]) {
            ExecutionView { done: self.done + 1, ..self }
        } else {
            ExecutionView { failed: Some(self.done), ..self }
        }
    }

    /// The state after reporting each outcome of `results` in turn.
    pub open spec fn record_all(self, results: Seq<bool>) -> ExecutionView
        decreases results.len(),
    {
        if results.len() == 0 {
            self
        } else {
            self.record_all(results.drop_last()).record(results.last())
        }
    }
}

/// A fresh run over `commands`: nothing done, nothing failed.
pub open spec fn start(commands: Seq<Seq<char>>) -> ExecutionView {
    ExecutionView { commands, done: 0, failed: None }
}

/// The command at `i` did not stop the run.
pub open spec fn passed(commands: Seq<Seq<char>>, results: Seq<bool>, i: int) -> bool {
    results[i] || is_bounded(commands[i])
}

impl Execution {
    pub fn new(commands: Vec<String>) -> (r: Execution)
        ensures
            r@ == start(commands.deep_view()),
    {
        Execution { commands, done: 0, failed: None }
    }

    /// What to do now.
    pub fn step(&self) -> (r: Step)
        requires
            self@.wf(),
        ensures
            r == self@.step(),
    {
        match self.failed {
            Some(i) => Step::Halt(i),
            None => if self.done < self.commands.len() {
                Step::Run { index: self.done, mode: mode_of(&self.commands[self.done]) }
            } else {
                Step::Log
            },
        }
    }

    /// Reports how the command named by the last `Step::Run` went.
    pub fn record(&mut self, succeeded: bool)
        requires
            old(self)@.wf(),
        ensures
            final(self)@ == old(self)@.record(succeeded),
            final(self)@.wf(),
    {
        if self.failed.is_none() && self.done < self.commands.len() {
            if succeeded || mode_of(&self.commands[self.done]) == Mode::Bounded {
                self.done = self.done + 1;
            } else {
                self.failed = Some(self.done);
            }
        }
    }

    /// The run finished every command, so it is to be logged.
    pub fn should_log(&self) -> (r: bool)
        ensures
            r == self@.completed(),
    {
        self.failed.is_none() && self.done == self.commands.len()
    }
}

/// How many of the reported outcomes a run over `commands` can take in.
pub open spec fn reported(commands: Seq<Seq<char>>, results: Seq<bool>) -> nat {
    if results.len() < commands.len() {
        results.len()
    } else {
        commands.len()
    }
}

/// Reporting outcomes one by one: while every command passes, the run moves
/// one command on per outcome; at the first foreground failure it stops there
/// for good.
pub proof fn lemma_record_all(commands: Seq<Seq<char>>, results: Seq<bool>)
    ensures
        (forall|j: int| 0 <= j < reported(commands, results) ==> passed(commands, results, j))
            ==> start(commands).record_all(results) == (ExecutionView {
            commands,
            done: reported(commands, results),
            failed: None,
        }),
        forall|k: int|
            #![trigger passed(commands, results, k)]
            0 <= k < reported(commands, results) && !passed(commands, results, k) && (forall|
                j: int,
            |
                0 <= j < k ==> passed(commands, results, j)) ==> start(commands).record_all(results)
                == (ExecutionView { commands, done: k as nat, failed: Some(k as nat) }),
    decreases results.len(),
{
    if results.len() > 0 {
        let n = results.len() - 1;
        let pre = results.drop_last();
        lemma_record_all(commands, pre);
        assert(forall|j: int| 0 <= j < n ==> pre[j] == results[j]);
        assert(forall|j: int|
            0 <= j < n ==> passed(commands, pre, j) == passed(commands, results, j));
        let m = reported(commands, results);
        if forall|j: int| 0 <= j < m ==> passed(commands, results, j) {
            assert(forall|j: int|
                0 <= j < reported(commands, pre) ==> passed(commands, pre, j));
            let r0 = start(commands).record_all(pre);
            assert(r0.done == reported(commands, pre) && r0.failed is None);
            if n < commands.len() {
                assert(passed(commands, results, n));
                assert(r0.record(results.last()).done == n + 1);
            }
        }
    }
}

/// A run completes, and so is logged, exactly when each command either
/// succeeded or is the bounded command.
pub proof fn lemma_completes_iff_all_passed(commands: Seq<Seq<char>>, results: Seq<bool>)
    requires
        results.len() == commands.len(),
    ensures
        start(commands).record_all(results).completed() <==> forall|i: int|
            0 <= i < commands.len() ==> passed(commands, results, i),
{
    lemma_record_all(commands, results);
    if !(forall|i: int| 0 <= i < commands.len() ==> passed(commands, results, i)) {
        let k = lemma_first_failure(commands, results, commands.len() as int);
    }
}

/// Where some command up to `m` did not pass, there is a first one.
pub proof fn lemma_first_failure(commands: Seq<Seq<char>>, results: Seq<bool>, m: int) -> (k: int)
    requires
        exists|i: int| 0 <= i < m && !passed(commands, results, i),
    ensures
        0 <= k < m,
        !passed(commands, results, k),
        forall|j: int| 0 <= j < k ==> passed(commands, results, j),
    decreases m,
{
    if exists|i: int| 0 <= i < m - 1 && !passed(commands, results, i) {
        lemma_first_failure(commands, results, m - 1)
    } else {
        m - 1
    }
}

/// A run halts at the first command that fails in the foreground: the
/// commands after it never run, and the run is not logged.
pub proof fn lemma_halts_at_first_failure(commands: Seq<Seq<char>>, results: Seq<bool>, k: int)
    requires
        0 <= k < commands.len(),
        k < results.len(),
        !results[k],
        !is_bounded(commands[k]),
        forall|j: int| 0 <= j < k ==> passed(commands, results, j),
    ensures
        start(commands).record_all(results).failed == Some(k as nat),
        start(commands).record_all(results).done == k,
        !start(commands).record_all(results).completed(),
{
    lemma_record_all(commands, results);
    assert(!passed(commands, results, k));
}

} // verus!
