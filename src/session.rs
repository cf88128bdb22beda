use vstd::prelude::*;

use crate::ignore::{all_valid, any_matches, builds, globs_compile, IgnoreError, IgnoreMatcher};
use crate::language::{classify, detect_project_language, has_entry, Language};
use crate::text::views_of;
use crate::paths::{rel_to_root, relative_path};
use crate::runner::{resolve_test_command, test_command_of, TestInvocation};

verus! {

/// What a step of the watch loop decided, without its data.
#[derive(Debug, Clone, Copy, PartialEq, Eq, Structural)]
pub enum StepKind {
    Idle,
    Deferred,
    Changed,
    Run,
}

/// What the watch loop is to do after an event.
#[derive(Debug, Clone)]
pub enum Reaction {
    /// Nothing: every changed path was ignored, or the run ended with no
    /// change recorded meanwhile.
    Idle,
    /// Relevant paths changed while a run is in flight; recorded for one
    /// follow-up run.
    Deferred { count: usize },
    /// Relevant paths changed, but the project kind has no test command.
    Changed { count: usize },
    /// Relevant paths changed: report the count and run the command.
    Run { count: usize, invocation: TestInvocation },
}

impl Reaction {
    pub open spec fn kind(&self) -> StepKind {
        match self {
            Reaction::Idle => StepKind::Idle,
            Reaction::Deferred { .. } => StepKind::Deferred,
            Reaction::Changed { .. } => StepKind::Changed,
            Reaction::Run { .. } => StepKind::Run,
        }
    }
}

/// Adds without passing the largest `usize`.
pub open spec fn saturating(a: nat, b: nat) -> nat {
    if a + b > usize::MAX {
        usize::MAX as nat
    } else {
        a + b
    }
}

/// The run state `(running, pending)` after a batch with `n` relevant paths,
/// and what is decided. At most one run is ever in flight: a batch that comes
/// while one runs is recorded, never started.
pub open spec fn after_change(st: (bool, nat), has_command: bool, n: nat) -> ((bool, nat), StepKind) {
    if n == 0 {
        (st, StepKind::Idle)
    } else if st.0 {
        ((true, saturating(st.1, n)), StepKind::Deferred)
    } else if !has_command {
        (st, StepKind::Changed)
    } else {
        ((true, 0), StepKind::Run)
    }
}

/// The run state after the child process exits: one follow-up run when
/// changes were recorded meanwhile, else back to idle.
pub open spec fn after_finish(st: (bool, nat)) -> ((bool, nat), StepKind) {
    if st.1 > 0 {
        ((true, 0), StepKind::Run)
    } else {
        ((false, 0), StepKind::Idle)
    }
}

/// The run state after a sequence of batches, given their relevant counts.
pub open spec fn after_changes(st: (bool, nat), has_command: bool, ns: Seq<nat>) -> (bool, nat)
    decreases ns.len(),
{
    if ns.len() == 0 {
        st
    } else {
        after_change(after_changes(st, has_command, ns.drop_last()), has_command, ns.last()).0
    }
}

/// How many runs a sequence of batches starts.
pub open spec fn runs_started(st: (bool, nat), has_command: bool, ns: Seq<nat>) -> nat
    decreases ns.len(),
{
    if ns.len() == 0 {
        0
    } else {
        let prev = after_changes(st, has_command, ns.drop_last());
        runs_started(st, has_command, ns.drop_last()) + if after_change(
            prev,
            has_command,
            ns.last(),
        ).1 == StepKind::Run {
            1nat
        } else {
            0nat
        }
    }
}

/// The paths of a batch that are not ignored, in order.
pub open spec fn relevant_paths(root: Seq<char>, patterns: Seq<Seq<char>>, paths: Seq<Seq<char>>) -> Seq<
    Seq<char>,
>
    decreases paths.len(),
{
    if paths.len() == 0 {
        Seq::empty()
    } else {
        let init = relevant_paths(root, patterns, paths.drop_last());
        if any_matches(patterns, rel_to_root(root, paths.last())) {
            init
        } else {
            init.push(paths.last())
        }
    }
}

/// One watch session: the root, its ignore set, the project kind found once
/// at start and its test command, and the run state.
pub struct WatchSession {
    root: String,
    ignore: IgnoreMatcher,
    language: Language,
    invocation: Option<TestInvocation>,
    running: bool,
    pending: usize,
}

impl WatchSession {
    pub closed spec fn root(&self) -> Seq<char> {
        self.root@
    }

    pub closed spec fn patterns(&self) -> Seq<Seq<char>> {
        self.ignore.patterns()
    }

    pub closed spec fn kind(&self) -> Language {
        self.language
    }

    pub closed spec fn command(&self) -> Option<(Seq<char>, Seq<Seq<char>>)> {
        match self.invocation {
            Some(inv) => Some(inv@),
            None => None,
        }
    }

    /// The run state: whether a run is in flight, and how many relevant
    /// paths changed since it started.
    pub closed spec fn state(&self) -> (bool, nat) {
        (self.running, self.pending as nat)
    }

    pub open spec fn has_command(&self) -> bool {
        self.command() is Some
    }

    pub open spec fn relevant(&self, paths: Seq<Seq<char>>) -> Seq<Seq<char>> {
        relevant_paths(self.root(), self.patterns(), paths)
    }

    pub open spec fn wf(&self) -> bool {
        &&& self.command() == test_command_of(self.kind())
        &&& self.state().0 ==> self.has_command()
        &&& self.state().1 > 0 ==> self.state().0
    }

    /// Starts a session: compiles the ignore globs, failing on a malformed
    /// one or on a set that does not compile (never on an empty set), then classifies the root once and resolves its test command.
    pub fn start(root: String, entries: &Vec<String>, ignore_globs: &Vec<String>) -> (r: Result<
        WatchSession,
        IgnoreError,
    >)
        ensures
            r matches Ok(s) ==> {
                &&& s.wf()
                &&& s.root() == root@
                &&& s.patterns() == views_of(ignore_globs@)
                &&& s.kind() == classify(views_of(entries@))
                &&& s.state() == (false, 0nat)
            },
            (exists|i: int|
                0 <= i < ignore_globs@.len() && !crate::ignore::glob_is_valid(
                    #[trigger] ignore_globs@[i]@,
                )) <==> r matches Err(IgnoreError::InvalidPattern(_)),
            r is Ok <==> builds(views_of(ignore_globs@)),
            ignore_globs@.len() == 0 ==> r is Ok,
            r matches Err(IgnoreError::Build) ==> all_valid(views_of(ignore_globs@)) && !globs_compile(
                views_of(ignore_globs@),
            ),
    {
        let ignore = match IgnoreMatcher::new(ignore_globs) {
            Ok(m) => m,
            Err(e) => {
                return Err(e);
            },
        };
        let language = detect_project_language(entries);
        let invocation = resolve_test_command(language);
        Ok(WatchSession { root, ignore, language, invocation, running: false, pending: 0 })
    }

    /// The project kind found at start.
    pub fn language(&self) -> (r: Language)
        ensures
            r == self.kind(),
    {
        self.language
    }

    /// Whether a test run is in flight.
    pub fn is_running(&self) -> (r: bool)
        ensures
            r == self.state().0,
    {
        self.running
    }

    /// The changed paths that are not ignored, in order.
    pub fn impacted_paths(&self, paths: &Vec<String>) -> (r: Vec<String>)
        ensures
            views_of(r@) == self.relevant(views_of(paths@)),
    {
        let mut out: Vec<String> = Vec::new();
        let mut i: usize = 0;
        while i < paths.len()
            invariant
                0 <= i <= paths@.len(),
                views_of(out@) == self.relevant(views_of(paths@).take(i as int)),
            decreases paths@.len() - i,
        {
            let rel = relative_path(self.root.as_str(), paths[i].as_str());
            let ignored = self.ignore.is_suppressed(rel.as_str());
            proof {
                let ps = views_of(paths@);
                assert(ps.take(i + 1).drop_last() =~= ps.take(i as int));
                assert(ps.take(i + 1).last() == paths@[i as int]@);
            }
            if !ignored {
                out.push(paths[i].clone());
                assert(views_of(out@) =~= self.relevant(views_of(paths@).take(i as int)).push(
                    paths@[i as int]@,
                ));
            }
            i = i + 1;
        }
        assert(views_of(paths@).take(i as int) =~= views_of(paths@));
        out
    }

    /// Decides on a batch that has `n` relevant paths: run the test command
    /// now, record the change for the run in flight, report it when there is
    /// no command, or do nothing when `n` is zero.
    pub fn on_relevant_changes(&mut self, n: usize) -> (r: Reaction)
        requires
            old(self).wf(),
        ensures
            final(self).wf(),
            final(self).root() == old(self).root(),
            final(self).patterns() == old(self).patterns(),
            final(self).kind() == old(self).kind(),
            ({
                let (st, k) = after_change(old(self).state(), old(self).has_command(), n as nat);
                &&& final(self).state() == st
                &&& r.kind() == k
                &&& r matches Reaction::Deferred { count } ==> count == n
                &&& r matches Reaction::Changed { count } ==> count == n
                &&& r matches Reaction::Run { count, invocation } ==> count == n && old(
                    self,
                ).command() == Some(invocation@)
            }),
    {
        if n == 0 {
            return Reaction::Idle;
        }
        if self.running {
            self.pending = self.pending.saturating_add(n);
            return Reaction::Deferred { count: n };
        }
        match &self.invocation {
            None => Reaction::Changed { count: n },
            Some(inv) => {
                let invocation = inv.duplicate();
                self.running = true;
                self.pending = 0;
                Reaction::Run { count: n, invocation }
            },
        }
    }

    /// Handles one change batch: filters its paths through the ignore set,
    /// then decides on the relevant ones.
    pub fn on_change(&mut self, paths: &Vec<String>) -> (r: Reaction)
        requires
            old(self).wf(),
        ensures
            final(self).wf(),
            final(self).root() == old(self).root(),
            final(self).patterns() == old(self).patterns(),
            final(self).kind() == old(self).kind(),
            ({
                let n = old(self).relevant(views_of(paths@)).len();
                let (st, k) = after_change(old(self).state(), old(self).has_command(), n);
                &&& final(self).state() == st
                &&& r.kind() == k
                &&& r matches Reaction::Deferred { count } ==> count == n
                &&& r matches Reaction::Changed { count } ==> count == n
                &&& r matches Reaction::Run { count, invocation } ==> count == n && old(
                    self,
                ).command() == Some(invocation@)
            }),
    {
        let impacted = self.impacted_paths(paths);
        self.on_relevant_changes(impacted.len())
    }

    /// Handles the exit of the test process: starts one follow-up run when
    /// relevant changes were recorded during the run, else goes idle.
    pub fn on_run_finished(&mut self) -> (r: Reaction)
        requires
            old(self).wf(),
            old(self).state().0,
        ensures
            final(self).wf(),
            final(self).root() == old(self).root(),
            final(self).patterns() == old(self).patterns(),
            final(self).kind() == old(self).kind(),
            ({
                let (st, k) = after_finish(old(self).state());
                &&& final(self).state() == st
                &&& r.kind() == k
                &&& r matches Reaction::Run { count, invocation } ==> count == old(
                    self,
                ).state().1 && old(self).command() == Some(invocation@)
            }),
    {
        let n = self.pending;
        self.pending = 0;
        if n == 0 {
            self.running = false;
            return Reaction::Idle;
        }
        match &self.invocation {
            Some(inv) => {
                let invocation = inv.duplicate();
                Reaction::Run { count: n, invocation }
            },
            None => {
                self.running = false;
                Reaction::Idle
            },
        }
    }
}

/// Each path of a batch is forwarded if and only if it is not ignored: an
/// ignored path never reaches the test run, and a batch starts a run exactly
/// when some path in it is not ignored and the session is idle with a test
/// command.
pub proof fn lemma_ignored_paths_never_forwarded(
    root: Seq<char>,
    patterns: Seq<Seq<char>>,
    paths: Seq<Seq<char>>,
    st: (bool, nat),
    has_command: bool,
)
    ensures
        forall|p: Seq<char>|
            #[trigger] relevant_paths(root, patterns, paths).contains(p) <==> (paths.contains(p)
                && !any_matches(patterns, rel_to_root(root, p))),
        relevant_paths(root, patterns, paths).len() == 0 <==> forall|i: int|
            0 <= i < paths.len() ==> any_matches(patterns, rel_to_root(root, #[trigger] paths[i])),
        after_change(st, has_command, relevant_paths(root, patterns, paths).len()).1
            == StepKind::Run <==> (!st.0 && has_command && exists|i: int|
            0 <= i < paths.len() && !any_matches(patterns, rel_to_root(root, #[trigger] paths[i]))),
    decreases paths.len(),
{
    if paths.len() > 0 {
        lemma_ignored_paths_never_forwarded(root, patterns, paths.drop_last(), st, has_command);
        let init = relevant_paths(root, patterns, paths.drop_last());
        assert forall|p: Seq<char>|
            #[trigger] relevant_paths(root, patterns, paths).contains(p) <==> (paths.contains(p)
                && !any_matches(patterns, rel_to_root(root, p))) by {
            if paths.contains(p) && !any_matches(patterns, rel_to_root(root, p)) {
                let k = choose|k: int| 0 <= k < paths.len() && paths[k] == p;
                if k < paths.len() - 1 {
                    assert(paths.drop_last()[k] == p);
                    assert(paths.drop_last().contains(p));
                    assert(init.contains(p));
                    let m = choose|m: int| 0 <= m < init.len() && init[m] == p;
                    if !any_matches(patterns, rel_to_root(root, paths.last())) {
                        assert(relevant_paths(root, patterns, paths) == init.push(paths.last()));
                        assert(init.push(paths.last())[m] == p);
                    }
                    assert(relevant_paths(root, patterns, paths)[m] == p);
                } else {
                    assert(relevant_paths(root, patterns, paths) == init.push(p));
                    assert(init.push(p)[init.len() as int] == p);
                }
            }
            if relevant_paths(root, patterns, paths).contains(p) {
                if init.contains(p) {
                    assert(paths.drop_last().contains(p));
                    let k = choose|k: int| 0 <= k < paths.drop_last().len() && paths.drop_last()[k]
                        == p;
                    assert(paths[k] == p);
                    assert(!any_matches(patterns, rel_to_root(root, p)));
                } else {
                    let k = choose|k: int|
                        0 <= k < relevant_paths(root, patterns, paths).len() && relevant_paths(
                            root,
                            patterns,
                            paths,
                        )[k] == p;
                    assert(relevant_paths(root, patterns, paths) == init.push(paths.last()));
                    if k < init.len() {
                        assert(init[k] == p);
                    }
                    assert(paths[paths.len() - 1] == p);
                }
            }
        }
        if relevant_paths(root, patterns, paths).len() == 0 {
            assert forall|i: int| 0 <= i < paths.len() implies any_matches(
                patterns,
                rel_to_root(root, #[trigger] paths[i]),
            ) by {
                if i < paths.len() - 1 {
                    assert(paths.drop_last()[i] == paths[i]);
                }
            }
        } else {
            let q = relevant_paths(root, patterns, paths)[0];
            assert(relevant_paths(root, patterns, paths).contains(q));
            let k = choose|k: int| 0 <= k < paths.len() && paths[k] == q;
            assert(!any_matches(patterns, rel_to_root(root, paths[k])));
        }
    }
}

/// At most one run is in flight: while a run goes on, any number of batches
/// starts no run and leaves the session running; when the run ends, at most
/// one follow-up run starts, and it starts exactly when some batch in between
/// had a relevant path.
pub proof fn lemma_at_most_one_in_flight(st: (bool, nat), has_command: bool, ns: Seq<nat>)
    requires
        st.0,
        st.1 == 0,
    ensures
        runs_started(st, has_command, ns) == 0,
        after_changes(st, has_command, ns).0,
        after_finish(after_changes(st, has_command, ns)).1 == StepKind::Run <==> exists|i: int|
            0 <= i < ns.len() && #[trigger] ns[i] > 0,
        after_finish(after_changes(st, has_command, ns)).1 == StepKind::Run ==> after_finish(
            after_changes(st, has_command, ns),
        ).0 == (true, 0nat),
    decreases ns.len(),
{
    if ns.len() > 0 {
        lemma_at_most_one_in_flight(st, has_command, ns.drop_last());
        let prev = after_changes(st, has_command, ns.drop_last());
        if exists|i: int| 0 <= i < ns.drop_last().len() && #[trigger] ns.drop_last()[i] > 0 {
            let i = choose|i: int| 0 <= i < ns.drop_last().len() && #[trigger] ns.drop_last()[i] > 0;
            assert(ns[i] > 0);
        }
        if exists|i: int| 0 <= i < ns.len() && #[trigger] ns[i] > 0 {
            let i = choose|i: int| 0 <= i < ns.len() && #[trigger] ns[i] > 0;
            if i < ns.len() - 1 {
                assert(ns.drop_last()[i] > 0);
            }
        } else {
            assert forall|i: int| 0 <= i < ns.drop_last().len() implies !(#[trigger] ns.drop_last()[i]
                > 0) by {
                assert(ns.drop_last()[i] == ns[i]);
            }
        }
    }
}

/// A session whose project kind has no test command never starts a run,
/// whatever batches come.
pub proof fn lemma_no_command_never_runs(st: (bool, nat), ns: Seq<nat>)
    requires
        !st.0,
    ensures
        runs_started(st, false, ns) == 0,
        after_changes(st, false, ns) == st,
    decreases ns.len(),
{
    if ns.len() > 0 {
        lemma_no_command_never_runs(st, ns.drop_last());
    }
}

/// A root with no marker file is of unknown kind, which has no test command,
/// so a session on it never starts a run, whatever batches come.
pub proof fn lemma_unknown_project_never_runs(entries: Seq<Seq<char>>, ns: Seq<nat>)
    requires
        !has_entry(entries, "pyproject.toml"@),
        !has_entry(entries, "requirements.txt"@),
        !has_entry(entries, "package.json"@),
        !has_entry(entries, "go.mod"@),
        !has_entry(entries, "Cargo.toml"@),
    ensures
        classify(entries) == Language::Unknown,
        test_command_of(classify(entries)) is None,
        runs_started((false, 0nat), false, ns) == 0,
{
    lemma_no_command_never_runs((false, 0nat), ns);
}

/// A batch that has relevant paths, arriving while the session is idle and
/// has a test command, starts exactly one run, reported with the number of
/// relevant paths; the session is then running, so a further batch is
/// recorded rather than started until that run ends.
pub proof fn lemma_relevant_batch_runs_once(s: WatchSession, paths: Seq<Seq<char>>)
    requires
        s.wf(),
        !s.state().0,
        s.has_command(),
        s.relevant(paths).len() >= 1,
    ensures
        after_change(s.state(), true, s.relevant(paths).len()).1 == StepKind::Run,
        after_change(s.state(), true, s.relevant(paths).len()).0 == (true, 0nat),
        forall|n: nat|
            n >= 1 ==> #[trigger] after_change((true, 0nat), true, n).1 == StepKind::Deferred,
{
}

/// With no ignore globs nothing is ignored: every path of a batch is
/// relevant, so an idle session with a test command runs on every batch
/// that has a path.
pub proof fn lemma_empty_ignore_set_watches_everything(
    root: Seq<char>,
    paths: Seq<Seq<char>>,
    st: (bool, nat),
)
    ensures
        relevant_paths(root, Seq::empty(), paths) == paths,
        !st.0 && paths.len() >= 1 ==> after_change(
            st,
            true,
            relevant_paths(root, Seq::empty(), paths).len(),
        ).1 == StepKind::Run,
    decreases paths.len(),
{
    if paths.len() > 0 {
        lemma_empty_ignore_set_watches_everything(root, paths.drop_last(), st);
        assert(!any_matches(Seq::empty(), rel_to_root(root, paths.last())));
        assert(paths.drop_last().push(paths.last()) =~= paths);
    }
}

} // verus!
