//! The lifecycle of a run: discovery, initialisation, the concurrent updates
//! behind their barrier, teardown, exit.
//!
//! The orchestrator decides and does nothing else.  Whoever drives it does
//! what it asks for (loads the modules, calls an entry point, starts a unit
//! of execution, waits for the units) and reports what happened; the
//! orchestrator answers with the next thing to do.

use crate::error::ManagerError;
use vstd::prelude::*;

verus! {

/// The phases of a run, in the only order they can come.
#[derive(Debug, Clone, Copy, PartialEq, Eq, Structural)]
pub enum Phase {
    Discover,
    Initializing,
    Running,
    Draining,
    Terminated,
}

/// How far one module has come.
#[derive(Debug, Clone, Copy, PartialEq, Eq, Structural)]
pub enum Stage {
    /// Found by the loader; `init` has not returned.
    Found,
    /// `init` failed: the module takes no further part.
    Excluded,
    /// `init` succeeded.
    Ready,
    /// Its update unit has been started.
    Updating,
    /// Its update unit has finished.
    Updated,
    /// `end` has returned.
    Ended,
}

/// One module of the run.
#[derive(Debug, Clone, Copy, PartialEq, Eq, Structural)]
pub struct Module {
    /// Whether the module exposes `update`.
    pub has_update: bool,
    pub stage: Stage,
}

/// What the driver is asked to do next.
#[derive(Debug, Clone, Copy, PartialEq, Eq, Structural)]
pub enum Action {
    /// Have the loader enumerate the modules.
    Discover,
    /// Call `init` of this module.
    Init(usize),
    /// Start a unit of execution that calls `update` of this module once.
    StartUpdate(usize),
    /// Wait until every unit that was started has finished.
    AwaitUpdates,
    /// Call `end` of this module.
    End(usize),
    /// Leave: the run is over.
    Exit,
    /// Leave at once: an update unit ended abnormally, which is fatal.
    Abort,
}

/// What the driver reports.
#[derive(Debug)]
pub enum Event {
    /// The loader found these modules, in this order; `true` stands for a
    /// module that exposes `update`.
    Discovered(Vec<bool>),
    /// The `init` that was asked for returned, with success or with an
    /// error, which is `InitializationFailure` unless the module had a more
    /// telling one.
    InitReturned(Result<(), ManagerError>),
    /// The update unit that was asked for has been started.
    UpdateStarted,
    /// Every update unit that was started has finished.
    UpdatesFinished,
    /// An update unit ended abnormally.
    UpdateCrashed,
    /// The `end` that was asked for returned.
    EndReturned,
}

/// An event as the contracts see it; of an `init` that returned, only
/// whether it succeeded.
pub enum Occurrence {
    Discovered(Seq<bool>),
    InitReturned(bool),
    UpdateStarted,
    UpdatesFinished,
    UpdateCrashed,
    EndReturned,
}

impl View for Event {
    type V = Occurrence;

    open spec fn view(&self) -> Occurrence {
        match self {
            Event::Discovered(found) => Occurrence::Discovered(found@),
            Event::InitReturned(outcome) => Occurrence::InitReturned(outcome is Ok),
            Event::UpdateStarted => Occurrence::UpdateStarted,
            Event::UpdatesFinished => Occurrence::UpdatesFinished,
            Event::UpdateCrashed => Occurrence::UpdateCrashed,
            Event::EndReturned => Occurrence::EndReturned,
        }
    }
}

/// The place of a phase in the order of phases.
pub open spec fn phase_rank(phase: Phase) -> nat {
    match phase {
        Phase::Discover => 0,
        Phase::Initializing => 1,
        Phase::Running => 2,
        Phase::Draining => 3,
        Phase::Terminated => 4,
    }
}

/// The place of a stage in the order in which a module passes its stages.
pub open spec fn stage_rank(stage: Stage) -> nat {
    match stage {
        Stage::Found => 0,
        Stage::Excluded => 1,
        Stage::Ready => 1,
        Stage::Updating => 2,
        Stage::Updated => 3,
        Stage::Ended => 4,
    }
}

/// Whether a module in this state is due for the work of `phase`: its `init`
/// while initialising, the start of its update unit while running (if its
/// `init` succeeded and it exposes `update`), its `end` while draining (if its
/// `init` succeeded).
pub open spec fn is_due(module: Module, phase: Phase) -> bool {
    match phase {
        Phase::Initializing => module.stage == Stage::Found,
        Phase::Running => module.stage == Stage::Ready && module.has_update,
        Phase::Draining => module.stage == Stage::Ready || module.stage == Stage::Updated,
        _ => false,
    }
}

/// The first module at or after `from` that is due in `phase`; the number of
/// modules where there is none.
pub open spec fn next_due(modules: Seq<Module>, from: int, phase: Phase) -> int
    decreases modules.len() - from,
{
    if from < 0 || from >= modules.len() {
        modules.len() as int
    } else if is_due(modules[from], phase) {
        from
    } else {
        next_due(modules, from + 1, phase)
    }
}

/// The modules as the loader reported them, none of them initialised yet.
pub open spec fn as_found(flags: Seq<bool>) -> Seq<Module> {
    Seq::new(flags.len(), |i: int| Module { has_update: flags[i], stage: Stage::Found })
}

/// The modules with the stage of module `index` replaced.
pub open spec fn staged(modules: Seq<Module>, index: int, stage: Stage) -> Seq<Module> {
    modules.update(index, Module { stage, ..modules[index] })
}

/// The modules with every running update unit finished.
pub open spec fn all_finished(modules: Seq<Module>) -> Seq<Module> {
    Seq::new(
        modules.len(),
        |i: int|
            if modules[i].stage == Stage::Updating {
                Module { stage: Stage::Updated, ..modules[i] }
            } else {
                modules[i]
            },
    )
}

/// The state of a run, as the contracts see it.
pub struct Lifecycle {
    pub phase: Phase,
    /// The modules in the order of their discovery.
    pub modules: Seq<Module>,
    /// The module that the pending request is about; the number of modules
    /// where it is about none.
    pub cursor: int,
    /// Whether an update unit ended abnormally.
    pub crashed: bool,
}

impl Lifecycle {
    /// The state before anything happened.
    pub open spec fn start() -> Lifecycle {
        Lifecycle { phase: Phase::Discover, modules: Seq::empty(), cursor: 0, crashed: false }
    }

    /// The state on entering `phase`, with the cursor on the first module
    /// that is due.  A phase that works module by module and finds none due
    /// is over as it begins: initialising then gives way to running,
    /// draining to the end of the run.
    pub open spec fn enter(self, phase: Phase) -> Lifecycle {
        let cursor = next_due(self.modules, 0, phase);
        let all_done = cursor == self.modules.len();
        if phase == Phase::Initializing && all_done {
            Lifecycle {
                phase: Phase::Running,
                cursor: next_due(self.modules, 0, Phase::Running),
                ..self
            }
        } else if phase == Phase::Draining && all_done {
            Lifecycle { phase: Phase::Terminated, cursor, ..self }
        } else {
            Lifecycle { phase, cursor, ..self }
        }
    }

    /// The state after the module under the cursor reached `stage`: the
    /// cursor moves to the next module that is due, and where none is left
    /// the phase gives way as in `enter`.
    pub open spec fn advance(self, stage: Stage) -> Lifecycle {
        let modules = staged(self.modules, self.cursor, stage);
        let cursor = next_due(modules, self.cursor + 1, self.phase);
        let all_done = cursor == modules.len();
        if self.phase == Phase::Initializing && all_done {
            Lifecycle { modules, ..self }.enter(Phase::Running)
        } else if self.phase == Phase::Draining && all_done {
            Lifecycle { phase: Phase::Terminated, modules, cursor, ..self }
        } else {
            Lifecycle { modules, cursor, ..self }
        }
    }

    /// The state after `event`.  An event that does not answer the pending
    /// request changes nothing.
    pub open spec fn on(self, event: Occurrence) -> Lifecycle {
        let at_module = self.cursor < self.modules.len();
        match (self.phase, event) {
            (Phase::Discover, Occurrence::Discovered(flags)) => Lifecycle {
                modules: as_found(flags),
                ..self
            }.enter(Phase::Initializing),
            (Phase::Initializing, Occurrence::InitReturned(ok)) => self.advance(
                if ok {
                    Stage::Ready
                } else {
                    Stage::Excluded
                },
            ),
            (Phase::Running, Occurrence::UpdateStarted) => if at_module {
                self.advance(Stage::Updating)
            } else {
                self
            },
            (Phase::Running, Occurrence::UpdatesFinished) => if at_module {
                self
            } else {
                Lifecycle { modules: all_finished(self.modules), ..self }.enter(Phase::Draining)
            },
            (Phase::Running, Occurrence::UpdateCrashed) => Lifecycle {
                phase: Phase::Terminated,
                cursor: self.modules.len() as int,
                crashed: true,
                ..self
            },
            (Phase::Draining, Occurrence::EndReturned) => self.advance(Stage::Ended),
            _ => self,
        }
    }

    /// The request that is pending in this state.
    pub open spec fn pending(self) -> Action {
        match self.phase {
            Phase::Discover => Action::Discover,
            Phase::Initializing => Action::Init(self.cursor as usize),
            Phase::Running => if self.cursor < self.modules.len() {
                Action::StartUpdate(self.cursor as usize)
            } else {
                Action::AwaitUpdates
            },
            Phase::Draining => Action::End(self.cursor as usize),
            Phase::Terminated => if self.crashed {
                Action::Abort
            } else {
                Action::Exit
            },
        }
    }

    /// What holds of every state that a run can reach.
    ///
    /// The cursor stands on a module that is due, or behind the last one.
    /// While initialising, the modules before the cursor have had their
    /// `init` and the others have not.  While running, only a module whose
    /// `init` succeeded and that exposes `update` has an update unit, and
    /// every such module before the cursor has one.  While draining no
    /// update unit is running any more, every module before the cursor whose
    /// `init` succeeded has had its `end`, and no other module has.  A run
    /// that terminated without a crash has ended every module whose `init`
    /// succeeded.
    pub open spec fn wf(self) -> bool {
        let modules = self.modules;
        &&& 0 <= self.cursor <= modules.len()
        &&& modules.len() <= usize::MAX
        &&& self.crashed ==> self.phase == Phase::Terminated
        &&& self.cursor < modules.len() ==> is_due(modules[self.cursor], self.phase)
        &&& forall|i: int|
            0 <= i < self.cursor && i < modules.len() ==> !is_due(#[trigger] modules[i], self.phase)
        &&& match self.phase {
            Phase::Discover => modules.len() == 0,
            Phase::Initializing => {
                &&& self.cursor < modules.len()
                &&& forall|i: int|
                    0 <= i < modules.len() ==> {
                        let stage = (#[trigger] modules[i]).stage;
                        if i < self.cursor {
                            stage == Stage::Ready || stage == Stage::Excluded
                        } else {
                            stage == Stage::Found
                        }
                    }
            },
            Phase::Running => forall|i: int|
                0 <= i < modules.len() ==> {
                    let stage = (#[trigger] modules[i]).stage;
                    &&& stage == Stage::Ready || stage == Stage::Excluded || stage
                        == Stage::Updating
                    &&& stage == Stage::Updating ==> modules[i].has_update && i < self.cursor
                },
            Phase::Draining => {
                &&& self.cursor < modules.len()
                &&& forall|i: int|
                    0 <= i < modules.len() ==> {
                        let stage = (#[trigger] modules[i]).stage;
                        &&& stage == Stage::Excluded || stage == Stage::Ready || stage
                            == Stage::Updated || stage == Stage::Ended
                        &&& stage == Stage::Ended ==> i < self.cursor
                    }
            },
            Phase::Terminated => self.crashed || forall|i: int|
                0 <= i < modules.len() ==> {
                    let stage = (#[trigger] modules[i]).stage;
                    stage == Stage::Excluded || stage == Stage::Ended
                },
        }
    }
}

/// Where `next_due` lands: at or after `from`, on a module that is due or
/// behind the last module, having passed no module that is due.
pub proof fn lemma_next_due(modules: Seq<Module>, from: int, phase: Phase)
    requires
        0 <= from <= modules.len(),
    ensures
        from <= next_due(modules, from, phase) <= modules.len(),
        next_due(modules, from, phase) < modules.len() ==> is_due(
            modules[next_due(modules, from, phase)],
            phase,
        ),
        forall|i: int|
            from <= i < next_due(modules, from, phase) ==> !is_due(#[trigger] modules[i], phase),
    decreases modules.len() - from,
{
    if from < modules.len() && !is_due(modules[from], phase) {
        lemma_next_due(modules, from + 1, phase);
    }
}

/// Every event leaves a reachable state reachable.
pub proof fn lemma_on_keeps_wf(state: Lifecycle, event: Occurrence)
    requires
        state.wf(),
        event matches Occurrence::Discovered(flags) ==> flags.len() <= usize::MAX,
    ensures
        state.on(event).wf(),
{
    let after = state.on(event);
    let modules = state.modules;
    match (state.phase, event) {
        (Phase::Discover, Occurrence::Discovered(flags)) => {
            let found = as_found(flags);
            lemma_next_due(found, 0, Phase::Initializing);
            lemma_next_due(found, 0, Phase::Running);
            if found.len() > 0 {
                assert(is_due(found[0], Phase::Initializing));
            }
        },
        (Phase::Initializing, Occurrence::InitReturned(ok)) => {
            let stage = if ok {
                Stage::Ready
            } else {
                Stage::Excluded
            };
            let next = staged(modules, state.cursor, stage);
            lemma_next_due(next, state.cursor + 1, Phase::Initializing);
            lemma_next_due(next, 0, Phase::Running);
            if state.cursor + 1 < next.len() {
                assert(is_due(next[state.cursor + 1], Phase::Initializing));
            }
        },
        (Phase::Running, Occurrence::UpdateStarted) => {
            if state.cursor < modules.len() {
                let next = staged(modules, state.cursor, Stage::Updating);
                lemma_next_due(next, state.cursor + 1, Phase::Running);
            }
        },
        (Phase::Running, Occurrence::UpdatesFinished) => {
            if state.cursor >= modules.len() {
                let next = all_finished(modules);
                lemma_next_due(next, 0, Phase::Draining);
                assert forall|i: int| 0 <= i < next.len() implies (#[trigger] next[i]).stage
                    != Stage::Ended && next[i].stage != Stage::Updating && next[i].stage
                    != Stage::Found by {
                    assert(modules[i].stage != Stage::Ended);
                }
            }
        },
        (Phase::Draining, Occurrence::EndReturned) => {
            let next = staged(modules, state.cursor, Stage::Ended);
            lemma_next_due(next, state.cursor + 1, Phase::Draining);
            assert forall|i: int| 0 <= i < next.len() implies ({
                let stage = (#[trigger] next[i]).stage;
                &&& stage == Stage::Excluded || stage == Stage::Ready || stage == Stage::Updated
                    || stage == Stage::Ended
                &&& stage == Stage::Ended ==> i <= state.cursor
            }) by {
                assert(modules[i].stage != Stage::Found);
            }
        },
        _ => {},
    }
}

/// A run only moves forward: no event takes it to an earlier phase, and no
/// event takes a module to an earlier stage.  Once the modules are known,
/// their number, their order and what they expose stay.
pub proof fn lemma_on_moves_forward(state: Lifecycle, event: Occurrence)
    requires
        state.wf(),
    ensures
        phase_rank(state.phase) <= phase_rank(state.on(event).phase),
        state.phase != Phase::Discover ==> state.on(event).modules.len() == state.modules.len(),
        forall|i: int|
            0 <= i < state.modules.len() ==> {
                &&& (#[trigger] state.on(event).modules[i]).has_update
                    == state.modules[i].has_update
                &&& stage_rank(state.modules[i].stage) <= stage_rank(
                    state.on(event).modules[i].stage,
                )
            },
{
}

/// The driver's side of a run: it is told what to do and reports what
/// happened.
pub struct Orchestrator {
    phase: Phase,
    modules: Vec<Module>,
    cursor: usize,
    crashed: bool,
}

impl View for Orchestrator {
    type V = Lifecycle;

    closed spec fn view(&self) -> Lifecycle {
        Lifecycle {
            phase: self.phase,
            modules: self.modules@,
            cursor: self.cursor as int,
            crashed: self.crashed,
        }
    }
}

/// Whether `module` is due for the work of `phase`.
fn due(module: &Module, phase: Phase) -> (yes: bool)
    ensures
        yes == is_due(*module, phase),
{
    match phase {
        Phase::Initializing => module.stage == Stage::Found,
        Phase::Running => module.stage == Stage::Ready && module.has_update,
        Phase::Draining => module.stage == Stage::Ready || module.stage == Stage::Updated,
        _ => false,
    }
}

impl Orchestrator {
    /// A run that has not begun: the first request is for discovery.
    pub fn new() -> (orchestrator: Self)
        ensures
            orchestrator@ == Lifecycle::start(),
            orchestrator@.wf(),
    {
        Orchestrator { phase: Phase::Discover, modules: Vec::new(), cursor: 0, crashed: false }
    }

    /// The phase the run is in.
    pub fn phase(&self) -> (phase: Phase)
        ensures
            phase == self@.phase,
    {
        self.phase
    }

    /// The modules of the run, in the order of their discovery.
    pub fn modules(&self) -> (modules: &Vec<Module>)
        ensures
            modules@ == self@.modules,
    {
        &self.modules
    }

    /// The request that is pending.
    pub fn pending(&self) -> (action: Action)
        ensures
            action == self@.pending(),
    {
        match self.phase {
            Phase::Discover => Action::Discover,
            Phase::Initializing => Action::Init(self.cursor),
            Phase::Running => if self.cursor < self.modules.len() {
                Action::StartUpdate(self.cursor)
            } else {
                Action::AwaitUpdates
            },
            Phase::Draining => Action::End(self.cursor),
            Phase::Terminated => if self.crashed {
                Action::Abort
            } else {
                Action::Exit
            },
        }
    }

    /// The first module at or after `from` that is due in `phase`.
    fn seek(&self, from: usize, phase: Phase) -> (at: usize)
        requires
            from <= self.modules@.len(),
        ensures
            at == next_due(self@.modules, from as int, phase),
            at <= self.modules@.len(),
    {
        let mut at = from;
        while at < self.modules.len() && !due(&self.modules[at], phase)
            invariant
                from <= at <= self.modules@.len(),
                next_due(self.modules@, from as int, phase) == next_due(
                    self.modules@,
                    at as int,
                    phase,
                ),
            decreases self.modules@.len() - at,
        {
            at += 1;
        }
        at
    }

    /// Enters `phase` with the cursor on the first module that is due.
    fn enter(&mut self, phase: Phase)
        requires
            phase == Phase::Initializing || phase == Phase::Draining,
        ensures
            final(self)@ == old(self)@.enter(phase),
    {
        let cursor = self.seek(0, phase);
        if cursor == self.modules.len() {
            match phase {
                Phase::Initializing => {
                    self.phase = Phase::Running;
                    self.cursor = self.seek(0, Phase::Running);
                },
                _ => {
                    self.phase = Phase::Terminated;
                    self.cursor = cursor;
                },
            }
        } else {
            self.phase = phase;
            self.cursor = cursor;
        }
    }

    /// Records that the module under the cursor reached `stage` and moves
    /// on.
    fn advance(&mut self, stage: Stage)
        requires
            old(self)@.cursor < old(self)@.modules.len(),
            old(self)@.phase != Phase::Discover,
            old(self)@.phase != Phase::Terminated,
        ensures
            final(self)@ == old(self)@.advance(stage),
    {
        let module = Module { has_update: self.modules[self.cursor].has_update, stage };
        self.modules.set(self.cursor, module);
        assert(self.cursor < self.modules.len());
        let cursor = self.seek(self.cursor + 1, self.phase);
        if cursor == self.modules.len() {
            match self.phase {
                Phase::Initializing => {
                    self.phase = Phase::Running;
                    self.cursor = self.seek(0, Phase::Running);
                },
                Phase::Draining => {
                    self.phase = Phase::Terminated;
                    self.cursor = cursor;
                },
                _ => {
                    self.cursor = cursor;
                },
            }
        } else {
            self.cursor = cursor;
        }
    }

    /// Marks every running update unit as finished.
    fn finish_updates(&mut self)
        ensures
            final(self)@ == (Lifecycle { modules: all_finished(old(self)@.modules), ..old(self)@ }),
    {
        let mut i: usize = 0;
        while i < self.modules.len()
            invariant
                0 <= i <= self.modules@.len(),
                self.modules@.len() == old(self).modules@.len(),
                self.phase == old(self).phase,
                self.cursor == old(self).cursor,
                self.crashed == old(self).crashed,
                forall|k: int|
                    0 <= k < i ==> #[trigger] self.modules@[k] == all_finished(old(self).modules@)[k],
                forall|k: int|
                    i <= k < self.modules@.len() ==> #[trigger] self.modules@[k] == old(
                        self,
                    ).modules@[k],
            decreases self.modules@.len() - i,
        {
            if self.modules[i].stage == Stage::Updating {
                let module = Module {
                    has_update: self.modules[i].has_update,
                    stage: Stage::Updated,
                };
                self.modules.set(i, module);
            }
            i += 1;
        }
        assert(self.modules@ =~= all_finished(old(self).modules@));
    }

    /// Takes in what the driver reports and answers with what to do next.
    /// A report that does not answer the pending request changes nothing,
    /// and the pending request is the answer once more.
    pub fn step(&mut self, event: Event) -> (action: Action)
        requires
            old(self)@.wf(),
        ensures
            final(self)@ == old(self)@.on(event@),
            final(self)@.wf(),
            action == final(self)@.pending(),
    {
        proof {
            if let Event::Discovered(found) = &event {
                assert(found@.len() == found.len());
            }
            lemma_on_keeps_wf(self@, event@);
        }
        let at_module = self.cursor < self.modules.len();
        match (self.phase, event) {
            (Phase::Discover, Event::Discovered(found)) => {
                let mut modules: Vec<Module> = Vec::new();
                let mut i: usize = 0;
                while i < found.len()
                    invariant
                        0 <= i <= found@.len(),
                        modules@.len() == i,
                        forall|k: int|
                            0 <= k < i ==> #[trigger] modules@[k] == as_found(found@)[k],
                    decreases found@.len() - i,
                {
                    modules.push(Module { has_update: found[i], stage: Stage::Found });
                    i += 1;
                }
                assert(modules@ =~= as_found(found@));
                self.modules = modules;
                self.enter(Phase::Initializing);
            },
            (Phase::Initializing, Event::InitReturned(outcome)) => {
                self.advance(
                    match outcome {
                        Ok(()) => Stage::Ready,
                        Err(_) => Stage::Excluded,
                    },
                );
            },
            (Phase::Running, Event::UpdateStarted) => {
                if at_module {
                    self.advance(Stage::Updating);
                }
            },
            (Phase::Running, Event::UpdatesFinished) => {
                if !at_module {
                    self.finish_updates();
                    self.enter(Phase::Draining);
                }
            },
            (Phase::Running, Event::UpdateCrashed) => {
                self.phase = Phase::Terminated;
                self.cursor = self.modules.len();
                self.crashed = true;
            },
            (Phase::Draining, Event::EndReturned) => {
                self.advance(Stage::Ended);
            },
            _ => {},
        }
        self.pending()
    }
}

} // verus!
