//! The execution engine.
//!
//! The engine walks the configuration in declared order: for each ecosystem
//! that the selection filter admits it runs the ecosystem's availability
//! check, and for each admitted tool whose executable probe succeeds it
//! applies the tool's environment variables and runs its commands, both in
//! declared order.  Command failures are non-fatal; at the end of the walk
//! every recorded environment mutation is handed back for restoration,
//! last-in first-out.
//!
//! The engine performs no I/O.  It is a state machine: [`Engine::step`]
//! consumes the outcome of the previous action as an [`Event`] and returns
//! the next [`Action`] for the caller to perform.  The whole walk is
//! specified by the pure transition function [`step_spec`], and `step` is
//! proved to follow it exactly, whatever the outside world answers.

use vstd::prelude::*;

use crate::filter::ecosystem_included_v;
use crate::filter::lower_of;
use crate::filter::tool_included_v;
use crate::filter::FilterV;
use crate::filter::SelectionFilter;
use crate::yaml_config::EcosystemEntryV;
use crate::yaml_config::YamlToolsConfig;

verus! {

/// Record of one environment mutation: the key that was overwritten and the
/// value it held before, or `None` if it was absent.  Restoring it sets the
/// key back, or removes it entirely.
pub struct EnvVarBackup {
    pub key: String,
    pub original_value: Option<String>,
}

/// Mathematical image of an [`EnvVarBackup`].
pub struct BackupV {
    pub key: Seq<char>,
    pub original_value: Option<Seq<char>>,
}

impl View for EnvVarBackup {
    type V = BackupV;

    open spec fn view(&self) -> BackupV {
        BackupV { key: self.key@, original_value: self.original_value.deep_view() }
    }
}

impl DeepView for EnvVarBackup {
    type V = BackupV;

    open spec fn deep_view(&self) -> BackupV {
        self@
    }
}

impl EnvVarBackup {
    /// A fresh copy of this record.
    pub fn duplicate(&self) -> (r: EnvVarBackup)
        ensures
            r@ == self@,
    {
        EnvVarBackup {
            key: self.key.clone(),
            original_value: match &self.original_value {
                Some(v) => Some(v.clone()),
                None => None,
            },
        }
    }
}

/// What the engine asks its caller to do next.  Each operation names the
/// ecosystem and tool it belongs to, so the caller can report it.
pub enum Action {
    /// Run the ecosystem's availability check command and report whether it
    /// exited successfully.
    CheckEcosystem { ecosystem: String, command: String },
    /// Look the executable up on the search path and report whether it
    /// resolves.
    ProbeExecutable { ecosystem: String, tool: String, executable: String },
    /// Read the variable's current value, report it, and set the variable
    /// to `value`.
    ApplyEnv { ecosystem: String, tool: String, key: String, value: String },
    /// Run the shell command and report whether it exited successfully.
    RunCommand { ecosystem: String, tool: String, command: String },
    /// The walk is over: restore each record in the given order (the
    /// reverse of application order), then stop.
    Finish { restores: Vec<EnvVarBackup> },
}

/// Mathematical image of an [`Action`].
pub enum ActionV {
    CheckEcosystem { ecosystem: Seq<char>, command: Seq<char> },
    ProbeExecutable { ecosystem: Seq<char>, tool: Seq<char>, executable: Seq<char> },
    ApplyEnv { ecosystem: Seq<char>, tool: Seq<char>, key: Seq<char>, value: Seq<char> },
    RunCommand { ecosystem: Seq<char>, tool: Seq<char>, command: Seq<char> },
    Finish { restores: Seq<BackupV> },
}

impl View for Action {
    type V = ActionV;

    open spec fn view(&self) -> ActionV {
        match self {
            Action::CheckEcosystem { ecosystem, command } => ActionV::CheckEcosystem {
                ecosystem: ecosystem@,
                command: command@,
            },
            Action::ProbeExecutable { ecosystem, tool, executable } => ActionV::ProbeExecutable {
                ecosystem: ecosystem@,
                tool: tool@,
                executable: executable@,
            },
            Action::ApplyEnv { ecosystem, tool, key, value } => ActionV::ApplyEnv {
                ecosystem: ecosystem@,
                tool: tool@,
                key: key@,
                value: value@,
            },
            Action::RunCommand { ecosystem, tool, command } => ActionV::RunCommand {
                ecosystem: ecosystem@,
                tool: tool@,
                command: command@,
            },
            Action::Finish { restores } => ActionV::Finish { restores: restores.deep_view() },
        }
    }
}

/// The caller's report on the action the engine handed out last.
pub enum Event {
    /// The first call of a run carries no outcome.
    Start,
    /// Outcome of `CheckEcosystem`.
    CheckResult { ok: bool },
    /// Outcome of `ProbeExecutable`.
    ProbeResult { ok: bool },
    /// Outcome of `ApplyEnv`: the value the key held before, or `None` if
    /// it was absent.
    EnvApplied { prior: Option<String> },
    /// Outcome of `RunCommand`.
    CmdResult { ok: bool },
}

/// Mathematical image of an [`Event`].
pub enum EventV {
    Start,
    CheckResult { ok: bool },
    ProbeResult { ok: bool },
    EnvApplied { prior: Option<Seq<char>> },
    CmdResult { ok: bool },
}

impl View for Event {
    type V = EventV;

    open spec fn view(&self) -> EventV {
        match self {
            Event::Start => EventV::Start,
            Event::CheckResult { ok } => EventV::CheckResult { ok: *ok },
            Event::ProbeResult { ok } => EventV::ProbeResult { ok: *ok },
            Event::EnvApplied { prior } => EventV::EnvApplied { prior: prior.deep_view() },
            Event::CmdResult { ok } => EventV::CmdResult { ok: *ok },
        }
    }
}

/// A skip decision the engine took silently while scanning, so the caller
/// can log it.
pub enum Note {
    /// The ecosystem stood on the exclusion list.
    IgnoredEcosystem { ecosystem: String },
    /// The tool's `skip` flag was set, or its name stood on the ignore
    /// list.
    SkippedTool { ecosystem: String, tool: String },
}

/// Mathematical image of a [`Note`].
pub enum NoteV {
    IgnoredEcosystem { ecosystem: Seq<char> },
    SkippedTool { ecosystem: Seq<char>, tool: Seq<char> },
}

impl View for Note {
    type V = NoteV;

    open spec fn view(&self) -> NoteV {
        match self {
            Note::IgnoredEcosystem { ecosystem } => NoteV::IgnoredEcosystem {
                ecosystem: ecosystem@,
            },
            Note::SkippedTool { ecosystem, tool } => NoteV::SkippedTool {
                ecosystem: ecosystem@,
                tool: tool@,
            },
        }
    }
}

impl DeepView for Note {
    type V = NoteV;

    open spec fn deep_view(&self) -> NoteV {
        self@
    }
}

/// Where the engine stands in the walk, and what outcome it awaits.
#[derive(Clone, Copy)]
pub enum Mode {
    /// Before the first step of the run.
    AwaitStart,
    /// The availability check of ecosystem `e` is out.
    AwaitCheck { e: usize },
    /// The executable probe of tool `t` of ecosystem `e` is out.
    AwaitProbe { e: usize, t: usize },
    /// The assignment of variable `v` of tool `t` of ecosystem `e` is out.
    AwaitEnv { e: usize, t: usize, v: usize },
    /// Command `c` of tool `t` of ecosystem `e` is out.
    AwaitCmd { e: usize, t: usize, c: usize },
    /// The walk is over and the restore list has been handed out.
    Done,
}

/// Mathematical image of a [`Mode`].
pub enum ModeV {
    AwaitStart,
    AwaitCheck { e: nat },
    AwaitProbe { e: nat, t: nat },
    AwaitEnv { e: nat, t: nat, v: nat },
    AwaitCmd { e: nat, t: nat, c: nat },
    Done,
}

impl View for Mode {
    type V = ModeV;

    open spec fn view(&self) -> ModeV {
        match *self {
            Mode::AwaitStart => ModeV::AwaitStart,
            Mode::AwaitCheck { e } => ModeV::AwaitCheck { e: e as nat },
            Mode::AwaitProbe { e, t } => ModeV::AwaitProbe { e: e as nat, t: t as nat },
            Mode::AwaitEnv { e, t, v } => ModeV::AwaitEnv {
                e: e as nat,
                t: t as nat,
                v: v as nat,
            },
            Mode::AwaitCmd { e, t, c } => ModeV::AwaitCmd {
                e: e as nat,
                t: t as nat,
                c: c as nat,
            },
            Mode::Done => ModeV::Done,
        }
    }
}

/// The engine's full mathematical state.
pub struct StateV {
    pub config: Seq<EcosystemEntryV>,
    pub filter: FilterV,
    pub mode: ModeV,
    pub backups: Seq<BackupV>,
}

/// The terminal action: restore the recorded mutations last-in first-out.
pub open spec fn finish_of(backups: Seq<BackupV>) -> ActionV {
    ActionV::Finish { restores: backups.reverse() }
}

/// Scans ecosystems from position `e` for the next thing to do: the first
/// admitted ecosystem's check or first admitted tool's probe, else the end
/// of the walk.  Excluded ecosystems leave a note.
pub open spec fn advance_eco(
    cfg: Seq<EcosystemEntryV>,
    f: FilterV,
    e: nat,
    backups: Seq<BackupV>,
) -> (ModeV, Seq<NoteV>, ActionV)
    decreases cfg.len() - e, 1int, 0int,
{
    if e >= cfg.len() {
        (ModeV::Done, Seq::<NoteV>::empty(), finish_of(backups))
    } else {
        let entry = cfg[e as int];
        if !ecosystem_included_v(lower_of(entry.name), f) {
            let rest = advance_eco(cfg, f, e + 1, backups);
            let here: Seq<NoteV> = if f.excluded.contains(lower_of(entry.name)) {
                seq![NoteV::IgnoredEcosystem { ecosystem: entry.name }]
            } else {
                Seq::<NoteV>::empty()
            };
            (rest.0, here + rest.1, rest.2)
        } else {
            match entry.config.check_ecosystem {
                Some(command) => (
                    ModeV::AwaitCheck { e },
                    Seq::<NoteV>::empty(),
                    ActionV::CheckEcosystem { ecosystem: entry.name, command },
                ),
                None => advance_tool(cfg, f, e, 0, backups),
            }
        }
    }
}

/// Scans the tools of ecosystem `e` from position `t` for the next admitted
/// tool to probe; past the last tool the scan moves to the next ecosystem.
/// Skipped and ignored tools leave a note.
pub open spec fn advance_tool(
    cfg: Seq<EcosystemEntryV>,
    f: FilterV,
    e: nat,
    t: nat,
    backups: Seq<BackupV>,
) -> (ModeV, Seq<NoteV>, ActionV)
    decreases cfg.len() - e, 0int, cfg[e as int].config.tools.len() - t,
{
    if e >= cfg.len() {
        (ModeV::Done, Seq::<NoteV>::empty(), finish_of(backups))
    } else {
        let entry = cfg[e as int];
        if t >= entry.config.tools.len() {
            advance_eco(cfg, f, e + 1, backups)
        } else {
            let tool = entry.config.tools[t as int];
            if !tool_included_v(tool, f) {
                let rest = advance_tool(cfg, f, e, t + 1, backups);
                (
                    rest.0,
                    seq![NoteV::SkippedTool { ecosystem: entry.name, tool: tool.name }] + rest.1,
                    rest.2,
                )
            } else {
                (
                    ModeV::AwaitProbe { e, t },
                    Seq::<NoteV>::empty(),
                    ActionV::ProbeExecutable {
                        ecosystem: entry.name,
                        tool: tool.name,
                        executable: tool.executable,
                    },
                )
            }
        }
    }
}

/// Within an admitted and available tool: emit command `c` if it exists,
/// else move to the next tool.
pub open spec fn cmds_at(
    cfg: Seq<EcosystemEntryV>,
    f: FilterV,
    e: nat,
    t: nat,
    c: nat,
    backups: Seq<BackupV>,
) -> (ModeV, Seq<NoteV>, ActionV) {
    if e < cfg.len() && t < cfg[e as int].config.tools.len() && c < cfg[e as int].config.tools[
        t as int
    ].commands.len() {
        let entry = cfg[e as int];
        let tool = entry.config.tools[t as int];
        (
            ModeV::AwaitCmd { e, t, c },
            Seq::<NoteV>::empty(),
            ActionV::RunCommand {
                ecosystem: entry.name,
                tool: tool.name,
                command: tool.commands[c as int],
            },
        )
    } else {
        advance_tool(cfg, f, e, t + 1, backups)
    }
}

/// Within an admitted and available tool: emit variable assignment `v` if
/// it exists, else fall through to the tool's first command.
pub open spec fn body_at(
    cfg: Seq<EcosystemEntryV>,
    f: FilterV,
    e: nat,
    t: nat,
    v: nat,
    backups: Seq<BackupV>,
) -> (ModeV, Seq<NoteV>, ActionV) {
    if e < cfg.len() && t < cfg[e as int].config.tools.len() && v < cfg[e as int].config.tools[
        t as int
    ].env.len() {
        let entry = cfg[e as int];
        let tool = entry.config.tools[t as int];
        (
            ModeV::AwaitEnv { e, t, v },
            Seq::<NoteV>::empty(),
            ActionV::ApplyEnv {
                ecosystem: entry.name,
                tool: tool.name,
                key: tool.env[v as int].key,
                value: tool.env[v as int].value,
            },
        )
    } else {
        cmds_at(cfg, f, e, t, 0, backups)
    }
}

/// Whether the event is the kind of outcome the mode awaits.
pub open spec fn event_matches(m: ModeV, ev: EventV) -> bool {
    match (m, ev) {
        (ModeV::AwaitStart, EventV::Start) => true,
        (ModeV::AwaitCheck { .. }, EventV::CheckResult { .. }) => true,
        (ModeV::AwaitProbe { .. }, EventV::ProbeResult { .. }) => true,
        (ModeV::AwaitEnv { .. }, EventV::EnvApplied { .. }) => true,
        (ModeV::AwaitCmd { .. }, EventV::CmdResult { .. }) => true,
        _ => false,
    }
}

/// The engine's transition function: from a state and the outcome of the
/// pending action, the next state, the skip notes taken while scanning,
/// and the next action.
pub open spec fn step_spec(s: StateV, ev: EventV) -> (StateV, Seq<NoteV>, ActionV) {
    let cfg = s.config;
    let f = s.filter;
    match (s.mode, ev) {
        (ModeV::AwaitStart, EventV::Start) => {
            let r = advance_eco(cfg, f, 0, s.backups);
            (StateV { mode: r.0, ..s }, r.1, r.2)
        },
        (ModeV::AwaitCheck { e }, EventV::CheckResult { ok }) => {
            let r = if ok {
                advance_tool(cfg, f, e, 0, s.backups)
            } else {
                advance_eco(cfg, f, e + 1, s.backups)
            };
            (StateV { mode: r.0, ..s }, r.1, r.2)
        },
        (ModeV::AwaitProbe { e, t }, EventV::ProbeResult { ok }) => {
            let r = if ok {
                body_at(cfg, f, e, t, 0, s.backups)
            } else {
                advance_tool(cfg, f, e, t + 1, s.backups)
            };
            (StateV { mode: r.0, ..s }, r.1, r.2)
        },
        (ModeV::AwaitEnv { e, t, v }, EventV::EnvApplied { prior }) => {
            let key = if e < cfg.len() && t < cfg[e as int].config.tools.len() && v < cfg[
                e as int
            ].config.tools[t as int].env.len() {
                cfg[e as int].config.tools[t as int].env[v as int].key
            } else {
                Seq::<char>::empty()
            };
            let backups = s.backups.push(BackupV { key, original_value: prior });
            let r = body_at(cfg, f, e, t, v + 1, backups);
            (StateV { mode: r.0, backups, ..s }, r.1, r.2)
        },
        (ModeV::AwaitCmd { e, t, c }, EventV::CmdResult { .. }) => {
            let r = cmds_at(cfg, f, e, t, c + 1, s.backups);
            (StateV { mode: r.0, ..s }, r.1, r.2)
        },
        _ => (s, Seq::<NoteV>::empty(), finish_of(s.backups)),
    }
}

/// A position `(e, t)` that names an admitted tool of an admitted
/// ecosystem, in bounds of the configuration.
pub open spec fn tool_pos_wf(cfg: Seq<EcosystemEntryV>, f: FilterV, e: nat, t: nat) -> bool {
    &&& e < cfg.len()
    &&& t < cfg[e as int].config.tools.len()
    &&& ecosystem_included_v(lower_of(cfg[e as int].name), f)
    &&& tool_included_v(cfg[e as int].config.tools[t as int], f)
}

/// Well-formedness of a mode against the configuration and filter: every
/// position it names is in bounds, and the tool or ecosystem it works on is
/// one the filter admits.
pub open spec fn mode_wf(cfg: Seq<EcosystemEntryV>, f: FilterV, m: ModeV) -> bool {
    match m {
        ModeV::AwaitStart => true,
        ModeV::Done => true,
        ModeV::AwaitCheck { e } => {
            &&& e < cfg.len()
            &&& ecosystem_included_v(lower_of(cfg[e as int].name), f)
            &&& cfg[e as int].config.check_ecosystem is Some
        },
        ModeV::AwaitProbe { e, t } => tool_pos_wf(cfg, f, e, t),
        ModeV::AwaitEnv { e, t, v } => tool_pos_wf(cfg, f, e, t) && v < cfg[
            e as int
        ].config.tools[t as int].env.len(),
        ModeV::AwaitCmd { e, t, c } => tool_pos_wf(cfg, f, e, t) && c < cfg[
            e as int
        ].config.tools[t as int].commands.len(),
    }
}

/// Well-formedness of a whole engine state.
pub open spec fn state_wf(s: StateV) -> bool {
    mode_wf(s.config, s.filter, s.mode)
}

/// The execution engine of one run.  Built by [`Engine::new`], driven by
/// [`Engine::step`] until it hands out [`Action::Finish`].
pub struct Engine {
    pub config: YamlToolsConfig,
    pub filter: SelectionFilter,
    pub mode: Mode,
    pub backups: Vec<EnvVarBackup>,
}

impl View for Engine {
    type V = StateV;

    open spec fn view(&self) -> StateV {
        StateV {
            config: self.config@,
            filter: self.filter@,
            mode: self.mode@,
            backups: self.backups.deep_view(),
        }
    }
}

/// Builds the terminal action: the recorded mutations in reverse order of
/// application.
fn finish_action(backups: &Vec<EnvVarBackup>) -> (r: Action)
    ensures
        r@ == finish_of(backups.deep_view()),
{
    let mut restores: Vec<EnvVarBackup> = Vec::new();
    let mut i: usize = backups.len();
    while i > 0
        invariant
            i <= backups.len(),
            restores.deep_view().len() == backups.len() - i,
            forall|j: int|
                0 <= j < restores.deep_view().len() ==> restores.deep_view()[j]
                    == backups.deep_view()[backups.len() - 1 - j],
        decreases i,
    {
        i -= 1;
        let b = backups[i].duplicate();
        let ghost bv = b@;
        let ghost prev = restores.deep_view();
        restores.push(b);
        proof {
            assert forall|j: int| 0 <= j < restores.deep_view().len() implies restores.deep_view()[
                j
            ] == backups.deep_view()[backups.len() - 1 - j] by {
                if j < prev.len() {
                    assert(restores.deep_view()[j] == prev[j]);
                } else {
                    assert(restores.deep_view()[j] == bv);
                }
            }
        }
    }
    proof {
        assert(restores.deep_view() =~= backups.deep_view().reverse());
    }
    Action::Finish { restores }
}

impl Engine {
    /// Sets an engine up over the configuration and the user's selection
    /// lists; nothing is probed, applied or run until [`Engine::step`] is
    /// called.
    pub fn new(
        config: YamlToolsConfig,
        selected_ecosystems: &Vec<String>,
        ignored_ecosystems: &Vec<String>,
        ignore_tools: &Vec<String>,
    ) -> (r: Engine)
        ensures
            r@.config == config@,
            r@.filter.selected == selected_ecosystems.deep_view().map_values(
                |s: Seq<char>| lower_of(s),
            ),
            r@.filter.excluded == ignored_ecosystems.deep_view().map_values(
                |s: Seq<char>| lower_of(s),
            ),
            r@.filter.ignored_tools == ignore_tools.deep_view().map_values(
                |s: Seq<char>| lower_of(s),
            ),
            r@.mode == ModeV::AwaitStart,
            r@.backups =~= Seq::<BackupV>::empty(),
            state_wf(r@),
    {
        let r = Engine {
            config,
            filter: SelectionFilter::new(selected_ecosystems, ignored_ecosystems, ignore_tools),
            mode: Mode::AwaitStart,
            backups: Vec::new(),
        };
        proof {
            assert(r.backups.deep_view() =~= Seq::<BackupV>::empty());
        }
        r
    }

    /// Feeds the outcome of the pending action to the engine and receives
    /// the next action, together with the skip decisions taken while
    /// scanning.  The transition follows [`step_spec`] exactly.
    pub fn step(&mut self, ev: Event) -> (r: (Vec<Note>, Action))
        requires
            event_matches(old(self)@.mode, ev@),
            state_wf(old(self)@),
        ensures
            ({
                let (s2, ns, a) = step_spec(old(self)@, ev@);
                &&& final(self)@ == s2
                &&& r.0.deep_view() == ns
                &&& r.1@ == a
            }),
            state_wf(final(self)@),
    {
        let mut notes: Vec<Note> = Vec::new();
        let mode = self.mode;
        let (m, a) = match (mode, ev) {
            (Mode::AwaitStart, Event::Start) => {
                advance_eco_x(&self.config, &self.filter, 0, &self.backups, &mut notes)
            },
            (Mode::AwaitCheck { e }, Event::CheckResult { ok }) => {
                let n = self.config.ecosystems.len();
                proof {
                    assert(e < n);
                }
                if ok {
                    advance_tool_x(&self.config, &self.filter, e, 0, &self.backups, &mut notes)
                } else {
                    advance_eco_x(&self.config, &self.filter, e + 1, &self.backups, &mut notes)
                }
            },
            (Mode::AwaitProbe { e, t }, Event::ProbeResult { ok }) => {
                let tn = self.config.ecosystems[e].config.tools.len();
                proof {
                    assert(t < tn);
                }
                if ok {
                    body_at_x(&self.config, &self.filter, e, t, 0, &self.backups, &mut notes)
                } else {
                    advance_tool_x(&self.config, &self.filter, e, t + 1, &self.backups, &mut notes)
                }
            },
            (Mode::AwaitEnv { e, t, v }, Event::EnvApplied { prior }) => {
                let vn = self.config.ecosystems[e].config.tools[t].env.len();
                proof {
                    assert(v < vn);
                }
                let key = self.config.ecosystems[e].config.tools[t].env[v].key.clone();
                let ghost kv = key@;
                let ghost prevb = self.backups.deep_view();
                let ghost priorv = prior.deep_view();
                self.backups.push(EnvVarBackup { key, original_value: prior });
                proof {
                    let b = BackupV { key: kv, original_value: priorv };
                    assert(self.backups.deep_view() =~= prevb.push(b));
                }
                body_at_x(&self.config, &self.filter, e, t, v + 1, &self.backups, &mut notes)
            },
            (Mode::AwaitCmd { e, t, c }, Event::CmdResult { ok: _ }) => {
                let cn = self.config.ecosystems[e].config.tools[t].commands.len();
                proof {
                    assert(c < cn);
                }
                cmds_at_x(&self.config, &self.filter, e, t, c + 1, &self.backups, &mut notes)
            },
            _ => {
                proof {
                    assert(false);
                }
                (Mode::Done, finish_action(&self.backups))
            },
        };
        self.mode = m;
        proof {
            assert(notes.deep_view() =~= Seq::<NoteV>::empty() + notes.deep_view());
            crate::laws::lemma_step_preserves_wf(old(self)@, ev@);
        }
        (notes, a)
    }
}

/// Executable mirror of [`advance_eco`].
fn advance_eco_x(
    cfg: &YamlToolsConfig,
    filter: &SelectionFilter,
    e: usize,
    backups: &Vec<EnvVarBackup>,
    notes: &mut Vec<Note>,
) -> (r: (Mode, Action))
    ensures
        ({
            let (m, ns, a) = advance_eco(cfg@, filter@, e as nat, backups.deep_view());
            &&& r.0@ == m
            &&& r.1@ == a
            &&& final(notes).deep_view() == old(notes).deep_view() + ns
        }),
    decreases cfg@.len() - e, 1int, 0int,
{
    if e >= cfg.ecosystems.len() {
        proof {
            assert(notes.deep_view() =~= old(notes).deep_view() + Seq::<NoteV>::empty());
        }
        (Mode::Done, finish_action(backups))
    } else {
        let entry = &cfg.ecosystems[e];
        proof {
            assert(cfg@[e as int] == entry@);
        }
        if !filter.ecosystem_included(&entry.name) {
            let ghost before = notes.deep_view();
            let ghost here: Seq<NoteV> = if filter@.excluded.contains(lower_of(entry.name@)) {
                seq![NoteV::IgnoredEcosystem { ecosystem: entry.name@ }]
            } else {
                Seq::<NoteV>::empty()
            };
            if filter.is_excluded(&entry.name) {
                let n = Note::IgnoredEcosystem { ecosystem: entry.name.clone() };
                let ghost nv = n@;
                notes.push(n);
                proof {
                    assert(notes.deep_view() =~= before + seq![nv]);
                }
            }
            proof {
                assert(notes.deep_view() =~= before + here);
            }
            let r = advance_eco_x(cfg, filter, e + 1, backups, notes);
            proof {
                let rest = advance_eco(cfg@, filter@, e as nat + 1, backups.deep_view());
                assert(notes.deep_view() =~= before + (here + rest.1));
            }
            r
        } else {
            match &entry.config.check_ecosystem {
                Some(command) => {
                    proof {
                        assert(notes.deep_view() =~= old(notes).deep_view() + Seq::<NoteV>::empty());
                    }
                    (
                        Mode::AwaitCheck { e },
                        Action::CheckEcosystem {
                            ecosystem: entry.name.clone(),
                            command: command.clone(),
                        },
                    )
                },
                None => advance_tool_x(cfg, filter, e, 0, backups, notes),
            }
        }
    }
}

/// Executable mirror of [`advance_tool`].
fn advance_tool_x(
    cfg: &YamlToolsConfig,
    filter: &SelectionFilter,
    e: usize,
    t: usize,
    backups: &Vec<EnvVarBackup>,
    notes: &mut Vec<Note>,
) -> (r: (Mode, Action))
    ensures
        ({
            let (m, ns, a) = advance_tool(cfg@, filter@, e as nat, t as nat, backups.deep_view());
            &&& r.0@ == m
            &&& r.1@ == a
            &&& final(notes).deep_view() == old(notes).deep_view() + ns
        }),
    decreases cfg@.len() - e, 0int, cfg@[e as int].config.tools.len() - t,
{
    if e >= cfg.ecosystems.len() {
        proof {
            assert(notes.deep_view() =~= old(notes).deep_view() + Seq::<NoteV>::empty());
        }
        (Mode::Done, finish_action(backups))
    } else {
        let entry = &cfg.ecosystems[e];
        proof {
            assert(cfg@[e as int] == entry@);
        }
        if t >= entry.config.tools.len() {
            advance_eco_x(cfg, filter, e + 1, backups, notes)
        } else {
            let tool = &entry.config.tools[t];
            proof {
                assert(entry@.config.tools[t as int] == tool@);
            }
            if !filter.tool_included(tool) {
                let ghost before = notes.deep_view();
                let n = Note::SkippedTool {
                    ecosystem: entry.name.clone(),
                    tool: tool.name.clone(),
                };
                let ghost nv = n@;
                notes.push(n);
                proof {
                    assert(notes.deep_view() =~= before + seq![nv]);
                }
                let r = advance_tool_x(cfg, filter, e, t + 1, backups, notes);
                proof {
                    let rest = advance_tool(
                        cfg@,
                        filter@,
                        e as nat,
                        t as nat + 1,
                        backups.deep_view(),
                    );
                    assert(notes.deep_view() =~= before + (seq![nv] + rest.1));
                }
                r
            } else {
                proof {
                    assert(notes.deep_view() =~= old(notes).deep_view() + Seq::<NoteV>::empty());
                }
                (
                    Mode::AwaitProbe { e, t },
                    Action::ProbeExecutable {
                        ecosystem: entry.name.clone(),
                        tool: tool.name.clone(),
                        executable: tool.executable.clone(),
                    },
                )
            }
        }
    }
}

/// Executable mirror of [`cmds_at`].
fn cmds_at_x(
    cfg: &YamlToolsConfig,
    filter: &SelectionFilter,
    e: usize,
    t: usize,
    c: usize,
    backups: &Vec<EnvVarBackup>,
    notes: &mut Vec<Note>,
) -> (r: (Mode, Action))
    requires
        e < cfg@.len(),
        t < cfg@[e as int].config.tools.len(),
    ensures
        ({
            let (m, ns, a) = cmds_at(
                cfg@,
                filter@,
                e as nat,
                t as nat,
                c as nat,
                backups.deep_view(),
            );
            &&& r.0@ == m
            &&& r.1@ == a
            &&& final(notes).deep_view() == old(notes).deep_view() + ns
        }),
{
    let entry = &cfg.ecosystems[e];
    let tool = &entry.config.tools[t];
    proof {
        assert(cfg@[e as int] == entry@);
        assert(entry@.config.tools[t as int] == tool@);
    }
    if c < tool.commands.len() {
        proof {
            assert(notes.deep_view() =~= old(notes).deep_view() + Seq::<NoteV>::empty());
            assert(tool@.commands[c as int] == tool.commands@[c as int]@);
        }
        (
            Mode::AwaitCmd { e, t, c },
            Action::RunCommand {
                ecosystem: entry.name.clone(),
                tool: tool.name.clone(),
                command: tool.commands[c].clone(),
            },
        )
    } else {
        let tn = entry.config.tools.len();
        proof {
            assert(t < tn);
        }
        advance_tool_x(cfg, filter, e, t + 1, backups, notes)
    }
}

/// Executable mirror of [`body_at`].
fn body_at_x(
    cfg: &YamlToolsConfig,
    filter: &SelectionFilter,
    e: usize,
    t: usize,
    v: usize,
    backups: &Vec<EnvVarBackup>,
    notes: &mut Vec<Note>,
) -> (r: (Mode, Action))
    requires
        e < cfg@.len(),
        t < cfg@[e as int].config.tools.len(),
    ensures
        ({
            let (m, ns, a) = body_at(
                cfg@,
                filter@,
                e as nat,
                t as nat,
                v as nat,
                backups.deep_view(),
            );
            &&& r.0@ == m
            &&& r.1@ == a
            &&& final(notes).deep_view() == old(notes).deep_view() + ns
        }),
{
    let entry = &cfg.ecosystems[e];
    let tool = &entry.config.tools[t];
    proof {
        assert(cfg@[e as int] == entry@);
        assert(entry@.config.tools[t as int] == tool@);
    }
    if v < tool.env.len() {
        let ev = &tool.env[v];
        proof {
            assert(notes.deep_view() =~= old(notes).deep_view() + Seq::<NoteV>::empty());
            assert(tool@.env[v as int] == ev@);
        }
        (
            Mode::AwaitEnv { e, t, v },
            Action::ApplyEnv {
                ecosystem: entry.name.clone(),
                tool: tool.name.clone(),
                key: ev.key.clone(),
                value: ev.value.clone(),
            },
        )
    } else {
        cmds_at_x(cfg, filter, e, t, 0, backups, notes)
    }
}

} // verus!
