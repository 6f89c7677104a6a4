//! The engine's guarantees, stated and proved over the transition function
//! [`step_spec`] that [`crate::runner::Engine::step`] is proved to follow.

use vstd::prelude::*;

use crate::filter::ecosystem_included_v;
use crate::filter::lower_of;
use crate::filter::tool_included_v;
use crate::filter::FilterV;
use crate::runner::advance_eco;
use crate::runner::advance_tool;
use crate::runner::body_at;
use crate::runner::cmds_at;
use crate::runner::finish_of;
use crate::runner::step_spec;
use crate::runner::ActionV;
use crate::runner::BackupV;
use crate::runner::EventV;
use crate::runner::ModeV;
use crate::runner::NoteV;
use crate::runner::StateV;
use crate::runner::mode_wf;
use crate::runner::state_wf;
use crate::yaml_config::EcosystemConfigV;
use crate::yaml_config::EcosystemEntryV;
use crate::yaml_config::ToolEntryV;

verus! {

/// Whether the mode probes, assigns a variable of, or runs a command of
/// tool `t` of ecosystem `e`.
pub open spec fn working_on(m: ModeV, e: nat, t: nat) -> bool {
    match m {
        ModeV::AwaitProbe { e: e2, t: t2 } => e2 == e && t2 == t,
        ModeV::AwaitEnv { e: e2, t: t2, .. } => e2 == e && t2 == t,
        ModeV::AwaitCmd { e: e2, t: t2, .. } => e2 == e && t2 == t,
        _ => false,
    }
}

/// Whether the mode assigns a variable of, or runs a command of, tool `t`
/// of ecosystem `e` — the two directive-executing modes.
pub open spec fn working_body(m: ModeV, e: nat, t: nat) -> bool {
    match m {
        ModeV::AwaitEnv { e: e2, t: t2, .. } => e2 == e && t2 == t,
        ModeV::AwaitCmd { e: e2, t: t2, .. } => e2 == e && t2 == t,
        _ => false,
    }
}

proof fn lemma_advance_eco_scan(
    cfg: Seq<EcosystemEntryV>,
    f: FilterV,
    e: nat,
    b: Seq<BackupV>,
)
    ensures
        ({
            let (m, ns, a) = advance_eco(cfg, f, e, b);
            &&& !(m is AwaitEnv)
            &&& !(m is AwaitCmd)
            &&& !(a is ApplyEnv)
            &&& !(a is RunCommand)
            &&& (a is Finish ==> a == finish_of(b))
        }),
    decreases cfg.len() - e, 1int, 0int,
{
    if e >= cfg.len() {
    } else {
        let entry = cfg[e as int];
        if !ecosystem_included_v(lower_of(entry.name), f) {
            lemma_advance_eco_scan(cfg, f, e + 1, b);
        } else if entry.config.check_ecosystem is Some {
        } else {
            lemma_advance_tool_scan(cfg, f, e, 0, b);
        }
    }
}

proof fn lemma_advance_tool_scan(
    cfg: Seq<EcosystemEntryV>,
    f: FilterV,
    e: nat,
    t: nat,
    b: Seq<BackupV>,
)
    ensures
        ({
            let (m, ns, a) = advance_tool(cfg, f, e, t, b);
            &&& !(m is AwaitEnv)
            &&& !(m is AwaitCmd)
            &&& !(a is ApplyEnv)
            &&& !(a is RunCommand)
            &&& (a is Finish ==> a == finish_of(b))
        }),
    decreases cfg.len() - e, 0int, cfg[e as int].config.tools.len() - t,
{
    if e >= cfg.len() {
    } else {
        let entry = cfg[e as int];
        if t >= entry.config.tools.len() {
            lemma_advance_eco_scan(cfg, f, e + 1, b);
        } else {
            let tool = entry.config.tools[t as int];
            if !tool_included_v(tool, f) {
                lemma_advance_tool_scan(cfg, f, e, t + 1, b);
            }
        }
    }
}

proof fn lemma_advance_eco_wf(cfg: Seq<EcosystemEntryV>, f: FilterV, e: nat, b: Seq<BackupV>)
    ensures
        mode_wf(cfg, f, advance_eco(cfg, f, e, b).0),
    decreases cfg.len() - e, 1int, 0int,
{
    if e >= cfg.len() {
    } else {
        let entry = cfg[e as int];
        if !ecosystem_included_v(lower_of(entry.name), f) {
            lemma_advance_eco_wf(cfg, f, e + 1, b);
        } else if entry.config.check_ecosystem is Some {
        } else {
            lemma_advance_tool_wf(cfg, f, e, 0, b);
        }
    }
}

proof fn lemma_advance_tool_wf(
    cfg: Seq<EcosystemEntryV>,
    f: FilterV,
    e: nat,
    t: nat,
    b: Seq<BackupV>,
)
    requires
        e < cfg.len() && t < cfg[e as int].config.tools.len() ==> ecosystem_included_v(
            lower_of(cfg[e as int].name),
            f,
        ),
    ensures
        mode_wf(cfg, f, advance_tool(cfg, f, e, t, b).0),
    decreases cfg.len() - e, 0int, cfg[e as int].config.tools.len() - t,
{
    if e >= cfg.len() {
    } else {
        let entry = cfg[e as int];
        if t >= entry.config.tools.len() {
            lemma_advance_eco_wf(cfg, f, e + 1, b);
        } else {
            let tool = entry.config.tools[t as int];
            if !tool_included_v(tool, f) {
                lemma_advance_tool_wf(cfg, f, e, t + 1, b);
            }
        }
    }
}

proof fn lemma_body_at_wf(
    cfg: Seq<EcosystemEntryV>,
    f: FilterV,
    e: nat,
    t: nat,
    v: nat,
    b: Seq<BackupV>,
)
    requires
        e < cfg.len() && t < cfg[e as int].config.tools.len() ==> (ecosystem_included_v(
            lower_of(cfg[e as int].name),
            f,
        ) && tool_included_v(cfg[e as int].config.tools[t as int], f)),
    ensures
        mode_wf(cfg, f, body_at(cfg, f, e, t, v, b).0),
{
    if e < cfg.len() && t < cfg[e as int].config.tools.len() && v < cfg[
        e as int
    ].config.tools[t as int].env.len() {
    } else {
        lemma_cmds_at_wf(cfg, f, e, t, 0, b);
    }
}

proof fn lemma_cmds_at_wf(
    cfg: Seq<EcosystemEntryV>,
    f: FilterV,
    e: nat,
    t: nat,
    c: nat,
    b: Seq<BackupV>,
)
    requires
        e < cfg.len() && t < cfg[e as int].config.tools.len() ==> (ecosystem_included_v(
            lower_of(cfg[e as int].name),
            f,
        ) && tool_included_v(cfg[e as int].config.tools[t as int], f)),
    ensures
        mode_wf(cfg, f, cmds_at(cfg, f, e, t, c, b).0),
{
    if e < cfg.len() && t < cfg[e as int].config.tools.len() && c < cfg[
        e as int
    ].config.tools[t as int].commands.len() {
    } else {
        lemma_advance_tool_wf(cfg, f, e, t + 1, b);
    }
}

/// Every step from a well-formed state reaches a well-formed state:
/// well-formedness is an invariant of every run.
pub proof fn lemma_step_preserves_wf(s: StateV, ev: EventV)
    requires
        state_wf(s),
    ensures
        state_wf(step_spec(s, ev).0),
{
    let cfg = s.config;
    let f = s.filter;
    match (s.mode, ev) {
        (ModeV::AwaitStart, EventV::Start) => {
            lemma_advance_eco_wf(cfg, f, 0, s.backups);
        },
        (ModeV::AwaitCheck { e }, EventV::CheckResult { ok }) => {
            if ok {
                lemma_advance_tool_wf(cfg, f, e, 0, s.backups);
            } else {
                lemma_advance_eco_wf(cfg, f, e + 1, s.backups);
            }
        },
        (ModeV::AwaitProbe { e, t }, EventV::ProbeResult { ok }) => {
            if ok {
                lemma_body_at_wf(cfg, f, e, t, 0, s.backups);
            } else {
                lemma_advance_tool_wf(cfg, f, e, t + 1, s.backups);
            }
        },
        (ModeV::AwaitEnv { e, t, v }, EventV::EnvApplied { prior }) => {
            let key = if e < cfg.len() && t < cfg[e as int].config.tools.len() && v < cfg[
                e as int
            ].config.tools[t as int].env.len() {
                cfg[e as int].config.tools[t as int].env[v as int].key
            } else {
                Seq::<char>::empty()
            };
            let backups = s.backups.push(BackupV { key, original_value: prior });
            lemma_body_at_wf(cfg, f, e, t, v + 1, backups);
        },
        (ModeV::AwaitCmd { e, t, c }, EventV::CmdResult { .. }) => {
            lemma_cmds_at_wf(cfg, f, e, t, c + 1, s.backups);
        },
        _ => {},
    }
}

/// Skip precedence: in every well-formed state — and every reachable state
/// is well-formed — the tool being probed, having a variable assigned or a
/// command run is one the selection filter admits.  A tool whose `skip`
/// flag is set, or whose name stands on the ignore list, is never the
/// subject of a probe, an environment assignment or a command, whatever
/// the other selection inputs say.
pub proof fn lemma_skip_precedence(s: StateV, e: nat, t: nat)
    requires
        state_wf(s),
        working_on(s.mode, e, t),
    ensures
        tool_included_v(s.config[e as int].config.tools[t as int], s.filter),
        !s.config[e as int].config.tools[t as int].skip,
{
}

/// Non-fatal command failure: the outcome of a command never influences
/// the engine.  The state reached and the action emitted after a failing
/// command are exactly those after a succeeding one, so one tool's failing
/// command cannot prevent any later tool or ecosystem from being
/// processed.
pub proof fn lemma_command_failure_non_fatal(s: StateV, ok1: bool, ok2: bool)
    ensures
        step_spec(s, EventV::CmdResult { ok: ok1 }) == step_spec(
            s,
            EventV::CmdResult { ok: ok2 },
        ),
{
}

/// Unavailable executable skip: when the probe of the tool under work
/// fails, the engine records no environment mutation and runs no command
/// of it — the backup list is unchanged and the next state and action
/// probe or check something else, or end the walk.
pub proof fn lemma_unavailable_executable_skip(s: StateV, e: nat, t: nat)
    requires
        state_wf(s),
        s.mode == (ModeV::AwaitProbe { e, t }),
    ensures
        ({
            let (s2, ns, a) = step_spec(s, EventV::ProbeResult { ok: false });
            &&& s2.backups == s.backups
            &&& !(s2.mode is AwaitEnv)
            &&& !(s2.mode is AwaitCmd)
            &&& !(a is ApplyEnv)
            &&& !(a is RunCommand)
        }),
{
    lemma_advance_tool_scan(s.config, s.filter, e, t + 1, s.backups);
}

/// Directives run only behind a successful probe: a state that assigns a
/// variable or runs a command of tool `t` of ecosystem `e` arises only
/// from another such state of the same tool, or from that tool's probe
/// answered true.
pub proof fn lemma_probe_gates_directives(s: StateV, ev: EventV, e: nat, t: nat)
    requires
        working_body(step_spec(s, ev).0.mode, e, t),
    ensures
        working_body(s.mode, e, t) || (s.mode == (ModeV::AwaitProbe { e, t }) && ev
            == (EventV::ProbeResult { ok: true })),
{
    let cfg = s.config;
    let f = s.filter;
    match (s.mode, ev) {
        (ModeV::AwaitStart, EventV::Start) => {
            lemma_advance_eco_scan(cfg, f, 0, s.backups);
        },
        (ModeV::AwaitCheck { e: e2 }, EventV::CheckResult { ok }) => {
            if ok {
                lemma_advance_tool_scan(cfg, f, e2, 0, s.backups);
            } else {
                lemma_advance_eco_scan(cfg, f, e2 + 1, s.backups);
            }
        },
        (ModeV::AwaitProbe { e: e2, t: t2 }, EventV::ProbeResult { ok }) => {
            if ok {
                lemma_advance_tool_scan(cfg, f, e2, t2 + 1, s.backups);
            } else {
                lemma_advance_tool_scan(cfg, f, e2, t2 + 1, s.backups);
            }
        },
        (ModeV::AwaitEnv { e: e2, t: t2, v }, EventV::EnvApplied { prior }) => {
            let key = if e2 < cfg.len() && t2 < cfg[e2 as int].config.tools.len() && v < cfg[
                e2 as int
            ].config.tools[t2 as int].env.len() {
                cfg[e2 as int].config.tools[t2 as int].env[v as int].key
            } else {
                Seq::<char>::empty()
            };
            let backups = s.backups.push(BackupV { key, original_value: prior });
            lemma_advance_tool_scan(cfg, f, e2, t2 + 1, backups);
        },
        (ModeV::AwaitCmd { e: e2, t: t2, c }, EventV::CmdResult { .. }) => {
            lemma_advance_tool_scan(cfg, f, e2, t2 + 1, s.backups);
        },
        _ => {},
    }
}


/// The stream of actions a run emits from state `s` under the event
/// sequence `evs`: one action per event, each step feeding the engine the
/// outcome of the action before.
pub open spec fn run_actions(s: StateV, evs: Seq<EventV>) -> Seq<ActionV>
    decreases evs.len(),
{
    if evs.len() == 0 {
        Seq::<ActionV>::empty()
    } else {
        seq![step_spec(s, evs[0]).2] + run_actions(step_spec(s, evs[0]).0, evs.drop_first())
    }
}

/// Order preservation: over an ecosystem holding tools `x` then `y`, each
/// with two environment variables and two commands, a run whose probes both
/// succeed performs exactly: `x`'s probe, `x`'s variables in declared
/// order, `x`'s commands in declared order, then `y`'s likewise — whatever
/// values the variables held before and however the commands fared — and
/// finally hands the four recorded mutations back for restoration in the
/// reverse of application order.
#[verifier::rlimit(60)]
pub proof fn lemma_order_preservation(
    eco_name: Seq<char>,
    x: ToolEntryV,
    y: ToolEntryV,
    f: FilterV,
    p1: Option<Seq<char>>,
    p2: Option<Seq<char>>,
    p3: Option<Seq<char>>,
    p4: Option<Seq<char>>,
    ok1: bool,
    ok2: bool,
    ok3: bool,
    ok4: bool,
)
    requires
        x.env.len() == 2,
        x.commands.len() == 2,
        y.env.len() == 2,
        y.commands.len() == 2,
        ecosystem_included_v(lower_of(eco_name), f),
        tool_included_v(x, f),
        tool_included_v(y, f),
    ensures
        ({
            let cfg = seq![
                EcosystemEntryV {
                    name: eco_name,
                    config: EcosystemConfigV {
                        check_ecosystem: None::<Seq<char>>,
                        tools: seq![x, y],
                    },
                },
            ];
            let s0 = StateV {
                config: cfg,
                filter: f,
                mode: ModeV::AwaitStart,
                backups: Seq::<BackupV>::empty(),
            };
            let evs = seq![
                EventV::Start,
                EventV::ProbeResult { ok: true },
                EventV::EnvApplied { prior: p1 },
                EventV::EnvApplied { prior: p2 },
                EventV::CmdResult { ok: ok1 },
                EventV::CmdResult { ok: ok2 },
                EventV::ProbeResult { ok: true },
                EventV::EnvApplied { prior: p3 },
                EventV::EnvApplied { prior: p4 },
                EventV::CmdResult { ok: ok3 },
                EventV::CmdResult { ok: ok4 },
            ];
            run_actions(s0, evs) =~= seq![
                ActionV::ProbeExecutable {
                    ecosystem: eco_name,
                    tool: x.name,
                    executable: x.executable,
                },
                ActionV::ApplyEnv {
                    ecosystem: eco_name,
                    tool: x.name,
                    key: x.env[0].key,
                    value: x.env[0].value,
                },
                ActionV::ApplyEnv {
                    ecosystem: eco_name,
                    tool: x.name,
                    key: x.env[1].key,
                    value: x.env[1].value,
                },
                ActionV::RunCommand { ecosystem: eco_name, tool: x.name, command: x.commands[0] },
                ActionV::RunCommand { ecosystem: eco_name, tool: x.name, command: x.commands[1] },
                ActionV::ProbeExecutable {
                    ecosystem: eco_name,
                    tool: y.name,
                    executable: y.executable,
                },
                ActionV::ApplyEnv {
                    ecosystem: eco_name,
                    tool: y.name,
                    key: y.env[0].key,
                    value: y.env[0].value,
                },
                ActionV::ApplyEnv {
                    ecosystem: eco_name,
                    tool: y.name,
                    key: y.env[1].key,
                    value: y.env[1].value,
                },
                ActionV::RunCommand { ecosystem: eco_name, tool: y.name, command: y.commands[0] },
                ActionV::RunCommand { ecosystem: eco_name, tool: y.name, command: y.commands[1] },
                ActionV::Finish {
                    restores: seq![
                        BackupV { key: y.env[1].key, original_value: p4 },
                        BackupV { key: y.env[0].key, original_value: p3 },
                        BackupV { key: x.env[1].key, original_value: p2 },
                        BackupV { key: x.env[0].key, original_value: p1 },
                    ],
                },
            ]
        }),
{
    let cfg = seq![
        EcosystemEntryV {
            name: eco_name,
            config: EcosystemConfigV { check_ecosystem: None::<Seq<char>>, tools: seq![x, y] },
        },
    ];
    let s0 = StateV {
        config: cfg,
        filter: f,
        mode: ModeV::AwaitStart,
        backups: Seq::<BackupV>::empty(),
    };
    let evs = seq![
        EventV::Start,
        EventV::ProbeResult { ok: true },
        EventV::EnvApplied { prior: p1 },
        EventV::EnvApplied { prior: p2 },
        EventV::CmdResult { ok: ok1 },
        EventV::CmdResult { ok: ok2 },
        EventV::ProbeResult { ok: true },
        EventV::EnvApplied { prior: p3 },
        EventV::EnvApplied { prior: p4 },
        EventV::CmdResult { ok: ok3 },
        EventV::CmdResult { ok: ok4 },
    ];
    let b1 = BackupV { key: x.env[0].key, original_value: p1 };
    let b2 = BackupV { key: x.env[1].key, original_value: p2 };
    let b3 = BackupV { key: y.env[0].key, original_value: p3 };
    let b4 = BackupV { key: y.env[1].key, original_value: p4 };
    assert(cfg[0].config.tools[0] == x);
    assert(cfg[0].config.tools[1] == y);
    assert(evs[0] == EventV::Start);
    assert(evs[1] == EventV::ProbeResult { ok: true });
    assert(evs[2] == EventV::EnvApplied { prior: p1 });
    assert(evs[3] == EventV::EnvApplied { prior: p2 });
    assert(evs[4] == EventV::CmdResult { ok: ok1 });
    assert(evs[5] == EventV::CmdResult { ok: ok2 });
    assert(evs[6] == EventV::ProbeResult { ok: true });
    assert(evs[7] == EventV::EnvApplied { prior: p3 });
    assert(evs[8] == EventV::EnvApplied { prior: p4 });
    assert(evs[9] == EventV::CmdResult { ok: ok3 });
    assert(evs[10] == EventV::CmdResult { ok: ok4 });

    assert(cfg.len() == 1);
    assert(cfg[0].name == eco_name);
    assert(cfg[0].config.check_ecosystem is None);
    assert(cfg[0].config.tools.len() == 2);
    assert(ecosystem_included_v(lower_of(cfg[0].name), f));
    assert(tool_included_v(cfg[0].config.tools[0], f));
    let a_t = advance_tool(cfg, f, 0, 0, s0.backups);
    assert(a_t.0 == ModeV::AwaitProbe { e: 0, t: 0 });
    let a_e = advance_eco(cfg, f, 0, s0.backups);
    assert(a_e == a_t);
    let r1 = step_spec(s0, evs[0]);
    assert(r1 == (
        StateV { mode: ModeV::AwaitProbe { e: 0, t: 0 }, ..s0 },
        Seq::<NoteV>::empty(),
        ActionV::ProbeExecutable { ecosystem: eco_name, tool: x.name, executable: x.executable },
    ));
    let s1 = r1.0;
    let r2 = step_spec(s1, evs[1]);
    assert(r2.0 == StateV { mode: ModeV::AwaitEnv { e: 0, t: 0, v: 0 }, ..s1 });
    assert(r2.2 == ActionV::ApplyEnv {
        ecosystem: eco_name,
        tool: x.name,
        key: x.env[0].key,
        value: x.env[0].value,
    });
    let s2 = r2.0;
    let r3 = step_spec(s2, evs[2]);
    assert(s2.backups.push(b1) =~= seq![b1]);
    assert(r3.0.mode == ModeV::AwaitEnv { e: 0, t: 0, v: 1 });
    assert(r3.0.backups =~= seq![b1]);
    assert(r3.2 == ActionV::ApplyEnv {
        ecosystem: eco_name,
        tool: x.name,
        key: x.env[1].key,
        value: x.env[1].value,
    });
    let s3 = r3.0;
    let r4 = step_spec(s3, evs[3]);
    assert(s3.backups.push(b2) =~= seq![b1, b2]);
    assert(r4.0.mode == ModeV::AwaitCmd { e: 0, t: 0, c: 0 });
    assert(r4.0.backups =~= seq![b1, b2]);
    assert(r4.2 == ActionV::RunCommand {
        ecosystem: eco_name,
        tool: x.name,
        command: x.commands[0],
    });
    let s4 = r4.0;
    let r5 = step_spec(s4, evs[4]);
    assert(r5.0.mode == ModeV::AwaitCmd { e: 0, t: 0, c: 1 });
    assert(r5.0.backups == s4.backups);
    assert(r5.2 == ActionV::RunCommand {
        ecosystem: eco_name,
        tool: x.name,
        command: x.commands[1],
    });
    let s5 = r5.0;
    let r6 = step_spec(s5, evs[5]);
    assert(r6.0.mode == ModeV::AwaitProbe { e: 0, t: 1 });
    assert(r6.0.backups == s5.backups);
    assert(r6.2 == ActionV::ProbeExecutable {
        ecosystem: eco_name,
        tool: y.name,
        executable: y.executable,
    });
    let s6 = r6.0;
    let r7 = step_spec(s6, evs[6]);
    assert(r7.0.mode == ModeV::AwaitEnv { e: 0, t: 1, v: 0 });
    assert(r7.0.backups == s6.backups);
    assert(r7.2 == ActionV::ApplyEnv {
        ecosystem: eco_name,
        tool: y.name,
        key: y.env[0].key,
        value: y.env[0].value,
    });
    let s7 = r7.0;
    let r8 = step_spec(s7, evs[7]);
    assert(s7.backups.push(b3) =~= seq![b1, b2, b3]);
    assert(r8.0.mode == ModeV::AwaitEnv { e: 0, t: 1, v: 1 });
    assert(r8.0.backups =~= seq![b1, b2, b3]);
    assert(r8.2 == ActionV::ApplyEnv {
        ecosystem: eco_name,
        tool: y.name,
        key: y.env[1].key,
        value: y.env[1].value,
    });
    let s8 = r8.0;
    let r9 = step_spec(s8, evs[8]);
    assert(s8.backups.push(b4) =~= seq![b1, b2, b3, b4]);
    assert(r9.0.mode == ModeV::AwaitCmd { e: 0, t: 1, c: 0 });
    assert(r9.0.backups =~= seq![b1, b2, b3, b4]);
    assert(r9.2 == ActionV::RunCommand {
        ecosystem: eco_name,
        tool: y.name,
        command: y.commands[0],
    });
    let s9 = r9.0;
    let r10 = step_spec(s9, evs[9]);
    assert(r10.0.mode == ModeV::AwaitCmd { e: 0, t: 1, c: 1 });
    assert(r10.0.backups == s9.backups);
    assert(r10.2 == ActionV::RunCommand {
        ecosystem: eco_name,
        tool: y.name,
        command: y.commands[1],
    });
    let s10 = r10.0;
    let a_e2 = advance_eco(cfg, f, 1, s10.backups);
    assert(a_e2 == (ModeV::Done, Seq::<NoteV>::empty(), finish_of(s10.backups)));
    let a_t2 = advance_tool(cfg, f, 0, 2, s10.backups);
    assert(a_t2 == a_e2);
    let r11 = step_spec(s10, evs[10]);
    assert(r11.0.mode == ModeV::Done);
    assert(r11.2 == ActionV::Finish { restores: s10.backups.reverse() });
    assert(s10.backups.reverse() =~= seq![b4, b3, b2, b1]);
    let s11 = r11.0;

    let evs1 = evs.drop_first();
    let evs2 = evs1.drop_first();
    let evs3 = evs2.drop_first();
    let evs4 = evs3.drop_first();
    let evs5 = evs4.drop_first();
    let evs6 = evs5.drop_first();
    let evs7 = evs6.drop_first();
    let evs8 = evs7.drop_first();
    let evs9 = evs8.drop_first();
    let evs10 = evs9.drop_first();
    let evs11 = evs10.drop_first();
    assert(evs1[0] == evs[1] && evs1.len() == 10);
    assert(evs2[0] == evs[2] && evs2.len() == 9);
    assert(evs3[0] == evs[3] && evs3.len() == 8);
    assert(evs4[0] == evs[4] && evs4.len() == 7);
    assert(evs5[0] == evs[5] && evs5.len() == 6);
    assert(evs6[0] == evs[6] && evs6.len() == 5);
    assert(evs7[0] == evs[7] && evs7.len() == 4);
    assert(evs8[0] == evs[8] && evs8.len() == 3);
    assert(evs9[0] == evs[9] && evs9.len() == 2);
    assert(evs10[0] == evs[10] && evs10.len() == 1);
    assert(evs11.len() == 0);

    assert(run_actions(s11, evs11) =~= Seq::<ActionV>::empty());
    let c11 = seq![r11.2] + run_actions(s11, evs11);
    assert(run_actions(s10, evs10) == c11);
    assert(c11 =~= seq![r11.2]);
    let c10 = seq![r10.2] + run_actions(s10, evs10);
    assert(run_actions(s9, evs9) == c10);
    assert(c10 =~= seq![r10.2, r11.2]);
    let c9 = seq![r9.2] + run_actions(s9, evs9);
    assert(run_actions(s8, evs8) == c9);
    assert(c9 =~= seq![r9.2, r10.2, r11.2]);
    let c8 = seq![r8.2] + run_actions(s8, evs8);
    assert(run_actions(s7, evs7) == c8);
    assert(c8 =~= seq![r8.2, r9.2, r10.2, r11.2]);
    let c7 = seq![r7.2] + run_actions(s7, evs7);
    assert(run_actions(s6, evs6) == c7);
    assert(c7 =~= seq![r7.2, r8.2, r9.2, r10.2, r11.2]);
    let c6 = seq![r6.2] + run_actions(s6, evs6);
    assert(run_actions(s5, evs5) == c6);
    assert(c6 =~= seq![r6.2, r7.2, r8.2, r9.2, r10.2, r11.2]);
    let c5 = seq![r5.2] + run_actions(s5, evs5);
    assert(run_actions(s4, evs4) == c5);
    assert(c5 =~= seq![r5.2, r6.2, r7.2, r8.2, r9.2, r10.2, r11.2]);
    let c4 = seq![r4.2] + run_actions(s4, evs4);
    assert(run_actions(s3, evs3) == c4);
    assert(c4 =~= seq![r4.2, r5.2, r6.2, r7.2, r8.2, r9.2, r10.2, r11.2]);
    let c3 = seq![r3.2] + run_actions(s3, evs3);
    assert(run_actions(s2, evs2) == c3);
    assert(c3 =~= seq![r3.2, r4.2, r5.2, r6.2, r7.2, r8.2, r9.2, r10.2, r11.2]);
    let c2 = seq![r2.2] + run_actions(s2, evs2);
    assert(run_actions(s1, evs1) == c2);
    assert(c2 =~= seq![r2.2, r3.2, r4.2, r5.2, r6.2, r7.2, r8.2, r9.2, r10.2, r11.2]);
    let c1 = seq![r1.2] + run_actions(s1, evs1);
    assert(run_actions(s0, evs) == c1);
    assert(c1 =~= seq![
        r1.2,
        r2.2,
        r3.2,
        r4.2,
        r5.2,
        r6.2,
        r7.2,
        r8.2,
        r9.2,
        r10.2,
        r11.2,
    ]);
}


/// What `Finish` hands out is exactly the state's recorded backups,
/// last-in first-out.  Restoring them in the order given therefore
/// recovers the environment the run started from, by the restorability
/// invariant of `crate::restore`.
pub proof fn lemma_finish_restores_exactly(s: StateV, ev: EventV)
    ensures
        ({
            let (s2, ns, a) = step_spec(s, ev);
            a is Finish ==> a == finish_of(s2.backups)
        }),
{
    let cfg = s.config;
    let f = s.filter;
    match (s.mode, ev) {
        (ModeV::AwaitStart, EventV::Start) => {
            lemma_advance_eco_scan(cfg, f, 0, s.backups);
        },
        (ModeV::AwaitCheck { e }, EventV::CheckResult { ok }) => {
            if ok {
                lemma_advance_tool_scan(cfg, f, e, 0, s.backups);
            } else {
                lemma_advance_eco_scan(cfg, f, e + 1, s.backups);
            }
        },
        (ModeV::AwaitProbe { e, t }, EventV::ProbeResult { ok }) => {
            if ok {
                lemma_advance_tool_scan(cfg, f, e, t + 1, s.backups);
            } else {
                lemma_advance_tool_scan(cfg, f, e, t + 1, s.backups);
            }
        },
        (ModeV::AwaitEnv { e, t, v }, EventV::EnvApplied { prior }) => {
            let key = if e < cfg.len() && t < cfg[e as int].config.tools.len() && v < cfg[
                e as int
            ].config.tools[t as int].env.len() {
                cfg[e as int].config.tools[t as int].env[v as int].key
            } else {
                Seq::<char>::empty()
            };
            let backups = s.backups.push(BackupV { key, original_value: prior });
            lemma_advance_tool_scan(cfg, f, e, t + 1, backups);
        },
        (ModeV::AwaitCmd { e, t, c }, EventV::CmdResult { .. }) => {
            lemma_advance_tool_scan(cfg, f, e, t + 1, s.backups);
        },
        _ => {},
    }
}

} // verus!
