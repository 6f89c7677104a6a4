//! The environment model and the restoration guarantee.
//!
//! The process environment is modelled as a map from variable names to
//! values; an absent key is an unset variable.  Applying an assignment
//! overwrites the key unconditionally and records the value it held before
//! (or its absence); restoring a record sets the key back or removes it.
//! The laws here state the engine's central resource-safety contract.
//! Applying any sequence of assignments and then restoring the records
//! last-in first-out — the order in which [`crate::runner::Engine`] hands
//! them back — returns the environment exactly to its starting state,
//! duplicate keys included; with pairwise distinct keys the records may be
//! restored in any order.  Restorability is also shown to be an invariant
//! that every step of the engine preserves when the reported prior values
//! are truthful.

use vstd::prelude::*;

use crate::runner::step_spec;
use crate::runner::BackupV;
use crate::runner::EventV;
use crate::runner::ModeV;
use crate::runner::StateV;
use crate::yaml_config::EnvVarV;

verus! {

/// The value a key holds in the environment, or `None` if it is unset.
pub open spec fn env_lookup(env: Map<Seq<char>, Seq<char>>, key: Seq<char>) -> Option<Seq<char>> {
    if env.dom().contains(key) {
        Some(env[key])
    } else {
        None
    }
}

/// The environment after one unconditional assignment.
pub open spec fn env_apply(
    env: Map<Seq<char>, Seq<char>>,
    key: Seq<char>,
    value: Seq<char>,
) -> Map<Seq<char>, Seq<char>> {
    env.insert(key, value)
}

/// The environment after restoring one record: the key is set back to its
/// recorded value, or removed if it was absent.
pub open spec fn env_restore(env: Map<Seq<char>, Seq<char>>, b: BackupV) -> Map<
    Seq<char>,
    Seq<char>,
> {
    match b.original_value {
        Some(v) => env.insert(b.key, v),
        None => env.remove(b.key),
    }
}

/// The environment after applying a sequence of assignments in order.
pub open spec fn env_apply_all(env: Map<Seq<char>, Seq<char>>, ps: Seq<EnvVarV>) -> Map<
    Seq<char>,
    Seq<char>,
>
    decreases ps.len(),
{
    if ps.len() == 0 {
        env
    } else {
        env_apply_all(env_apply(env, ps[0].key, ps[0].value), ps.drop_first())
    }
}

/// The records taken while applying a sequence of assignments in order:
/// for each assignment, the value its key held at that moment.
pub open spec fn backups_for(env: Map<Seq<char>, Seq<char>>, ps: Seq<EnvVarV>) -> Seq<BackupV>
    decreases ps.len(),
{
    if ps.len() == 0 {
        Seq::<BackupV>::empty()
    } else {
        seq![BackupV { key: ps[0].key, original_value: env_lookup(env, ps[0].key) }]
            + backups_for(env_apply(env, ps[0].key, ps[0].value), ps.drop_first())
    }
}

/// The environment after restoring a sequence of records in order.
pub open spec fn env_restore_all(env: Map<Seq<char>, Seq<char>>, bs: Seq<BackupV>) -> Map<
    Seq<char>,
    Seq<char>,
>
    decreases bs.len(),
{
    if bs.len() == 0 {
        env
    } else {
        env_restore_all(env_restore(env, bs[0]), bs.drop_first())
    }
}

proof fn lemma_restore_all_push(env: Map<Seq<char>, Seq<char>>, bs: Seq<BackupV>, b: BackupV)
    ensures
        env_restore_all(env, bs.push(b)) == env_restore(env_restore_all(env, bs), b),
    decreases bs.len(),
{
    if bs.len() == 0 {
        assert(bs.push(b)[0] == b);
        assert(bs.push(b).drop_first() =~= Seq::<BackupV>::empty());
        assert(env_restore_all(env_restore(env, b), Seq::<BackupV>::empty()) == env_restore(
            env,
            b,
        ));
        assert(env_restore_all(env, bs.push(b)) == env_restore(env, b));
        assert(env_restore_all(env, bs) == env);
    } else {
        assert(bs.push(b)[0] == bs[0]);
        assert(bs.push(b).drop_first() =~= bs.drop_first().push(b));
        lemma_restore_all_push(env_restore(env, bs[0]), bs.drop_first(), b);
        assert(env_restore_all(env, bs.push(b)) == env_restore_all(
            env_restore(env, bs[0]),
            bs.drop_first().push(b),
        ));
        assert(env_restore_all(env, bs) == env_restore_all(
            env_restore(env, bs[0]),
            bs.drop_first(),
        ));
    }
}

/// Restoration idempotence: apply any sequence of assignments, recording
/// for each the value its key held at that moment, then restore the
/// records last-in first-out.  The environment is returned exactly to its
/// starting state, for every key touched — also when the same key was
/// applied more than once.
pub proof fn lemma_restoration_round_trip(env: Map<Seq<char>, Seq<char>>, ps: Seq<EnvVarV>)
    ensures
        env_restore_all(env_apply_all(env, ps), backups_for(env, ps).reverse()) == env,
    decreases ps.len(),
{
    if ps.len() == 0 {
        assert(backups_for(env, ps).reverse() =~= Seq::<BackupV>::empty());
    } else {
        let k = ps[0].key;
        let b0 = BackupV { key: k, original_value: env_lookup(env, k) };
        let env1 = env_apply(env, k, ps[0].value);
        let rest = backups_for(env1, ps.drop_first());
        lemma_restoration_round_trip(env1, ps.drop_first());
        assert(backups_for(env, ps) =~= seq![b0] + rest);
        assert((seq![b0] + rest).reverse() =~= rest.reverse().push(b0));
        lemma_restore_all_push(env_apply_all(env1, ps.drop_first()), rest.reverse(), b0);
        if env.dom().contains(k) {
            assert(env1.insert(k, env[k]) =~= env);
        } else {
            assert(env1.remove(k) =~= env);
        }
    }
}


/// The key that the assignment the engine awaits an outcome for writes,
/// when the state awaits one.
pub open spec fn pending_env_key(s: StateV) -> Seq<char> {
    match s.mode {
        ModeV::AwaitEnv { e, t, v } => {
            if e < s.config.len() && t < s.config[e as int].config.tools.len() && v < s.config[
                e as int
            ].config.tools[t as int].env.len() {
                s.config[e as int].config.tools[t as int].env[v as int].key
            } else {
                Seq::<char>::empty()
            }
        },
        _ => Seq::<char>::empty(),
    }
}

/// The value that the assignment the engine awaits an outcome for writes,
/// when the state awaits one.
pub open spec fn pending_env_value(s: StateV) -> Seq<char> {
    match s.mode {
        ModeV::AwaitEnv { e, t, v } => {
            if e < s.config.len() && t < s.config[e as int].config.tools.len() && v < s.config[
                e as int
            ].config.tools[t as int].env.len() {
                s.config[e as int].config.tools[t as int].env[v as int].value
            } else {
                Seq::<char>::empty()
            }
        },
        _ => Seq::<char>::empty(),
    }
}

/// Restorability: restoring the state's recorded backups last-in first-out
/// recovers the given environment.
pub open spec fn restores_to(s: StateV, env: Map<Seq<char>, Seq<char>>, env0: Map<
    Seq<char>,
    Seq<char>,
>) -> bool {
    env_restore_all(env, s.backups.reverse()) == env0
}

/// Restorability is an invariant of every run.  `env` is the environment
/// at the moment the step's event is reported.  A step that consumed the
/// outcome of an assignment leaves the invariant standing over the mutated
/// environment, provided the reported prior is truthful — the value the
/// key held when it was overwritten; every other step changes neither the
/// environment nor the backups.  A fresh engine restores trivially, so by
/// induction every reachable state restores to the starting environment.
pub proof fn lemma_step_keeps_restorability(
    s: StateV,
    ev: EventV,
    env0: Map<Seq<char>, Seq<char>>,
    env: Map<Seq<char>, Seq<char>>,
)
    requires
        restores_to(s, env, env0),
    ensures
        ({
            let s2 = step_spec(s, ev).0;
            match (s.mode, ev) {
                (ModeV::AwaitEnv { e, t, v }, EventV::EnvApplied { prior }) => prior == env_lookup(
                    env,
                    pending_env_key(s),
                ) ==> restores_to(
                    s2,
                    env_apply(env, pending_env_key(s), pending_env_value(s)),
                    env0,
                ),
                _ => restores_to(s2, env, env0),
            }
        }),
{
    let s2 = step_spec(s, ev).0;
    match (s.mode, ev) {
        (ModeV::AwaitEnv { e, t, v }, EventV::EnvApplied { prior }) => {
            if prior == env_lookup(env, pending_env_key(s)) {
                let k = pending_env_key(s);
                let b = BackupV { key: k, original_value: prior };
                assert(s2.backups =~= s.backups.push(b));
                assert(s2.backups.reverse() =~= seq![b] + s.backups.reverse());
                let env1 = env_apply(env, k, pending_env_value(s));
                assert((seq![b] + s.backups.reverse()).drop_first() =~= s.backups.reverse());
                if env.dom().contains(k) {
                    assert(env1.insert(k, env[k]) =~= env);
                } else {
                    assert(env1.remove(k) =~= env);
                }
                assert(env_restore(env1, b) == env);
                assert(env_restore_all(env1, s2.backups.reverse()) == env_restore_all(
                    env,
                    s.backups.reverse(),
                ));
            }
        },
        _ => {
            assert(s2.backups == s.backups);
        },
    }
}


/// Whether the keys of the assignments are pairwise distinct.
pub open spec fn distinct_keys(ps: Seq<EnvVarV>) -> bool {
    forall|i: int, j: int| 0 <= i < j < ps.len() ==> ps[i].key != ps[j].key
}

/// Whether the two environments agree on the key: both hold it with the
/// same value, or neither holds it.
pub open spec fn same_at(
    m1: Map<Seq<char>, Seq<char>>,
    m2: Map<Seq<char>, Seq<char>>,
    k: Seq<char>,
) -> bool {
    &&& m1.dom().contains(k) == m2.dom().contains(k)
    &&& (m1.dom().contains(k) ==> m1[k] == m2[k])
}

proof fn lemma_restore_all_untouched(
    m: Map<Seq<char>, Seq<char>>,
    bs: Seq<BackupV>,
    k: Seq<char>,
)
    requires
        forall|i: int| 0 <= i < bs.len() ==> bs[i].key != k,
    ensures
        same_at(env_restore_all(m, bs), m, k),
    decreases bs.len(),
{
    if bs.len() > 0 {
        let m1 = env_restore(m, bs[0]);
        assert(same_at(m1, m, k));
        assert forall|i: int| 0 <= i < bs.drop_first().len() implies bs.drop_first()[i].key
            != k by {
            assert(bs.drop_first()[i] == bs[i + 1]);
        }
        lemma_restore_all_untouched(m1, bs.drop_first(), k);
    }
}

proof fn lemma_restore_all_hits(m: Map<Seq<char>, Seq<char>>, bs: Seq<BackupV>, i: int)
    requires
        0 <= i < bs.len(),
        forall|j: int| 0 <= j < bs.len() && j != i ==> bs[j].key != bs[i].key,
    ensures
        ({
            let r = env_restore_all(m, bs);
            match bs[i].original_value {
                Some(v) => r.dom().contains(bs[i].key) && r[bs[i].key] == v,
                None => !r.dom().contains(bs[i].key),
            }
        }),
    decreases bs.len(),
{
    let k = bs[i].key;
    let m1 = env_restore(m, bs[0]);
    if i == 0 {
        assert forall|j: int| 0 <= j < bs.drop_first().len() implies bs.drop_first()[j].key
            != k by {
            assert(bs.drop_first()[j] == bs[j + 1]);
        }
        lemma_restore_all_untouched(m1, bs.drop_first(), k);
    } else {
        assert(bs.drop_first()[i - 1] == bs[i]);
        assert forall|j: int| #![trigger bs.drop_first()[j]]
            0 <= j < bs.drop_first().len() && j != i - 1 implies bs.drop_first()[j].key
            != bs.drop_first()[i - 1].key by {
            assert(bs.drop_first()[j] == bs[j + 1]);
        }
        lemma_restore_all_hits(m1, bs.drop_first(), i - 1);
    }
}

proof fn lemma_apply_all_untouched(
    env: Map<Seq<char>, Seq<char>>,
    ps: Seq<EnvVarV>,
    k: Seq<char>,
)
    requires
        forall|i: int| 0 <= i < ps.len() ==> ps[i].key != k,
    ensures
        same_at(env_apply_all(env, ps), env, k),
    decreases ps.len(),
{
    if ps.len() > 0 {
        let env1 = env_apply(env, ps[0].key, ps[0].value);
        assert(same_at(env1, env, k));
        assert forall|i: int| 0 <= i < ps.drop_first().len() implies ps.drop_first()[i].key
            != k by {
            assert(ps.drop_first()[i] == ps[i + 1]);
        }
        lemma_apply_all_untouched(env1, ps.drop_first(), k);
    }
}

proof fn lemma_backups_truthful(env: Map<Seq<char>, Seq<char>>, ps: Seq<EnvVarV>)
    requires
        distinct_keys(ps),
    ensures
        backups_for(env, ps).len() == ps.len(),
        forall|i: int| #![auto]
            0 <= i < ps.len() ==> backups_for(env, ps)[i] == (BackupV {
                key: ps[i].key,
                original_value: env_lookup(env, ps[i].key),
            }),
    decreases ps.len(),
{
    if ps.len() > 0 {
        let env1 = env_apply(env, ps[0].key, ps[0].value);
        let dp = ps.drop_first();
        assert forall|i: int, j: int| 0 <= i < j < dp.len() implies dp[i].key != dp[j].key by {
            assert(dp[i] == ps[i + 1]);
            assert(dp[j] == ps[j + 1]);
        }
        lemma_backups_truthful(env1, dp);
        let bsf = backups_for(env, ps);
        assert forall|i: int| #![auto] 0 <= i < ps.len() implies bsf[i] == (BackupV {
            key: ps[i].key,
            original_value: env_lookup(env, ps[i].key),
        }) by {
            if i > 0 {
                assert(bsf[i] == backups_for(env1, dp)[i - 1]);
                assert(dp[i - 1] == ps[i]);
                assert(ps[i].key != ps[0].key);
                assert(env_lookup(env1, ps[i].key) == env_lookup(env, ps[i].key));
            }
        }
    }
}

/// Restoration in any order: when the applied keys are pairwise distinct,
/// restoring the records exactly once each — in whatever order — returns
/// the environment exactly to its starting state.  The distinctness
/// proviso is essential: when one key is applied twice, only last-in
/// first-out restoration recovers the start, which the law above proves.
pub proof fn lemma_restoration_any_order(
    env: Map<Seq<char>, Seq<char>>,
    ps: Seq<EnvVarV>,
    order: Seq<int>,
)
    requires
        distinct_keys(ps),
        order.len() == ps.len(),
        forall|j: int| #![trigger order[j]] 0 <= j < order.len() ==> 0 <= order[j] < ps.len(),
        forall|j1: int, j2: int| #![trigger order[j1], order[j2]] 0 <= j1 < j2 < order.len() ==> order[j1] != order[j2],
        forall|i: int| #![trigger ps[i]]
            0 <= i < ps.len() ==> exists|j: int| #![trigger order[j]] 0 <= j < order.len()
                && order[j] == i,
    ensures
        ({
            let shuffled = Seq::new(order.len() as nat, |j: int| backups_for(env, ps)[order[j]]);
            env_restore_all(env_apply_all(env, ps), shuffled) == env
        }),
{
    let applied = env_apply_all(env, ps);
    let bsf = backups_for(env, ps);
    lemma_backups_truthful(env, ps);
    let shuffled = Seq::new(order.len() as nat, |j: int| bsf[order[j]]);
    let r = env_restore_all(applied, shuffled);
    assert forall|k: Seq<char>| same_at(r, env, k) by {
        if exists|i: int| 0 <= i < ps.len() && ps[i].key == k {
            let i = choose|i: int| 0 <= i < ps.len() && ps[i].key == k;
            let j = choose|j: int| 0 <= j < order.len() && order[j] == i;
            assert(shuffled[j] == bsf[i]);
            assert(shuffled[j].key == k);
            assert forall|j2: int| #![trigger shuffled[j2]]
                0 <= j2 < shuffled.len() && j2 != j implies shuffled[j2].key
                != shuffled[j].key by {
                assert(shuffled[j2] == bsf[order[j2]]);
                assert(order[j2] != i);
                assert(ps[order[j2]].key != ps[i].key);
            }
            lemma_restore_all_hits(applied, shuffled, j);
            assert(shuffled[j].original_value == env_lookup(env, k));
        } else {
            assert forall|j: int| #![trigger shuffled[j]] 0 <= j < shuffled.len() implies shuffled[j].key != k by {
                assert(shuffled[j] == bsf[order[j]]);
                assert(shuffled[j].key == ps[order[j]].key);
            }
            lemma_restore_all_untouched(applied, shuffled, k);
            assert forall|i: int| #![trigger ps[i]] 0 <= i < ps.len() implies ps[i].key != k by {}
            lemma_apply_all_untouched(env, ps, k);
        }
    }
    assert forall|k: Seq<char>| r.dom().contains(k) == env.dom().contains(k) by {
        assert(same_at(r, env, k));
    }
    assert(r.dom() =~= env.dom());
    assert forall|k: Seq<char>| r.dom().contains(k) implies r[k] == env[k] by {
        assert(same_at(r, env, k));
    }
    assert(r =~= env);
}

} // verus!
