//! The driver's side of a wizard: the callbacks that decide, and the loop
//! that asks them one decision after the other.

use vstd::prelude::*;
use crate::resolve::{Resolution, ResolutionView};
use crate::table::Tables;
use crate::value::{BuildError, BuildErrorView, Value, ValueView};
use crate::wizard::{
    default_convertible, default_run, finish_outcome, initial, lemma_initial_wf, lemma_step_wf,
    state_wf, step, Wizard, WizardView,
};

verus! {

/// The decisions of a driver. The one method decides every decision point;
/// left as it is, it picks the first option, so that a driver overrides it
/// for the decisions it cares about only.
pub trait Callbacks {
    /// Picks one of the variants of the sum type `node`, whose tags
    /// `options` lists in declaration order, by its place in that list.
    fn pick(&self, node: &String, options: &Vec<String>) -> (choice: usize)
        default_ensures
            choice == 0,
    {
        0
    }
}

/// The callbacks that leave every decision to the default.
pub struct FirstOption;

impl Callbacks for FirstOption {

}

/// How many rows stand at or after the pending decision.
pub open spec fn remaining(t: Tables, s: WizardView) -> int {
    match s.pending {
        Some(q) => t.decisions.len() - q,
        None => 0,
    }
}

/// What a result says, as plain values.
pub open spec fn outcome_view(r: Result<Value, BuildError>) -> Result<ValueView, BuildErrorView> {
    match r {
        Ok(v) => Ok(v@),
        Err(e) => Err(e@),
    }
}

/// The outcome is what the replay of some answers gives.
pub open spec fn replayed(r: ResolutionView, outcome: Result<ValueView, BuildErrorView>) -> bool {
    exists|answers: Seq<usize>| #[trigger]
        finish_outcome(r, run(r.tables, initial(r.tables), answers, 0)) == outcome
}

/// Every choice from place `k` on is an option of the decision that is
/// pending when its turn comes.
pub open spec fn all_valid(t: Tables, s: WizardView, choices: Seq<usize>, k: int) -> bool
    decreases choices.len() - k,
{
    if k < 0 || k >= choices.len() {
        true
    } else {
        s.pending is Some && choices[k] < t.decisions[s.pending.unwrap() as int].options.len()
            && all_valid(t, step(t, s, choices[k]), choices, k + 1)
    }
}

/// A run over answers that are all options, followed by one more answer, is
/// the run over the answers with that one appended.
pub proof fn lemma_run_append(t: Tables, s: WizardView, choices: Seq<usize>, k: int, c: usize)
    requires
        0 <= k <= choices.len(),
        all_valid(t, s, choices, k),
    ensures
        run(t, s, choices.push(c), k) == run(t, run(t, s, choices, k), seq![c], 0),
        run(t, s, choices, k).pending is Some && c < t.decisions[run(
            t,
            s,
            choices,
            k,
        ).pending.unwrap() as int].options.len() ==> all_valid(t, s, choices.push(c), k),
    decreases choices.len() - k,
{
    let more = choices.push(c);
    if k < choices.len() {
        assert(more[k] == choices[k]);
        lemma_run_append(t, step(t, s, choices[k]), choices, k + 1, c);
    } else {
        assert(more[k] == c);
        assert(seq![c][0] == c);
        if s.pending is Some && c < t.decisions[s.pending.unwrap() as int].options.len() {
            assert(run(t, step(t, s, c), more, k + 1) == step(t, s, c));
            assert(run(t, step(t, s, c), seq![c], 1) == step(t, s, c));
            assert(all_valid(t, step(t, s, c), more, k + 1));
        }
    }
}

/// Builds the root value: asks the callbacks for every decision that the
/// choices made so far require, in the order of the table, and collapses the
/// complete state. Each decision is asked once. An answer that is no option
/// of its decision leaves the decision open, which is an error. Whatever the
/// callbacks answer, the outcome is that of the replay of their answers.
pub fn build<C: Callbacks>(table: &Resolution, callbacks: &C) -> (r: Result<Value, BuildError>)
    requires
        table.wf(),
    ensures
        replayed(table@, outcome_view(r)),
{
    let ghost t = table@.tables;
    let mut wizard = Wizard::new(table);
    let mut awaited = wizard.pending_row();
    let ghost mut answers: Seq<usize> = Seq::empty();
    while awaited.is_some()
        invariant
            table.wf(),
            wizard.wf(),
            wizard.table() == *table,
            t == table@.tables,
            match awaited {
                Some(row) => wizard@.pending is Some && row@
                    == t.decisions[wizard@.pending.unwrap() as int],
                None => wizard@.pending is None,
            },
            all_valid(t, initial(t), answers, 0),
            run(t, initial(t), answers, 0) == wizard@,
        decreases remaining(t, wizard@),
    {
        let row = awaited.unwrap();
        let choice = callbacks.pick(&row.node, &row.options);
        let ghost before = wizard@;
        proof {
            lemma_run_append(t, initial(t), answers, 0, choice);
            assert(seq![choice][0] == choice);
        }
        match wizard.fulfill(choice) {
            Ok(_) => {},
            Err(_) => {
                let r = Err(BuildError::Unfulfilled(row.node.clone()));
                proof {
                    assert(run(t, before, seq![choice], 0) == before);
                    assert(finish_outcome(table@, run(t, initial(t), answers.push(choice), 0))
                        == outcome_view(r));
                }
                return r;
            },
        }
        proof {
            lemma_step_wf(t, before, choice);
            assert(run(t, step(t, before, choice), seq![choice], 1) == step(t, before, choice));
            answers = answers.push(choice);
        }
        awaited = wizard.pending_row();
    }
    let r = wizard.finish();
    proof {
        assert(finish_outcome(table@, run(t, initial(t), answers, 0)) == outcome_view(r));
    }
    r
}

/// The state after the choices from place `k` on were given as answers, one
/// per pending decision, for as long as a decision is pending and the next
/// choice is one of its options.
pub open spec fn run(t: Tables, s: WizardView, choices: Seq<usize>, k: int) -> WizardView
    decreases choices.len() - k,
{
    if k < 0 || k >= choices.len() || s.pending is None || choices[k]
        >= t.decisions[s.pending.unwrap() as int].options.len() {
        s
    } else {
        run(t, step(t, s, choices[k]), choices, k + 1)
    }
}

/// Builds the root value from recorded answers: gives the choices as
/// answers, in their order, and collapses the state that results.
pub fn replay(table: &Resolution, choices: &Vec<usize>) -> (r: Result<Value, BuildError>)
    requires
        table.wf(),
    ensures
        match r {
            Ok(v) => finish_outcome(
                table@,
                run(table@.tables, initial(table@.tables), choices@, 0),
            ) == Ok::<ValueView, BuildErrorView>(v@),
            Err(e) => finish_outcome(
                table@,
                run(table@.tables, initial(table@.tables), choices@, 0),
            ) == Err::<ValueView, BuildErrorView>(e@),
        },
{
    let mut wizard = Wizard::new(table);
    let ghost t = table@.tables;
    let mut k: usize = 0;
    while k < choices.len()
        invariant
            table.wf(),
            wizard.wf(),
            wizard.table() == *table,
            t == table@.tables,
            k <= choices.len(),
            run(t, initial(t), choices@, 0) == run(t, wizard@, choices@, k as int),
        decreases choices.len() - k,
    {
        match wizard.fulfill(choices[k]) {
            Ok(_) => {},
            Err(_) => {
                return wizard.finish();
            },
        }
        k += 1;
    }
    wizard.finish()
}

/// Builds the root value by the defaults: answers every pending decision
/// with its first option. This succeeds wherever the first variant of every
/// decision that holds a bare tag carries no fields.
pub fn build_default(table: &Resolution) -> (r: Result<Value, BuildError>)
    requires
        table.wf(),
    ensures
        match r {
            Ok(v) => finish_outcome(
                table@,
                default_run(table@.tables, initial(table@.tables), table@.tables.decisions.len()),
            ) == Ok::<ValueView, BuildErrorView>(v@),
            Err(e) => finish_outcome(
                table@,
                default_run(table@.tables, initial(table@.tables), table@.tables.decisions.len()),
            ) == Err::<ValueView, BuildErrorView>(e@),
        },
        default_convertible(table@.tables) ==> r is Ok,
{
    let ghost t = table@.tables;
    let mut wizard = Wizard::new(table);
    let ghost mut fuel: nat = t.decisions.len();
    proof {
        lemma_initial_wf(t);
    }
    while !wizard.is_complete()
        invariant
            table.wf(),
            wizard.wf(),
            wizard.table() == *table,
            t == table@.tables,
            crate::wizard::all_first(t, wizard@),
            wizard@.pending is Some ==> fuel + wizard@.pending.unwrap() >= t.decisions.len(),
            default_run(t, initial(t), t.decisions.len()) == default_run(t, wizard@, fuel),
        decreases remaining(t, wizard@),
    {
        let ghost before = wizard@;
        proof {
            assert(crate::table::row_wf(t, before.pending.unwrap() as int));
            lemma_step_wf(t, before, 0);
        }
        match wizard.fulfill(0) {
            Ok(_) => {},
            Err(_) => vstd::pervasive::unreached(),
        }
        proof {
            fuel = (fuel - 1) as nat;
        }
    }
    proof {
        if default_convertible(t) {
            assert(crate::wizard::convertible(t, wizard@.chosen));
        }
    }
    wizard.finish()
}

/// No decision is asked twice: once a decision was answered, no later
/// answer of the run changes its slot, and the decision is never pending
/// again.
pub proof fn lemma_not_asked_again(t: Tables, s: WizardView, choices: Seq<usize>, k: int, d: int)
    requires
        crate::table::tables_wf(t),
        t.decisions.len() <= usize::MAX,
        state_wf(t, s),
        0 <= d < t.decisions.len(),
        s.chosen[d] is Some,
    ensures
        run(t, s, choices, k).chosen[d] == s.chosen[d],
        run(t, s, choices, k).pending != Some(d as usize),
        state_wf(t, run(t, s, choices, k)),
    decreases choices.len() - k,
{
    if k < 0 || k >= choices.len() || s.pending is None || choices[k]
        >= t.decisions[s.pending.unwrap() as int].options.len() {
    } else {
        lemma_step_wf(t, s, choices[k]);
        lemma_not_asked_again(t, step(t, s, choices[k]), choices, k + 1, d);
    }
}

} // verus!
