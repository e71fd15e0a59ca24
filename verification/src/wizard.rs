//! The wizard: the state machine that takes one decision after the other,
//! in the order that the decision table gives, until the root can be built.

use vstd::prelude::*;
use crate::resolve::Resolution;
use crate::table::{
    branch_before, branch_of, link_first, link_ok, parent_linked, decisions_view, layout_wf,
    row_wf, slot_ok, tables_wf, variant_layout_ok, DecisionPoint, Slot, SlotKind, SlotView, Tables,
};
use crate::value::{names_view, values_view, BuildError, BuildErrorView, Value, ValueView};

verus! {

/// Whether the decision at place `e` is required by the choices made so
/// far: it stands under no decision, or under the variant chosen for a
/// decision that is itself required.
pub open spec fn active(t: Tables, chosen: Seq<Option<usize>>, e: int) -> bool
    decreases e,
{
    if e < 0 || e >= t.decisions.len() || e >= chosen.len() {
        false
    } else {
        match t.decisions[e].parent {
            None => true,
            Some(p) => p.0 < e && chosen[p.0 as int] == Some(p.1) && active(t, chosen, p.0 as int),
        }
    }
}

/// The first required decision at or after place `from`.
pub open spec fn next_active(t: Tables, chosen: Seq<Option<usize>>, from: int) -> Option<usize>
    decreases t.decisions.len() - from,
{
    if from < 0 || from >= t.decisions.len() {
        None
    } else if active(t, chosen, from) {
        Some(from as usize)
    } else {
        next_active(t, chosen, from + 1)
    }
}

/// The state of a wizard, as plain values: the variant chosen for each
/// decision that was taken, and the decision that awaits an answer.
pub struct WizardView {
    pub chosen: Seq<Option<usize>>,
    pub pending: Option<usize>,
}

/// The state before any decision: nothing chosen, the first decision
/// pending.
pub open spec fn initial(t: Tables) -> WizardView {
    let chosen = Seq::new(t.decisions.len(), |i: int| None::<usize>);
    WizardView { chosen, pending: next_active(t, chosen, 0) }
}

/// The state after the pending decision was answered with its variant `c`:
/// the choice is stored, and the next required decision is pending.
pub open spec fn step(t: Tables, s: WizardView, c: usize) -> WizardView {
    let d = s.pending.unwrap() as int;
    let chosen = s.chosen.update(d, Some(c));
    WizardView { chosen, pending: next_active(t, chosen, d + 1) }
}

/// What holds of every state that a wizard reaches: each stored choice is a
/// variant of its decision; the decisions taken are those before the pending
/// one that the choices require; the pending decision is required.
pub open spec fn state_wf(t: Tables, s: WizardView) -> bool {
    let bound = match s.pending {
        Some(q) => q as int,
        None => t.decisions.len() as int,
    };
    &&& s.chosen.len() == t.decisions.len()
    &&& 0 <= bound <= t.decisions.len()
    &&& (s.pending is Some ==> bound < t.decisions.len() && active(t, s.chosen, bound))
    &&& forall|e: int|
        0 <= e < s.chosen.len() && (#[trigger] s.chosen[e]) is Some ==> e < bound
            && s.chosen[e].unwrap() < t.decisions[e].options.len()
    &&& forall|e: int| 0 <= e < bound && #[trigger] active(t, s.chosen, e) ==> s.chosen[e] is Some
}

/// Whether a decision is required depends only on the choices stored for
/// earlier decisions.
pub proof fn lemma_active_frame(t: Tables, a: Seq<Option<usize>>, b: Seq<Option<usize>>, e: int)
    requires
        a.len() == b.len(),
        forall|i: int| 0 <= i < e && i < a.len() ==> a[i] == b[i],
    ensures
        active(t, a, e) == active(t, b, e),
    decreases e,
{
    if e < 0 || e >= t.decisions.len() || e >= a.len() {
    } else {
        match t.decisions[e].parent {
            None => {},
            Some(p) => {
                if p.0 < e {
                    lemma_active_frame(t, a, b, p.0 as int);
                }
            },
        }
    }
}

/// The first required decision at or after a place is required, stands at
/// or after that place, and no decision between the two is required.
pub proof fn lemma_next_active(t: Tables, chosen: Seq<Option<usize>>, from: int)
    requires
        0 <= from,
        t.decisions.len() <= usize::MAX,
    ensures
        match next_active(t, chosen, from) {
            Some(q) => from <= q < t.decisions.len() && active(t, chosen, q as int) && forall|e: int|
                from <= e < q ==> !active(t, chosen, e),
            None => forall|e: int| from <= e < t.decisions.len() ==> !active(t, chosen, e),
        },
    decreases t.decisions.len() - from,
{
    if from >= t.decisions.len() {
    } else if active(t, chosen, from) {
    } else {
        lemma_next_active(t, chosen, from + 1);
    }
}

/// The initial state is one that a wizard may be in.
pub proof fn lemma_initial_wf(t: Tables)
    requires
        t.decisions.len() <= usize::MAX,
    ensures
        state_wf(t, initial(t)),
{
    let s = initial(t);
    lemma_next_active(t, s.chosen, 0);
}

/// A step from a state that a wizard may be in, with a variant of the
/// pending decision, leads to such a state again, and the pending decision
/// moves on.
pub proof fn lemma_step_wf(t: Tables, s: WizardView, c: usize)
    requires
        t.decisions.len() <= usize::MAX,
        state_wf(t, s),
        s.pending is Some,
        c < t.decisions[s.pending.unwrap() as int].options.len(),
    ensures
        state_wf(t, step(t, s, c)),
        step(t, s, c).pending is Some ==> step(t, s, c).pending.unwrap() > s.pending.unwrap(),
{
    let d = s.pending.unwrap() as int;
    let n = step(t, s, c);
    lemma_next_active(t, n.chosen, d + 1);
    let bound = match n.pending {
        Some(q) => q as int,
        None => t.decisions.len() as int,
    };
    assert forall|e: int| 0 <= e < bound && #[trigger] active(t, n.chosen, e) implies n.chosen[e] is Some by {
        if e < d {
            lemma_active_frame(t, s.chosen, n.chosen, e);
        }
    }
}

/// The value of a chosen variant that carries no fields, or the refusal of
/// one that does: a bare tag stands for a whole value only where the variant
/// has no payload.
pub open spec fn tag_value(row: crate::table::DecisionView, c: int) -> Result<
    ValueView,
    BuildErrorView,
> {
    if row.payload[c] {
        Err(BuildErrorView::PayloadVariant { node: row.node, tag: row.options[c] })
    } else {
        Ok(
            ValueView::Variant {
                ty_name: row.node,
                tag: row.options[c],
                names: Seq::empty(),
                values: Seq::empty(),
            },
        )
    }
}

/// The value that a slot of a layout below place `ul` collapses into: a
/// leaf is opaque; a sub-builder gives the value of its layout; a decision
/// gives the chosen variant, with the values of its fields where the
/// decision is expandable, and as a bare tag where it is not. A decision
/// that was not taken is an error.
pub open spec fn slot_value(t: Tables, chosen: Seq<Option<usize>>, s: SlotView, ul: int) -> Result<
    ValueView,
    BuildErrorView,
>
    decreases ul, 0nat, 0nat,
{
    match s.kind {
        SlotKind::Leaf => Ok(ValueView::Opaque { ty_name: s.ty_name }),
        SlotKind::Nested(m) => {
            if m < ul {
                layout_value(t, chosen, m as int)
            } else {
                Err(BuildErrorView::Unfulfilled(s.ty_name))
            }
        },
        SlotKind::Decision(e) => {
            if e >= t.decisions.len() || e >= chosen.len() {
                Err(BuildErrorView::Unfulfilled(s.ty_name))
            } else {
                let row = t.decisions[e as int];
                match chosen[e as int] {
                    None => Err(BuildErrorView::Unfulfilled(row.node)),
                    Some(c) => {
                        if !row.expandable {
                            tag_value(row, c as int)
                        } else if c < row.layouts.len() && row.layouts[c as int] < ul {
                            match layout_members(
                                t,
                                chosen,
                                row.layouts[c as int] as int,
                                0,
                                Seq::empty(),
                                Seq::empty(),
                            ) {
                                Err(e) => Err(e),
                                Ok((names, values)) => Ok(
                                    ValueView::Variant {
                                        ty_name: row.node,
                                        tag: row.options[c as int],
                                        names,
                                        values,
                                    },
                                ),
                            }
                        } else {
                            Err(BuildErrorView::Unfulfilled(row.node))
                        }
                    },
                }
            }
        },
    }
}

/// The names and values of the slots, from place `k` on, of the layout at
/// place `l`, appended to those gathered so far.
pub open spec fn layout_members(
    t: Tables,
    chosen: Seq<Option<usize>>,
    l: int,
    k: int,
    names: Seq<Option<Seq<char>>>,
    values: Seq<ValueView>,
) -> Result<(Seq<Option<Seq<char>>>, Seq<ValueView>), BuildErrorView>
    decreases l, 1nat, t.layouts[l].slots.len() - k,
{
    if l < 0 || k < 0 || k >= t.layouts[l].slots.len() {
        Ok((names, values))
    } else {
        match slot_value(t, chosen, t.layouts[l].slots[k], l) {
            Err(e) => Err(e),
            Ok(v) => layout_members(
                t,
                chosen,
                l,
                k + 1,
                names.push(t.layouts[l].slots[k].name),
                values.push(v),
            ),
        }
    }
}

/// The value that the layout at place `l` collapses into: a value of the
/// product type that owns the layout.
pub open spec fn layout_value(t: Tables, chosen: Seq<Option<usize>>, l: int) -> Result<
    ValueView,
    BuildErrorView,
>
    decreases l, 2nat, 0nat,
{
    match layout_members(t, chosen, l, 0, Seq::empty(), Seq::empty()) {
        Err(e) => Err(e),
        Ok((names, values)) => Ok(ValueView::Record { ty_name: t.layouts[l].owner, names, values }),
    }
}

/// Why a choice is refused.
#[derive(Clone, Copy, PartialEq, Eq, Debug)]
pub enum WizardError {
    /// No decision awaits an answer: the wizard is complete.
    NothingPending,
    /// The choice is not one of the variants of the pending decision.
    UnknownOption,
}

/// A wizard in progress over a decision table.
pub struct Wizard<'a> {
    table: &'a Resolution,
    chosen: Vec<Option<usize>>,
    pending: Option<usize>,
}

impl<'a> View for Wizard<'a> {
    type V = WizardView;

    closed spec fn view(&self) -> WizardView {
        WizardView { chosen: self.chosen@, pending: self.pending }
    }
}

impl<'a> Wizard<'a> {
    /// The decision table that the wizard goes by.
    pub closed spec fn table(&self) -> Resolution {
        *self.table
    }

    /// The wizard is in a state that its table allows.
    pub open spec fn wf(&self) -> bool {
        self.table().wf() && state_wf(self.table()@.tables, self@)
    }

    fn is_active(&self, e: usize) -> (r: bool)
        requires
            self.table().wf(),
            self@.chosen.len() == self.table()@.tables.decisions.len(),
            e < self@.chosen.len(),
        ensures
            r == active(self.table()@.tables, self@.chosen, e as int),
    {
        let rows = self.table.decisions();
        let ghost t = self.table()@.tables;
        let mut cur: usize = e;
        loop
            invariant
                decisions_view(rows@) == t.decisions,
                t == self.table()@.tables,
                tables_wf(t),
                self@.chosen.len() == t.decisions.len(),
                cur < self@.chosen.len(),
                active(t, self@.chosen, e as int) == active(t, self@.chosen, cur as int),
            decreases cur,
        {
            assert(row_wf(t, cur as int));
            assert(t.decisions[cur as int] == rows[cur as int]@);
            match rows[cur].parent {
                None => {
                    return true;
                },
                Some(p) => {
                    match self.chosen[p.0] {
                        Some(c) => {
                            if c != p.1 {
                                return false;
                            }
                        },
                        None => {
                            return false;
                        },
                    }
                    cur = p.0;
                },
            }
        }
    }

    fn scan(&self, from: usize) -> (r: Option<usize>)
        requires
            self.table().wf(),
            self@.chosen.len() == self.table()@.tables.decisions.len(),
        ensures
            r == next_active(self.table()@.tables, self@.chosen, from as int),
    {
        let n = self.chosen.len();
        let ghost t = self.table()@.tables;
        let mut e: usize = from;
        while e < n
            invariant
                n == self@.chosen.len(),
                t == self.table()@.tables,
                self.table().wf(),
                self@.chosen.len() == t.decisions.len(),
                from <= e,
                next_active(t, self@.chosen, from as int) == next_active(t, self@.chosen, e as int),
            decreases n - e,
        {
            if self.is_active(e) {
                return Some(e);
            }
            e += 1;
        }
        None
    }

    /// A wizard before any decision.
    pub fn new(table: &'a Resolution) -> (r: Wizard<'a>)
        requires
            table.wf(),
        ensures
            r.wf(),
            r.table() == *table,
            r@ == initial(table@.tables),
    {
        let n = table.decisions().len();
        let mut chosen: Vec<Option<usize>> = Vec::new();
        let mut i: usize = 0;
        while i < n
            invariant
                i <= n,
                chosen.len() == i,
                forall|k: int| 0 <= k < i ==> chosen[k] is None,
            decreases n - i,
        {
            chosen.push(None);
            i += 1;
        }
        let mut r = Wizard { table, chosen, pending: None };
        assert(r@.chosen =~= initial(table@.tables).chosen);
        let first = r.scan(0);
        r.pending = first;
        proof {
            lemma_initial_wf(table@.tables);
        }
        r
    }

    /// The decision that awaits an answer, by its place in the table; `None`
    /// once every required decision was taken.
    pub fn pending(&self) -> (r: Option<usize>)
        ensures
            r == self@.pending,
    {
        self.pending
    }

    /// Whether every decision that the choices require was taken.
    pub fn is_complete(&self) -> (r: bool)
        ensures
            r == (self@.pending is None),
    {
        self.pending.is_none()
    }

    /// The row of the pending decision.
    pub fn pending_row(&self) -> (r: Option<&'a DecisionPoint>)
        requires
            self.wf(),
        ensures
            match r {
                Some(row) => self@.pending is Some && row@
                    == self.table()@.tables.decisions[self@.pending.unwrap() as int],
                None => self@.pending is None,
            },
    {
        match self.pending {
            Some(d) => {
                let rows = self.table.decisions();
                assert(rows[d as int]@ == decisions_view(rows@)[d as int]);
                Some(&rows[d])
            },
            None => None,
        }
    }

    /// Answers the pending decision with its variant at place `choice`. The
    /// choice is stored in the slot of the decision and the wizard moves to
    /// the next decision that the choices require. Returns the decision that
    /// the table links to the chosen variant: the one that this choice
    /// triggers.
    pub fn fulfill(&mut self, choice: usize) -> (r: Result<Option<usize>, WizardError>)
        requires
            old(self).wf(),
        ensures
            final(self).wf(),
            final(self).table() == old(self).table(),
            match r {
                Ok(triggered) => {
                    &&& old(self)@.pending is Some
                    &&& choice < old(self).table()@.tables.decisions[old(
                        self,
                    )@.pending.unwrap() as int].options.len()
                    &&& final(self)@ == step(old(self).table()@.tables, old(self)@, choice)
                    &&& triggered == old(self).table()@.tables.decisions[old(
                        self,
                    )@.pending.unwrap() as int].links[choice as int]
                },
                Err(WizardError::NothingPending) => old(self)@.pending is None && final(self)@ == old(
                    self,
                )@,
                Err(WizardError::UnknownOption) => {
                    &&& old(self)@.pending is Some
                    &&& choice >= old(self).table()@.tables.decisions[old(
                        self,
                    )@.pending.unwrap() as int].options.len()
                    &&& final(self)@ == old(self)@
                },
            },
    {
        let ghost t = self.table()@.tables;
        match self.pending {
            None => Err(WizardError::NothingPending),
            Some(d) => {
                let rows = self.table.decisions();
                assert(row_wf(t, d as int));
                assert(rows[d as int]@ == t.decisions[d as int]);
                let row = &rows[d];
                if choice >= row.options.len() {
                    return Err(WizardError::UnknownOption);
                }
                let triggered = row.links[choice];
                let ghost before = self@;
                self.chosen.set(d, Some(choice));
                let next = if d + 1 < self.chosen.len() {
                    self.scan(d + 1)
                } else {
                    None
                };
                self.pending = next;
                proof {
                    lemma_step_wf(t, before, choice);
                    assert(self@.chosen == step(t, before, choice).chosen);
                }
                Ok(triggered)
            },
        }
    }
}

/// Turns the bare tag of the variant at place `choice` into a whole value.
/// This is possible for a variant without fields only: the conversion of a
/// variant that carries fields fails.
pub fn convert_tag(row: &DecisionPoint, choice: usize) -> (r: Result<Value, BuildError>)
    requires
        choice < row.options.len(),
        row.payload.len() == row.options.len(),
    ensures
        r is Err <==> row@.payload[choice as int],
        match r {
            Ok(v) => tag_value(row@, choice as int) == Ok::<ValueView, BuildErrorView>(v@),
            Err(e) => tag_value(row@, choice as int) == Err::<ValueView, BuildErrorView>(e@),
        },
{
    assert(row@.options[choice as int] == row.options[choice as int]@);
    if row.payload[choice] {
        Err(BuildError::PayloadVariant { node: row.node.clone(), tag: row.options[choice].clone() })
    } else {
        let names: Vec<Option<String>> = Vec::new();
        let values: Vec<Value> = Vec::new();
        assert(names_view(names@) =~= Seq::empty());
        assert(values_view(values@) =~= Seq::empty());
        Ok(Value::variant(row.node.clone(), row.options[choice].clone(), names, values))
    }
}

impl<'a> Wizard<'a> {
    fn slot(&self, s: &Slot, ul: usize, Ghost(ctx): Ghost<Option<(usize, usize)>>) -> (r: Result<
        Value,
        BuildError,
    >)
        requires
            self.wf(),
            ul <= self.table()@.tables.layouts.len(),
            slot_ok(self.table()@.tables, s@, ctx, 0, 0, ul as int),
        ensures
            match r {
                Ok(v) => slot_value(self.table()@.tables, self@.chosen, s@, ul as int) == Ok::<
                    ValueView,
                    BuildErrorView,
                >(v@),
                Err(e) => slot_value(self.table()@.tables, self@.chosen, s@, ul as int) == Err::<
                    ValueView,
                    BuildErrorView,
                >(e@),
            },
        decreases ul, 0nat, 0nat,
    {
        let ghost t = self.table()@.tables;
        match s.kind {
            SlotKind::Leaf => Ok(Value::opaque(s.ty_name.clone())),
            SlotKind::Nested(m) => self.assemble(m),
            SlotKind::Decision(e) => {
                let rows = self.table.decisions();
                assert(row_wf(t, e as int));
                assert(rows[e as int]@ == t.decisions[e as int]);
                let row = &rows[e];
                match self.chosen[e] {
                    None => Err(BuildError::Unfulfilled(row.node.clone())),
                    Some(c) => {
                        assert(self@.chosen[e as int] is Some);
                        if !row.expandable {
                            convert_tag(row, c)
                        } else {
                            assert(row@.options[c as int] == row.options[c as int]@);
                            let m = row.layouts[c];
                            assert(m == t.decisions[e as int].layouts[c as int]);
                            match self.members(m) {
                                Err(e) => Err(e),
                                Ok((names, values)) => Ok(
                                    Value::variant(
                                        row.node.clone(),
                                        row.options[c].clone(),
                                        names,
                                        values,
                                    ),
                                ),
                            }
                        }
                    },
                }
            },
        }
    }

    fn members(&self, l: usize) -> (r: Result<(Vec<Option<String>>, Vec<Value>), BuildError>)
        requires
            self.wf(),
            l < self.table()@.tables.layouts.len(),
        ensures
            match r {
                Ok((names, values)) => layout_members(
                    self.table()@.tables,
                    self@.chosen,
                    l as int,
                    0,
                    Seq::empty(),
                    Seq::empty(),
                ) == Ok::<(Seq<Option<Seq<char>>>, Seq<ValueView>), BuildErrorView>(
                    (names_view(names@), values_view(values@)),
                ),
                Err(e) => layout_members(
                    self.table()@.tables,
                    self@.chosen,
                    l as int,
                    0,
                    Seq::empty(),
                    Seq::empty(),
                ) == Err::<(Seq<Option<Seq<char>>>, Seq<ValueView>), BuildErrorView>(e@),
            },
        decreases l, 1nat, 0nat,
    {
        let ghost t = self.table()@.tables;
        let layouts = self.table.layouts();
        assert(layouts[l as int]@ == t.layouts[l as int]);
        assert(layout_wf(t, l as int, 0, 0));
        let layout = &layouts[l];
        let mut names: Vec<Option<String>> = Vec::new();
        let mut values: Vec<Value> = Vec::new();
        assert(names_view(names@) =~= Seq::empty());
        assert(values_view(values@) =~= Seq::empty());
        let mut k: usize = 0;
        while k < layout.slots.len()
            invariant
                self.wf(),
                t == self.table()@.tables,
                l < t.layouts.len(),
                layout@ == t.layouts[l as int],
                layout_wf(t, l as int, 0, 0),
                k <= layout.slots.len(),
                layout_members(t, self@.chosen, l as int, 0, Seq::empty(), Seq::empty())
                    == layout_members(
                    t,
                    self@.chosen,
                    l as int,
                    k as int,
                    names_view(names@),
                    values_view(values@),
                ),
            decreases layout.slots.len() - k,
        {
            let s = &layout.slots[k];
            assert(s@ == t.layouts[l as int].slots[k as int]);
            match self.slot(s, l, Ghost(t.layouts[l as int].ctx)) {
                Err(e) => {
                    return Err(e);
                },
                Ok(v) => {
                    let name = match &s.name {
                        Some(n) => Some(n.clone()),
                        None => None,
                    };
                    let ghost old_names = names@;
                    let ghost old_values = values@;
                    names.push(name);
                    values.push(v);
                    proof {
                        assert(names_view(names@) =~= names_view(old_names).push(s@.name));
                        assert(values_view(values@) =~= values_view(old_values).push(v@));
                    }
                },
            }
            k += 1;
        }
        Ok((names, values))
    }

    fn assemble(&self, l: usize) -> (r: Result<Value, BuildError>)
        requires
            self.wf(),
            l < self.table()@.tables.layouts.len(),
        ensures
            match r {
                Ok(v) => layout_value(self.table()@.tables, self@.chosen, l as int) == Ok::<
                    ValueView,
                    BuildErrorView,
                >(v@),
                Err(e) => layout_value(self.table()@.tables, self@.chosen, l as int) == Err::<
                    ValueView,
                    BuildErrorView,
                >(e@),
            },
        decreases l, 2nat, 0nat,
    {
        let layouts = self.table.layouts();
        assert(layouts[l as int]@ == self.table()@.tables.layouts[l as int]);
        match self.members(l) {
            Err(e) => Err(e),
            Ok((names, values)) => Ok(Value::record(layouts[l].owner.clone(), names, values)),
        }
    }

    /// Collapses the state into the finished root value. Fails, naming the
    /// pending decision, while a decision is pending; fails in a complete
    /// state where a variant that carries fields was chosen for a slot that
    /// holds a bare tag, and only there.
    pub fn finish(&self) -> (r: Result<Value, BuildError>)
        requires
            self.wf(),
        ensures
            match r {
                Ok(v) => finish_outcome(self.table()@, self@) == Ok::<ValueView, BuildErrorView>(v@),
                Err(e) => finish_outcome(self.table()@, self@) == Err::<ValueView, BuildErrorView>(
                    e@,
                ),
            },
            self@.pending is None && convertible(self.table()@.tables, self@.chosen) ==> r is Ok,
    {
        match self.pending {
            Some(d) => {
                let rows = self.table.decisions();
                assert(rows[d as int]@ == self.table()@.tables.decisions[d as int]);
                Err(BuildError::Unfulfilled(rows[d].node.clone()))
            },
            None => {
                proof {
                    if convertible(self.table()@.tables, self@.chosen) {
                        lemma_layout_builds(
                            self.table()@.tables,
                            self@,
                            self.table()@.root as int,
                        );
                    }
                }
                self.assemble(self.table.root())
            },
        }
    }
}

/// What a state collapses into: while a decision is pending, the error that
/// names it; else the value of the root's layout.
pub open spec fn finish_outcome(r: crate::resolve::ResolutionView, s: WizardView) -> Result<
    ValueView,
    BuildErrorView,
> {
    match s.pending {
        Some(d) => Err(BuildErrorView::Unfulfilled(r.tables.decisions[d as int].node)),
        None => layout_value(r.tables, s.chosen, r.root as int),
    }
}

/// The builder that stands under `ctx` is required by the choices.
pub open spec fn required(t: Tables, chosen: Seq<Option<usize>>, ctx: Option<(usize, usize)>) -> bool {
    match ctx {
        None => true,
        Some(p) => p.0 < chosen.len() && chosen[p.0 as int] == Some(p.1) && active(
            t,
            chosen,
            p.0 as int,
        ),
    }
}

/// No variant that carries fields is chosen for a slot that holds a bare
/// tag.
pub open spec fn convertible(t: Tables, chosen: Seq<Option<usize>>) -> bool {
    forall|e: int|
        0 <= e < t.decisions.len() && e < chosen.len() && (#[trigger] chosen[e]) is Some
            && !t.decisions[e].expandable ==> !t.decisions[e].payload[chosen[e].unwrap() as int]
}

/// In a complete state, a slot of a required builder collapses into a
/// value.
pub proof fn lemma_slot_builds(
    t: Tables,
    s: WizardView,
    slot: SlotView,
    ul: int,
    ctx: Option<(usize, usize)>,
)
    requires
        tables_wf(t),
        state_wf(t, s),
        s.pending is None,
        convertible(t, s.chosen),
        0 <= ul <= t.layouts.len(),
        slot_ok(t, slot, ctx, 0, 0, ul),
        required(t, s.chosen, ctx),
    ensures
        slot_value(t, s.chosen, slot, ul) is Ok,
    decreases ul, 0nat, 0nat,
{
    match slot.kind {
        SlotKind::Leaf => {},
        SlotKind::Nested(m) => {
            assert(layout_wf(t, m as int, 0, 0));
            lemma_layout_builds(t, s, m as int);
        },
        SlotKind::Decision(e) => {
            let row = t.decisions[e as int];
            assert(row_wf(t, e as int));
            assert(active(t, s.chosen, e as int));
            assert(s.chosen[e as int] is Some);
            let c = s.chosen[e as int].unwrap();
            if row.expandable {
                let m = row.layouts[c as int];
                assert(variant_layout_ok(t, e as int, c as int, m));
                assert(layout_wf(t, m as int, 0, 0));
                lemma_members_build(t, s, m as int, 0, Seq::empty(), Seq::empty());
            }
        },
    }
}

/// In a complete state, the slots of a required builder collapse into
/// values.
pub proof fn lemma_members_build(
    t: Tables,
    s: WizardView,
    l: int,
    k: int,
    names: Seq<Option<Seq<char>>>,
    values: Seq<ValueView>,
)
    requires
        tables_wf(t),
        state_wf(t, s),
        s.pending is None,
        convertible(t, s.chosen),
        0 <= l < t.layouts.len(),
        0 <= k,
        required(t, s.chosen, t.layouts[l].ctx),
    ensures
        layout_members(t, s.chosen, l, k, names, values) is Ok,
    decreases l, 1nat, t.layouts[l].slots.len() - k,
{
    if k < t.layouts[l].slots.len() {
        let slot = t.layouts[l].slots[k];
        assert(layout_wf(t, l, 0, 0));
        lemma_slot_builds(t, s, slot, l, t.layouts[l].ctx);
        let v = slot_value(t, s.chosen, slot, l)->Ok_0;
        lemma_members_build(t, s, l, k + 1, names.push(slot.name), values.push(v));
    }
}

/// In a complete state, a required builder collapses into a value.
pub proof fn lemma_layout_builds(t: Tables, s: WizardView, l: int)
    requires
        tables_wf(t),
        state_wf(t, s),
        s.pending is None,
        convertible(t, s.chosen),
        0 <= l < t.layouts.len(),
        required(t, s.chosen, t.layouts[l].ctx),
    ensures
        layout_value(t, s.chosen, l) is Ok,
    decreases l, 2nat, 0nat,
{
    lemma_members_build(t, s, l, 0, Seq::empty(), Seq::empty());
}

/// The state after the pending decisions were answered with their first
/// variant, one after the other, at most `fuel` times.
pub open spec fn default_run(t: Tables, s: WizardView, fuel: nat) -> WizardView
    decreases fuel,
{
    if fuel == 0 || s.pending is None {
        s
    } else {
        default_run(t, step(t, s, 0), (fuel - 1) as nat)
    }
}

/// The first variant of every decision that holds a bare tag carries no
/// fields.
pub open spec fn default_convertible(t: Tables) -> bool {
    forall|e: int|
        0 <= e < t.decisions.len() && !(#[trigger] t.decisions[e]).expandable
            ==> !t.decisions[e].payload[0]
}

/// Every choice stored in the state is the first variant, and the pending
/// decision is one of the last `fuel` rows.
pub open spec fn all_first(t: Tables, s: WizardView) -> bool {
    forall|e: int| 0 <= e < s.chosen.len() && (#[trigger] s.chosen[e]) is Some ==> s.chosen[e] == Some(
        0usize,
    )
}

/// Answering every pending decision with its first variant leads, within
/// as many steps as there are rows left, to a complete state in which every
/// choice is the first variant.
pub proof fn lemma_default_run(t: Tables, s: WizardView, fuel: nat)
    requires
        tables_wf(t),
        t.decisions.len() <= usize::MAX,
        state_wf(t, s),
        all_first(t, s),
        s.pending is Some ==> fuel + s.pending.unwrap() >= t.decisions.len(),
    ensures
        state_wf(t, default_run(t, s, fuel)),
        default_run(t, s, fuel).pending is None,
        all_first(t, default_run(t, s, fuel)),
    decreases fuel,
{
    if fuel == 0 || s.pending is None {
    } else {
        let d = s.pending.unwrap() as int;
        assert(row_wf(t, d));
        lemma_step_wf(t, s, 0);
        lemma_default_run(t, step(t, s, 0), (fuel - 1) as nat);
    }
}

/// Default-decision completeness: for complete tables in which the first
/// variant of every bare-tag decision carries no fields, answering every
/// decision with its first variant gives a complete state that collapses
/// into a root value. No decision needs another answer than the default.
pub proof fn lemma_default_builds(r: crate::resolve::ResolutionView)
    requires
        crate::resolve::resolution_wf(r),
        default_convertible(r.tables),
    ensures
        default_run(r.tables, initial(r.tables), r.tables.decisions.len()).pending is None,
        layout_value(
            r.tables,
            default_run(r.tables, initial(r.tables), r.tables.decisions.len()).chosen,
            r.root as int,
        ) is Ok,
{
    let t = r.tables;
    lemma_initial_wf(t);
    lemma_default_run(t, initial(t), t.decisions.len());
    let s = default_run(t, initial(t), t.decisions.len());
    lemma_layout_builds(t, s, r.root as int);
}

/// A row that stands under a variant of an earlier decision is not
/// required where another variant of that decision is chosen, or none.
pub proof fn lemma_other_branch_inactive(t: Tables, chosen: Seq<Option<usize>>, e: int, d: int)
    requires
        branch_of(t.decisions, e, d) is Some,
        d >= chosen.len() || chosen[d] != Some(branch_of(t.decisions, e, d).unwrap()),
    ensures
        !active(t, chosen, e),
    decreases e,
{
    if e >= chosen.len() {
    } else {
        let p = t.decisions[e].parent.unwrap();
        if p.0 != d {
            lemma_other_branch_inactive(t, chosen, p.0 as int, d);
        }
    }
}

/// Where no row from place `from` up to place `q` is required and the row
/// at place `q` is, that row is the first required one from `from` on.
pub proof fn lemma_next_active_is(t: Tables, chosen: Seq<Option<usize>>, from: int, q: int)
    requires
        0 <= from <= q < t.decisions.len(),
        q <= usize::MAX,
        forall|e: int| from <= e < q ==> !active(t, chosen, e),
        active(t, chosen, q),
    ensures
        next_active(t, chosen, from) == Some(q as usize),
    decreases q - from,
{
    if from < q {
        lemma_next_active_is(t, chosen, from + 1, q);
    }
}

/// Path-link correctness: where the table links the chosen variant to a
/// decision, that decision is the one that is pending after the choice. The
/// decision that `fulfill` reports as triggered is the one that is asked
/// next.
pub proof fn lemma_link_is_next(t: Tables, s: WizardView, c: usize)
    requires
        tables_wf(t),
        t.decisions.len() <= usize::MAX,
        state_wf(t, s),
        s.pending is Some,
        c < t.decisions[s.pending.unwrap() as int].options.len(),
        t.decisions[s.pending.unwrap() as int].links[c as int] is Some,
    ensures
        step(t, s, c).pending == t.decisions[s.pending.unwrap() as int].links[c as int],
{
    let d = s.pending.unwrap() as int;
    let row = t.decisions[d];
    assert(row_wf(t, d));
    let link = row.links[c as int];
    assert(link_ok(t, d, link));
    assert(link_first(t, d, c as int, link));
    let q = link.unwrap() as int;
    let chosen = s.chosen.update(d, Some(c));
    assert forall|e: int| d + 1 <= e < q implies !active(t, chosen, e) by {
        assert(branch_before(t, e, d, c as int));
        lemma_other_branch_inactive(t, chosen, e, d);
    }
    lemma_active_frame(t, s.chosen, chosen, d);
    assert(active(t, chosen, q));
    lemma_next_active_is(t, chosen, d + 1, q);
}

/// A row that stands under a variant of an earlier decision is reached by
/// the link of that variant: the link leads to the row or to an earlier
/// one.
pub proof fn lemma_branch_has_link(t: Tables, e: int, d: int)
    requires
        tables_wf(t),
        0 <= d,
        e < t.decisions.len(),
        branch_of(t.decisions, e, d) is Some,
    ensures
        branch_of(t.decisions, e, d).unwrap() < t.decisions[d].links.len(),
        t.decisions[d].links[branch_of(t.decisions, e, d).unwrap() as int] is Some,
        t.decisions[d].links[branch_of(t.decisions, e, d).unwrap() as int].unwrap() <= e,
    decreases e,
{
    assert(row_wf(t, e));
    assert(row_wf(t, d));
    assert(parent_linked(t, e));
    let p = t.decisions[e].parent.unwrap();
    if p.0 != d {
        lemma_branch_has_link(t, p.0 as int, d);
    }
}

/// Path-link correctness, the other way round: where the table links the
/// chosen variant to no decision, no decision stands under that variant, so
/// that the choice asks for none. The decision that is pending after the
/// choice, if there is one, belongs to a branch that was open before.
pub proof fn lemma_no_link_no_branch(t: Tables, s: WizardView, c: usize)
    requires
        tables_wf(t),
        t.decisions.len() <= usize::MAX,
        state_wf(t, s),
        s.pending is Some,
        c < t.decisions[s.pending.unwrap() as int].options.len(),
        t.decisions[s.pending.unwrap() as int].links[c as int] is None,
    ensures
        forall|e: int|
            0 <= e < t.decisions.len() ==> #[trigger] branch_of(
                t.decisions,
                e,
                s.pending.unwrap() as int,
            ) != Some(c),
        step(t, s, c).pending is Some ==> branch_of(
            t.decisions,
            step(t, s, c).pending.unwrap() as int,
            s.pending.unwrap() as int,
        ) is None,
{
    let d = s.pending.unwrap() as int;
    assert forall|e: int| 0 <= e < t.decisions.len() implies #[trigger] branch_of(t.decisions, e, d)
        != Some(c) by {
        if branch_of(t.decisions, e, d) is Some {
            lemma_branch_has_link(t, e, d);
        }
    }
    let n = step(t, s, c);
    if n.pending is Some {
        let q = n.pending.unwrap() as int;
        lemma_next_active(t, n.chosen, d + 1);
        if branch_of(t.decisions, q, d) is Some {
            lemma_other_branch_inactive(t, n.chosen, q, d);
        }
    }
}

/// A decision with a single variant is not elided: while it is pending its
/// slot is empty and the state does not collapse into a value, and it takes
/// one answer, the one there is, to fill the slot and to move on.
pub proof fn lemma_single_option_asked(r: crate::resolve::ResolutionView, s: WizardView)
    requires
        crate::resolve::resolution_wf(r),
        state_wf(r.tables, s),
        s.pending is Some,
        r.tables.decisions[s.pending.unwrap() as int].options.len() == 1,
    ensures
        s.chosen[s.pending.unwrap() as int] is None,
        finish_outcome(r, s) is Err,
        step(r.tables, s, 0).chosen[s.pending.unwrap() as int] == Some(0usize),
        step(r.tables, s, 0).pending != s.pending,
        state_wf(r.tables, step(r.tables, s, 0)),
{
    lemma_step_wf(r.tables, s, 0);
}

} // verus!
