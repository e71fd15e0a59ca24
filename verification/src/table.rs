//! The tables that the path resolver writes: the decision table, one row
//! per decision point in the order in which a depth-first walk meets them,
//! and the layouts of the builders that store the outcomes.

use vstd::prelude::*;

verus! {

/// One step of the way from the root's builder to a storage slot.
#[derive(Debug, PartialEq, Eq)]
pub enum PathSegment {
    /// Into the sub-builder that the node `owning_node_id` holds for an
    /// expandable field.
    FieldStep { field_builder_id: String, owning_node_id: String },
    /// Into the fields of a chosen variant.
    VariantStep { variant_tag: String },
}

/// A path segment, as plain values.
pub enum SegmentView {
    FieldStep { field_builder_id: Seq<char>, owning_node_id: Seq<char> },
    VariantStep { variant_tag: Seq<char> },
}

impl View for PathSegment {
    type V = SegmentView;

    open spec fn view(&self) -> SegmentView {
        match *self {
            PathSegment::FieldStep { field_builder_id, owning_node_id } => SegmentView::FieldStep {
                field_builder_id: field_builder_id@,
                owning_node_id: owning_node_id@,
            },
            PathSegment::VariantStep { variant_tag } => SegmentView::VariantStep {
                variant_tag: variant_tag@,
            },
        }
    }
}

impl Clone for PathSegment {
    fn clone(&self) -> (r: PathSegment)
        ensures
            r@ == self@,
    {
        match self {
            PathSegment::FieldStep { field_builder_id, owning_node_id } => PathSegment::FieldStep {
                field_builder_id: field_builder_id.clone(),
                owning_node_id: owning_node_id.clone(),
            },
            PathSegment::VariantStep { variant_tag } => PathSegment::VariantStep {
                variant_tag: variant_tag.clone(),
            },
        }
    }
}

/// The segments of a path, each as plain values.
pub open spec fn path_view(path: Seq<PathSegment>) -> Seq<SegmentView> {
    path.map_values(|s: PathSegment| s@)
}

/// The texts of a list of strings.
pub open spec fn strings_view(s: Seq<String>) -> Seq<Seq<char>> {
    s.map_values(|x: String| x@)
}

/// What a slot of a builder holds.
#[derive(Clone, Copy, PartialEq, Eq, Debug)]
pub enum SlotKind {
    /// A value that no decision of the wizard touches.
    Leaf,
    /// The outcome of the decision at this place of the decision table.
    Decision(usize),
    /// The sub-builder at this place of the list of layouts.
    Nested(usize),
}

/// A slot of a builder: the place of one field.
#[derive(Debug, PartialEq, Eq)]
pub struct Slot {
    pub name: Option<String>,
    pub ty_name: String,
    pub kind: SlotKind,
}

/// A slot, as plain values.
pub struct SlotView {
    pub name: Option<Seq<char>>,
    pub ty_name: Seq<char>,
    pub kind: SlotKind,
}

impl View for Slot {
    type V = SlotView;

    open spec fn view(&self) -> SlotView {
        SlotView { name: crate::field::name_view(self.name), ty_name: self.ty_name@, kind: self.kind }
    }
}

/// The slots of a list, each as plain values.
pub open spec fn slots_view(slots: Seq<Slot>) -> Seq<SlotView> {
    slots.map_values(|s: Slot| s@)
}

/// The layout of one builder: the slots that stand for the fields of a
/// product type or of a variant, reached by `path`. `ctx` names the decision
/// and the variant under which the builder stands, if any.
#[derive(Debug, PartialEq, Eq)]
pub struct Layout {
    pub owner: String,
    pub path: Vec<PathSegment>,
    pub slots: Vec<Slot>,
    pub ctx: Option<(usize, usize)>,
}

/// A layout, as plain values.
pub struct LayoutView {
    pub owner: Seq<char>,
    pub path: Seq<SegmentView>,
    pub slots: Seq<SlotView>,
    pub ctx: Option<(usize, usize)>,
}

impl View for Layout {
    type V = LayoutView;

    open spec fn view(&self) -> LayoutView {
        LayoutView {
            owner: self.owner@,
            path: path_view(self.path@),
            slots: slots_view(self.slots@),
            ctx: self.ctx,
        }
    }
}

/// A row of the decision table: a decision point as the walk met it.
#[derive(Debug, PartialEq, Eq)]
pub struct DecisionPoint {
    /// The sum type that is decided.
    pub node: String,
    /// The slot, at the end of `path`, that stores the chosen tag.
    pub slot: String,
    pub path: Vec<PathSegment>,
    /// Whether the decision stands in a sub-builder of its own, so that the
    /// fields of the chosen variant can be stored.
    pub expandable: bool,
    /// The tags of the variants, in declaration order.
    pub options: Vec<String>,
    /// For each variant, whether it carries fields.
    pub payload: Vec<bool>,
    /// For each variant, the decision that choosing it leads to.
    pub links: Vec<Option<usize>>,
    /// For each variant of an expandable decision, the layout of its fields.
    pub layouts: Vec<usize>,
    /// The decision and the variant under which this decision stands.
    pub parent: Option<(usize, usize)>,
}

/// A row of the decision table, as plain values.
pub struct DecisionView {
    pub node: Seq<char>,
    pub slot: Seq<char>,
    pub path: Seq<SegmentView>,
    pub expandable: bool,
    pub options: Seq<Seq<char>>,
    pub payload: Seq<bool>,
    pub links: Seq<Option<usize>>,
    pub layouts: Seq<usize>,
    pub parent: Option<(usize, usize)>,
}

impl View for DecisionPoint {
    type V = DecisionView;

    open spec fn view(&self) -> DecisionView {
        DecisionView {
            node: self.node@,
            slot: self.slot@,
            path: path_view(self.path@),
            expandable: self.expandable,
            options: strings_view(self.options@),
            payload: self.payload@,
            links: self.links@,
            layouts: self.layouts@,
            parent: self.parent,
        }
    }
}

/// The rows of a list, each as plain values.
pub open spec fn decisions_view(rows: Seq<DecisionPoint>) -> Seq<DecisionView> {
    rows.map_values(|d: DecisionPoint| d@)
}

/// The layouts of a list, each as plain values.
pub open spec fn layouts_view(layouts: Seq<Layout>) -> Seq<LayoutView> {
    layouts.map_values(|l: Layout| l@)
}

/// The decision table and the layouts, as far as a walk has written them.
pub struct Tables {
    pub decisions: Seq<DecisionView>,
    pub layouts: Seq<LayoutView>,
}

/// The tables `b` hold all that the tables `a` hold, at the same places.
pub open spec fn extends(a: Tables, b: Tables) -> bool {
    &&& a.decisions.len() <= b.decisions.len()
    &&& a.layouts.len() <= b.layouts.len()
    &&& forall|i: int| 0 <= i < a.decisions.len() ==> b.decisions[i] == a.decisions[i]
    &&& forall|i: int| 0 <= i < a.layouts.len() ==> b.layouts[i] == a.layouts[i]
}


/// The decision and variant `ctx`, if any, exist in the tables.
pub open spec fn ctx_ok(t: Tables, ctx: Option<(usize, usize)>) -> bool {
    ctx is Some ==> ctx.unwrap().0 < t.decisions.len() && ctx.unwrap().1
        < t.decisions[ctx.unwrap().0 as int].options.len()
        && t.decisions[ctx.unwrap().0 as int].links.len() == 0
}

/// The links `links` of the row at place `d` account for the row at place
/// `e`: where that row stands directly under a variant of the row at place
/// `d`, the link of the variant leads to it or to an earlier row.
pub open spec fn child_linked(t: Tables, e: int, d: int, links: Seq<Option<usize>>) -> bool {
    t.decisions[e].parent is Some && t.decisions[e].parent.unwrap().0 == d ==> {
        let j = t.decisions[e].parent.unwrap().1 as int;
        j < links.len() && links[j] is Some && links[j].unwrap() <= e
    }
}

/// The row at place `e` is accounted for by the links of the row it stands
/// under, once that row has its links.
pub open spec fn parent_linked(t: Tables, e: int) -> bool {
    t.decisions[e].parent is Some && t.decisions[t.decisions[e].parent.unwrap().0 as int].links.len()
        > 0 ==> child_linked(
        t,
        e,
        t.decisions[e].parent.unwrap().0 as int,
        t.decisions[t.decisions[e].parent.unwrap().0 as int].links,
    )
}

/// A link out of the row at place `d` leads to a later row.
pub open spec fn link_ok(t: Tables, d: int, link: Option<usize>) -> bool {
    link is Some ==> d < link->0 < t.decisions.len()
}

/// The variant of the decision at place `d` under which the row at place
/// `e` stands, directly or through other decisions; `None` where it does not
/// stand under that decision.
pub open spec fn branch_of(rows: Seq<DecisionView>, e: int, d: int) -> Option<usize>
    decreases e,
{
    if d < 0 || e <= d || e >= rows.len() {
        None
    } else {
        match rows[e].parent {
            None => None,
            Some(p) => if p.0 == d {
                Some(p.1)
            } else if d < p.0 < e {
                branch_of(rows, p.0 as int, d)
            } else {
                None
            },
        }
    }
}

/// The row at place `e` stands under a variant before variant `j` of the
/// decision at place `d`.
pub open spec fn branch_before(t: Tables, e: int, d: int, j: int) -> bool {
    branch_of(t.decisions, e, d) is Some && branch_of(t.decisions, e, d).unwrap() < j
}

/// A link of variant `j` of the row at place `d` leads to the first row
/// that stands under that variant: the row stands directly under it, and
/// every row between the two stands under an earlier variant.
pub open spec fn link_first(t: Tables, d: int, j: int, link: Option<usize>) -> bool {
    link is Some ==> t.decisions[link.unwrap() as int].parent == Some((d as usize, j as usize))
        && forall|e: int| d < e < link.unwrap() ==> #[trigger] branch_before(t, e, d, j)
}

/// Under which variant of an earlier decision a row stands depends only on
/// the rows between the two.
pub proof fn lemma_branch_same(r1: Seq<DecisionView>, r2: Seq<DecisionView>, e: int, d: int)
    requires
        e < r1.len(),
        e < r2.len(),
        forall|i: int| d < i <= e ==> (#[trigger] r1[i]).parent == r2[i].parent,
    ensures
        branch_of(r1, e, d) == branch_of(r2, e, d),
    decreases e,
{
    if d < 0 || e <= d {
    } else {
        match r1[e].parent {
            None => {},
            Some(p) => {
                if p.0 != d && d < p.0 < e {
                    lemma_branch_same(r1, r2, p.0 as int, d);
                }
            },
        }
    }
}

/// A link that leads to the first row under its variant still does so when
/// the tables have grown.
pub proof fn lemma_link_first_extends(a: Tables, b: Tables, d: int, j: int, link: Option<usize>)
    requires
        extends(a, b),
        0 <= d < a.decisions.len(),
        link_ok(a, d, link),
        link_first(a, d, j, link),
    ensures
        link_first(b, d, j, link),
{
    if link is Some {
        let q = link.unwrap() as int;
        assert(b.decisions[q] == a.decisions[q]);
        assert forall|e: int| d < e < q implies #[trigger] branch_before(b, e, d, j) by {
            assert(branch_before(a, e, d, j));
            assert forall|i: int| d < i <= e implies (#[trigger] a.decisions[i]).parent
                == b.decisions[i].parent by {
                assert(b.decisions[i] == a.decisions[i]);
            }
            lemma_branch_same(a.decisions, b.decisions, e, d);
        }
    }
}

/// The layout at place `m` holds the fields of variant `j` of the decision
/// at place `d`.
pub open spec fn variant_layout_ok(t: Tables, d: int, j: int, m: usize) -> bool {
    m < t.layouts.len() && t.layouts[m as int].ctx == Some((d as usize, j as usize))
}

/// The row at place `d` is complete: it has at least one variant, a payload
/// flag and a link for each, a layout for each where it is expandable, and
/// it stands after the decision it depends on.
pub open spec fn row_wf(t: Tables, d: int) -> bool {
    let x = t.decisions[d];
    &&& x.options.len() > 0
    &&& x.payload.len() == x.options.len()
    &&& x.links.len() == x.options.len()
    &&& x.layouts.len() == (if x.expandable {
        x.options.len()
    } else {
        0
    })
    &&& forall|j: int| 0 <= j < x.links.len() ==> link_ok(t, d, #[trigger] x.links[j])
    &&& forall|j: int| 0 <= j < x.links.len() ==> link_first(t, d, j, #[trigger] x.links[j])
    &&& forall|j: int|
        0 <= j < x.layouts.len() ==> variant_layout_ok(t, d, j, #[trigger] x.layouts[j])
    &&& (x.parent is Some ==> x.parent.unwrap().0 < d && x.parent.unwrap().1
        < t.decisions[x.parent.unwrap().0 as int].options.len())
    &&& parent_linked(t, d)
}

/// The row at place `d` stands directly under `ctx`, or under a row that is
/// no earlier than place `base`.
pub open spec fn row_under(t: Tables, d: int, ctx: Option<(usize, usize)>, base: int) -> bool {
    t.decisions[d].parent == ctx || parent_within(t, d, base)
}

/// The row at place `d` stands under a row that is no earlier than place
/// `base`.
pub open spec fn parent_within(t: Tables, d: int, base: int) -> bool {
    t.decisions[d].parent is Some && base <= t.decisions[d].parent.unwrap().0 < d
}

/// The slot refers to rows from place `bd` on and to layouts from place `bl`
/// up to place `ul`, all of which stand under `ctx`.
pub open spec fn slot_ok(
    t: Tables,
    s: SlotView,
    ctx: Option<(usize, usize)>,
    bd: int,
    bl: int,
    ul: int,
) -> bool {
    match s.kind {
        SlotKind::Leaf => true,
        SlotKind::Nested(m) => bl <= m < ul && ul <= t.layouts.len() && t.layouts[m as int].ctx
            == ctx,
        SlotKind::Decision(e) => {
            &&& bd <= e < t.decisions.len()
            &&& t.decisions[e as int].parent == ctx
            &&& forall|j: int|
                0 <= j < t.decisions[e as int].layouts.len() ==> bl
                    <= #[trigger] t.decisions[e as int].layouts[j] < ul
        },
    }
}

/// Every slot of the layout at place `l` refers to earlier layouts and to
/// rows that stand under the same decision and variant as the layout.
pub open spec fn layout_wf(t: Tables, l: int, bd: int, bl: int) -> bool {
    forall|k: int|
        0 <= k < t.layouts[l].slots.len() ==> slot_ok(
            t,
            #[trigger] t.layouts[l].slots[k],
            t.layouts[l].ctx,
            bd,
            bl,
            l,
        )
}

/// What a walk that starts with the tables `a` under `ctx` and ends with the
/// tables `b` has added: complete rows and layouts that stand under `ctx`.
pub open spec fn grown(a: Tables, b: Tables, ctx: Option<(usize, usize)>) -> bool {
    &&& extends(a, b)
    &&& forall|d: int|
        a.decisions.len() <= d < b.decisions.len() ==> #[trigger] row_wf(b, d) && row_under(
            b,
            d,
            ctx,
            a.decisions.len() as int,
        )
    &&& forall|l: int|
        a.layouts.len() <= l < b.layouts.len() ==> #[trigger] layout_wf(
            b,
            l,
            a.decisions.len() as int,
            a.layouts.len() as int,
        )
}

/// The tables are complete: every row and every layout is.
pub open spec fn tables_wf(t: Tables) -> bool {
    &&& forall|d: int| 0 <= d < t.decisions.len() ==> #[trigger] row_wf(t, d)
    &&& forall|l: int| 0 <= l < t.layouts.len() ==> #[trigger] layout_wf(t, l, 0, 0)
}

pub proof fn lemma_row_extends(a: Tables, b: Tables, d: int)
    requires
        extends(a, b),
        0 <= d < a.decisions.len(),
        row_wf(a, d),
    ensures
        row_wf(b, d),
{
    let x = b.decisions[d];
    assert(x == a.decisions[d]);
    assert forall|j: int| 0 <= j < x.links.len() implies link_ok(b, d, #[trigger] x.links[j]) by {
        assert(link_ok(a, d, a.decisions[d].links[j]));
    }
    assert forall|j: int| 0 <= j < x.links.len() implies link_first(
        b,
        d,
        j,
        #[trigger] x.links[j],
    ) by {
        assert(link_ok(a, d, a.decisions[d].links[j]));
        assert(link_first(a, d, j, a.decisions[d].links[j]));
        lemma_link_first_extends(a, b, d, j, x.links[j]);
    }
    assert forall|j: int| 0 <= j < x.layouts.len() implies variant_layout_ok(
        b,
        d,
        j,
        #[trigger] x.layouts[j],
    ) by {
        assert(variant_layout_ok(a, d, j, a.decisions[d].layouts[j]));
    }
}

pub proof fn lemma_slot_extends(
    a: Tables,
    b: Tables,
    s: SlotView,
    ctx: Option<(usize, usize)>,
    bd: int,
    bl: int,
    ul: int,
)
    requires
        extends(a, b),
        slot_ok(a, s, ctx, bd, bl, ul),
    ensures
        slot_ok(b, s, ctx, bd, bl, ul),
{
    match s.kind {
        SlotKind::Leaf => {},
        SlotKind::Nested(m) => {},
        SlotKind::Decision(e) => {
            assert(b.decisions[e as int] == a.decisions[e as int]);
        },
    }
}

pub proof fn lemma_layout_extends(a: Tables, b: Tables, l: int, bd: int, bl: int)
    requires
        extends(a, b),
        0 <= l < a.layouts.len(),
        layout_wf(a, l, bd, bl),
    ensures
        layout_wf(b, l, bd, bl),
{
    assert(b.layouts[l] == a.layouts[l]);
    assert forall|k: int| 0 <= k < b.layouts[l].slots.len() implies slot_ok(
        b,
        #[trigger] b.layouts[l].slots[k],
        b.layouts[l].ctx,
        bd,
        bl,
        l,
    ) by {
        lemma_slot_extends(a, b, a.layouts[l].slots[k], a.layouts[l].ctx, bd, bl, l);
    }
}

/// A slot that is in order stays so when the bounds from below are relaxed.
pub proof fn lemma_slot_relax(
    t: Tables,
    s: SlotView,
    ctx: Option<(usize, usize)>,
    bd: int,
    bl: int,
    ul: int,
    bd0: int,
    bl0: int,
)
    requires
        slot_ok(t, s, ctx, bd, bl, ul),
        bd0 <= bd,
        bl0 <= bl,
    ensures
        slot_ok(t, s, ctx, bd0, bl0, ul),
{
    match s.kind {
        SlotKind::Leaf => {},
        SlotKind::Nested(m) => {},
        SlotKind::Decision(e) => {
            assert forall|j: int| 0 <= j < t.decisions[e as int].layouts.len() implies bl0
                <= #[trigger] t.decisions[e as int].layouts[j] < ul by {}
        },
    }
}

pub proof fn lemma_layout_relax(t: Tables, l: int, bd: int, bl: int, bd0: int, bl0: int)
    requires
        layout_wf(t, l, bd, bl),
        bd0 <= bd,
        bl0 <= bl,
    ensures
        layout_wf(t, l, bd0, bl0),
{
    assert forall|k: int| 0 <= k < t.layouts[l].slots.len() implies slot_ok(
        t,
        #[trigger] t.layouts[l].slots[k],
        t.layouts[l].ctx,
        bd0,
        bl0,
        l,
    ) by {
        lemma_slot_relax(t, t.layouts[l].slots[k], t.layouts[l].ctx, bd, bl, l, bd0, bl0);
    }
}

/// What two walks in a row have added is what one walk has added.
pub proof fn lemma_grown_trans(a: Tables, m: Tables, b: Tables, ctx: Option<(usize, usize)>)
    requires
        grown(a, m, ctx),
        grown(m, b, ctx),
    ensures
        grown(a, b, ctx),
{
    assert forall|d: int| a.decisions.len() <= d < b.decisions.len() implies #[trigger] row_wf(
        b,
        d,
    ) && row_under(b, d, ctx, a.decisions.len() as int) by {
        if d < m.decisions.len() {
            assert(row_wf(m, d));
            lemma_row_extends(m, b, d);
            assert(row_under(m, d, ctx, a.decisions.len() as int));
        } else {
            assert(row_wf(b, d));
            assert(row_under(b, d, ctx, m.decisions.len() as int));
        }
    }
    assert forall|l: int| a.layouts.len() <= l < b.layouts.len() implies #[trigger] layout_wf(
        b,
        l,
        a.decisions.len() as int,
        a.layouts.len() as int,
    ) by {
        if l < m.layouts.len() {
            assert(layout_wf(m, l, a.decisions.len() as int, a.layouts.len() as int));
            lemma_layout_extends(m, b, l, a.decisions.len() as int, a.layouts.len() as int);
        } else {
            assert(layout_wf(b, l, m.decisions.len() as int, m.layouts.len() as int));
            lemma_layout_relax(
                b,
                l,
                m.decisions.len() as int,
                m.layouts.len() as int,
                a.decisions.len() as int,
                a.layouts.len() as int,
            );
        }
    }
}

/// Copies a path.
pub fn clone_path(path: &Vec<PathSegment>) -> (r: Vec<PathSegment>)
    ensures
        path_view(r@) == path_view(path@),
{
    let mut r: Vec<PathSegment> = Vec::new();
    let mut i: usize = 0;
    while i < path.len()
        invariant
            i <= path.len(),
            r.len() == i,
            forall|k: int| 0 <= k < i ==> r[k]@ == path[k]@,
        decreases path.len() - i,
    {
        r.push(path[i].clone());
        i += 1;
    }
    assert(path_view(r@) =~= path_view(path@));
    r
}

/// Copies a list of strings.
pub fn clone_strings(s: &Vec<String>) -> (r: Vec<String>)
    ensures
        strings_view(r@) == strings_view(s@),
{
    let mut r: Vec<String> = Vec::new();
    let mut i: usize = 0;
    while i < s.len()
        invariant
            i <= s.len(),
            r.len() == i,
            forall|k: int| 0 <= k < i ==> r[k]@ == s[k]@,
        decreases s.len() - i,
    {
        r.push(s[i].clone());
        i += 1;
    }
    assert(strings_view(r@) =~= strings_view(s@));
    r
}

/// Copies a list of layouts.
pub fn clone_layouts(layouts: &Vec<Layout>) -> (r: Vec<Layout>)
    ensures
        layouts_view(r@) == layouts_view(layouts@),
{
    let mut r: Vec<Layout> = Vec::new();
    let mut i: usize = 0;
    while i < layouts.len()
        invariant
            i <= layouts.len(),
            r.len() == i,
            forall|k: int| 0 <= k < i ==> r[k]@ == layouts[k]@,
        decreases layouts.len() - i,
    {
        let layout = &layouts[i];
        let mut slots: Vec<Slot> = Vec::new();
        let mut n: usize = 0;
        while n < layout.slots.len()
            invariant
                n <= layout.slots.len(),
                slots.len() == n,
                forall|k: int| 0 <= k < n ==> slots[k]@ == layout.slots[k]@,
            decreases layout.slots.len() - n,
        {
            let slot = &layout.slots[n];
            let name = match &slot.name {
                Some(text) => Some(text.clone()),
                None => None,
            };
            slots.push(Slot { name, ty_name: slot.ty_name.clone(), kind: slot.kind });
            n += 1;
        }
        assert(slots_view(slots@) =~= slots_view(layout.slots@));
        r.push(
            Layout {
                owner: layout.owner.clone(),
                path: clone_path(&layout.path),
                slots,
                ctx: layout.ctx,
            },
        );
        i += 1;
    }
    assert(layouts_view(r@) =~= layouts_view(layouts@));
    r
}

} // verus!
