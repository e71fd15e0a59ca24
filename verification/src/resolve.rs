//! The path resolver: a depth-first walk of the dependency graph, in
//! declaration order, that lists every decision a driver may have to take,
//! where its outcome is stored, and which decision each variant leads to.

use vstd::prelude::*;
use crate::field::{fields_view, slot_name, Field, FieldView};
use crate::format::{builder_field_name, SculptFormatter};
use crate::graph::{
    find, find_node, nodes_view, Declaration, DependencyGraph, GraphError, GraphErrorView,
    NodeView,
};
use crate::pickable::{
    option_tags, options_view, OptionView, Pickable, PickableOption, PickableView,
};
use crate::table::{
    ctx_ok, decisions_view, extends, grown, layout_wf, layouts_view, lemma_grown_trans,
    branch_before, branch_of, child_linked, lemma_branch_same, parent_linked, lemma_layout_extends,
    lemma_layout_relax, lemma_link_first_extends, lemma_row_extends, lemma_slot_extends,
    link_first, link_ok, clone_path, parent_within, path_view, row_under, row_wf, slot_ok,
    slots_view, strings_view, tables_wf, variant_layout_ok, DecisionPoint, DecisionView, Layout,
    LayoutView, PathSegment, SegmentView, Slot, SlotKind, SlotView, Tables,
};

verus! {

fn extend_path(path: &Vec<PathSegment>, segment: PathSegment) -> (r: Vec<PathSegment>)
    ensures
        path_view(r@) == path_view(path@).push(segment@),
{
    let mut r = clone_path(path);
    r.push(segment);
    assert(path_view(r@) =~= path_view(path@).push(segment@));
    r
}

/// For each variant, whether it carries fields.
pub open spec fn payload_flags(options: Seq<OptionView>) -> Seq<bool> {
    options.map_values(|o: OptionView| o.fields.len() > 0)
}

/// A list of `n` links that lead nowhere.
pub open spec fn no_links(n: nat) -> Seq<Option<usize>> {
    Seq::new(n, |i: int| None::<usize>)
}

fn tags_of(options: &Vec<PickableOption>) -> (r: Vec<String>)
    ensures
        strings_view(r@) == option_tags(options_view(options@)),
{
    let mut r: Vec<String> = Vec::new();
    let mut i: usize = 0;
    while i < options.len()
        invariant
            i <= options.len(),
            r.len() == i,
            forall|k: int| 0 <= k < i ==> r[k]@ == options[k]@.tag,
        decreases options.len() - i,
    {
        r.push(options[i].name().clone());
        i += 1;
    }
    assert(strings_view(r@) =~= option_tags(options_view(options@)));
    r
}

fn flags_of(options: &Vec<PickableOption>) -> (r: Vec<bool>)
    ensures
        r@ == payload_flags(options_view(options@)),
{
    let mut r: Vec<bool> = Vec::new();
    let mut i: usize = 0;
    while i < options.len()
        invariant
            i <= options.len(),
            r.len() == i,
            forall|k: int| 0 <= k < i ==> r[k] == (options[k]@.fields.len() > 0),
        decreases options.len() - i,
    {
        let carries = match options[i].fields() {
            Some(fields) => fields.len() > 0,
            None => false,
        };
        r.push(carries);
        i += 1;
    }
    assert(r@ =~= payload_flags(options_view(options@)));
    r
}

fn links_nowhere(n: usize) -> (r: Vec<Option<usize>>)
    ensures
        r@ == no_links(n as nat),
{
    let mut r: Vec<Option<usize>> = Vec::new();
    let mut i: usize = 0;
    while i < n
        invariant
            i <= n,
            r.len() == i,
            forall|k: int| 0 <= k < i ==> r[k] is None,
        decreases n - i,
    {
        r.push(None);
        i += 1;
    }
    assert(r@ =~= no_links(n as nat));
    r
}

/// The slot of a field that the walk passes over.
pub open spec fn leaf_slot(f: FieldView) -> SlotView {
    SlotView { name: f.name, ty_name: f.ty_name, kind: SlotKind::Leaf }
}

/// The slot of a field whose value the decision at place `d` gives.
pub open spec fn decision_slot(f: FieldView, d: usize) -> SlotView {
    SlotView { name: f.name, ty_name: f.ty_name, kind: SlotKind::Decision(d) }
}

/// The slot of a field whose value the sub-builder at place `l` gives.
pub open spec fn nested_slot(f: FieldView, l: usize) -> SlotView {
    SlotView { name: f.name, ty_name: f.ty_name, kind: SlotKind::Nested(l) }
}

/// The step into the sub-builder that `owner` holds for a field of the type
/// `ty`.
pub open spec fn field_step(ty: Seq<char>, owner: Seq<char>) -> SegmentView {
    SegmentView::FieldStep { field_builder_id: builder_field_name(ty), owning_node_id: owner }
}

/// The row of the decision on the sum type `s`.
pub open spec fn decision_row(
    s: PickableView,
    slot: Seq<char>,
    path: Seq<SegmentView>,
    expandable: bool,
    links: Seq<Option<usize>>,
    layouts: Seq<usize>,
    parent: Option<(usize, usize)>,
) -> DecisionView {
    DecisionView {
        node: s.name,
        slot,
        path,
        expandable,
        options: option_tags(s.options),
        payload: payload_flags(s.options),
        links,
        layouts,
        parent,
    }
}

/// The walk over one field. A field that is not expandable is a plain slot:
/// a decision where its type is a decision point, a leaf otherwise. An
/// expandable field is entered: a product type gives a nested layout, a
/// decision point a row whose variants are walked in turn. `fuel` bounds the
/// depth of nesting; a sum type asked to decide among no variants, a product
/// type entered that has no fields, and a type nested deeper than `fuel`,
/// are refused.
pub open spec fn walk_field(
    g: Seq<NodeView>,
    owner: Seq<char>,
    f: FieldView,
    path: Seq<SegmentView>,
    ctx: Option<(usize, usize)>,
    st: Tables,
    fuel: nat,
) -> Result<(Tables, SlotView), GraphErrorView>
    decreases fuel, 0nat, 0nat,
{
    match find(g, f.ty_name) {
        None => Err(GraphErrorView::UnresolvedReference(f.ty_name)),
        Some(i) => match g[i] {
            NodeView::Product(p) => {
                if !f.expandable {
                    Ok((st, leaf_slot(f)))
                } else if p.fields.len() == 0 || fuel == 0 {
                    Err(GraphErrorView::InvalidFieldShape(p.name))
                } else {
                    match walk_list(
                        g,
                        p.name,
                        p.fields,
                        path.push(field_step(f.ty_name, owner)),
                        ctx,
                        st,
                        (fuel - 1) as nat,
                    ) {
                        Err(e) => Err(e),
                        Ok((st1, l)) => Ok((st1, nested_slot(f, l))),
                    }
                }
            },
            NodeView::Sum(s) => {
                let d = st.decisions.len() as usize;
                if !s.decision_point {
                    Ok((st, leaf_slot(f)))
                } else if s.options.len() == 0 {
                    Err(GraphErrorView::InvalidFieldShape(s.name))
                } else if !f.expandable {
                    let row = decision_row(
                        s,
                        slot_name(f),
                        path,
                        false,
                        no_links(s.options.len()),
                        Seq::empty(),
                        ctx,
                    );
                    Ok(
                        (
                            Tables { decisions: st.decisions.push(row), layouts: st.layouts },
                            decision_slot(f, d),
                        ),
                    )
                } else if fuel == 0 {
                    Err(GraphErrorView::InvalidFieldShape(s.name))
                } else {
                    let inner = path.push(field_step(f.ty_name, owner));
                    let slot = crate::format::option_field_name(f.ty_name);
                    let open = decision_row(s, slot, inner, true, Seq::empty(), Seq::empty(), ctx);
                    match walk_options(
                        g,
                        s.options,
                        0,
                        inner,
                        d,
                        Tables { decisions: st.decisions.push(open), layouts: st.layouts },
                        Seq::empty(),
                        Seq::empty(),
                        (fuel - 1) as nat,
                    ) {
                        Err(e) => Err(e),
                        Ok((st1, links, layouts)) => Ok(
                            (
                                Tables {
                                    decisions: st1.decisions.update(
                                        d as int,
                                        decision_row(s, slot, inner, true, links, layouts, ctx),
                                    ),
                                    layouts: st1.layouts,
                                },
                                decision_slot(f, d),
                            ),
                        ),
                    }
                }
            },
        },
    }
}

/// The walk over the fields from place `k` on, in declaration order.
pub open spec fn walk_fields(
    g: Seq<NodeView>,
    owner: Seq<char>,
    fields: Seq<FieldView>,
    k: int,
    path: Seq<SegmentView>,
    ctx: Option<(usize, usize)>,
    st: Tables,
    slots: Seq<SlotView>,
    fuel: nat,
) -> Result<(Tables, Seq<SlotView>), GraphErrorView>
    decreases fuel, 1nat, fields.len() - k,
{
    if k < 0 || k >= fields.len() {
        Ok((st, slots))
    } else {
        match walk_field(g, owner, fields[k], path, ctx, st, fuel) {
            Err(e) => Err(e),
            Ok((st1, slot)) => walk_fields(
                g,
                owner,
                fields,
                k + 1,
                path,
                ctx,
                st1,
                slots.push(slot),
                fuel,
            ),
        }
    }
}

/// The walk over the fields of one product type or variant: its slots are
/// gathered into a layout, whose place is returned.
pub open spec fn walk_list(
    g: Seq<NodeView>,
    owner: Seq<char>,
    fields: Seq<FieldView>,
    path: Seq<SegmentView>,
    ctx: Option<(usize, usize)>,
    st: Tables,
    fuel: nat,
) -> Result<(Tables, usize), GraphErrorView>
    decreases fuel, 2nat, 0nat,
{
    match walk_fields(g, owner, fields, 0, path, ctx, st, Seq::empty(), fuel) {
        Err(e) => Err(e),
        Ok((st1, slots)) => Ok(
            (
                Tables {
                    decisions: st1.decisions,
                    layouts: st1.layouts.push(LayoutView { owner, path, slots, ctx }),
                },
                st1.layouts.len() as usize,
            ),
        ),
    }
}

/// The walk over the variants, from place `j` on, of the decision at place
/// `d`. The link of a variant is the first decision that the walk of its
/// fields writes, if it writes any.
pub open spec fn walk_options(
    g: Seq<NodeView>,
    options: Seq<OptionView>,
    j: int,
    path: Seq<SegmentView>,
    d: usize,
    st: Tables,
    links: Seq<Option<usize>>,
    layouts: Seq<usize>,
    fuel: nat,
) -> Result<(Tables, Seq<Option<usize>>, Seq<usize>), GraphErrorView>
    decreases fuel, 3nat, options.len() - j,
{
    if j < 0 || j >= options.len() {
        Ok((st, links, layouts))
    } else {
        let start = st.decisions.len() as usize;
        match walk_list(
            g,
            options[j].tag,
            options[j].fields,
            path.push(SegmentView::VariantStep { variant_tag: options[j].tag }),
            Some((d, j as usize)),
            st,
            fuel,
        ) {
            Err(e) => Err(e),
            Ok((st1, l)) => {
                let link = if st1.decisions.len() > start {
                    Some(start)
                } else {
                    None
                };
                walk_options(g, options, j + 1, path, d, st1, links.push(link), layouts.push(l), fuel)
            },
        }
    }
}

/// The tables while a walk writes them.
struct Work {
    decisions: Vec<DecisionPoint>,
    layouts: Vec<Layout>,
}

impl View for Work {
    type V = Tables;

    closed spec fn view(&self) -> Tables {
        Tables { decisions: decisions_view(self.decisions@), layouts: layouts_view(self.layouts@) }
    }
}

fn make_row(
    s: &Pickable,
    slot: String,
    path: Vec<PathSegment>,
    expandable: bool,
    links: Vec<Option<usize>>,
    layouts: Vec<usize>,
    parent: Option<(usize, usize)>,
) -> (r: DecisionPoint)
    ensures
        r@ == decision_row(s@, slot@, path_view(path@), expandable, links@, layouts@, parent),
{
    DecisionPoint {
        node: s.name().clone(),
        slot,
        path,
        expandable,
        options: tags_of(s.options()),
        payload: flags_of(s.options()),
        links,
        layouts,
        parent,
    }
}

fn make_slot(f: &Field, kind: SlotKind) -> (r: Slot)
    ensures
        r@ == (SlotView { name: f@.name, ty_name: f@.ty_name, kind }),
{
    let name = match f.name() {
        Some(n) => Some(n.clone()),
        None => None,
    };
    Slot { name, ty_name: f.ty_name().clone(), kind }
}

fn field_step_of(ty: &String, owner: &String) -> (r: PathSegment)
    ensures
        r@ == field_step(ty@, owner@),
{
    PathSegment::FieldStep {
        field_builder_id: SculptFormatter::from(ty.clone()).format_builder_field_name(),
        owning_node_id: owner.clone(),
    }
}

/// A link out of the row at place `e` that leads to the first row under its
/// variant still does so when the row at place `d`, no later than `e`, is
/// replaced by a row that stands under the same decision.
proof fn lemma_link_first_patch(b: Tables, c: Tables, d: int, e: int, j: int, link: Option<usize>)
    requires
        0 <= d <= e < b.decisions.len(),
        c.decisions.len() == b.decisions.len(),
        forall|i: int| 0 <= i < b.decisions.len() && i != d ==> c.decisions[i] == b.decisions[i],
        c.decisions[d].parent == b.decisions[d].parent,
        link_ok(b, e, link),
        link_first(b, e, j, link),
    ensures
        link_first(c, e, j, link),
{
    if link is Some {
        let q = link.unwrap() as int;
        assert(c.decisions[q] == b.decisions[q]);
        assert forall|x: int| e < x < q implies #[trigger] branch_before(c, x, e, j) by {
            assert(branch_before(b, x, e, j));
            lemma_branch_same(b.decisions, c.decisions, x, e);
        }
    }
}

/// The rows of a block that stand under variant `j` of the decision at
/// place `d`, directly or under an earlier row of the block, stand under
/// that variant.
proof fn lemma_block_branch(t: Tables, d: int, j: int, start: int, e: int)
    requires
        0 <= d < start <= e < t.decisions.len(),
        d <= usize::MAX,
        0 <= j <= usize::MAX,
        forall|x: int|
            start <= x < t.decisions.len() ==> #[trigger] row_under(
                t,
                x,
                Some((d as usize, j as usize)),
                start,
            ),
    ensures
        branch_of(t.decisions, e, d) == Some(j as usize),
    decreases e,
{
    assert(row_under(t, e, Some((d as usize, j as usize)), start));
    if t.decisions[e].parent == Some((d as usize, j as usize)) {
    } else {
        let p = t.decisions[e].parent.unwrap();
        lemma_block_branch(t, d, j, start, p.0 as int);
    }
}

/// Every row after the decision at place `d` stands under one of its first
/// `j` variants.
spec fn covered(t: Tables, d: int, j: int) -> bool {
    forall|e: int| d < e < t.decisions.len() ==> #[trigger] branch_before(t, e, d, j)
}

/// After the walk over variant `j` of the decision at place `d`, every row
/// after that decision stands under one of its first `j + 1` variants, and
/// the first row that the walk has written, if any, is the first that
/// stands under variant `j`.
proof fn lemma_options_enter(a: Tables, m: Tables, d: int, j: int)
    requires
        0 <= d < a.decisions.len(),
        m.decisions.len() <= usize::MAX,
        0 <= j <= usize::MAX,
        grown(a, m, Some((d as usize, j as usize))),
        covered(a, d, j),
    ensures
        covered(m, d, j + 1),
        m.decisions.len() > a.decisions.len() ==> link_first(
            m,
            d,
            j,
            Some(a.decisions.len() as usize),
        ),
{
    let start = a.decisions.len() as int;
    assert forall|e: int| d < e < m.decisions.len() implies #[trigger] branch_before(m, e, d, j + 1) by {
        if e < start {
            assert(branch_before(a, e, d, j));
            assert forall|i: int| d < i <= e implies (#[trigger] a.decisions[i]).parent
                == m.decisions[i].parent by {
                assert(m.decisions[i] == a.decisions[i]);
            }
            lemma_branch_same(a.decisions, m.decisions, e, d);
        } else {
            assert forall|x: int| start <= x < m.decisions.len() implies #[trigger] row_under(
                m,
                x,
                Some((d as usize, j as usize)),
                start,
            ) by {
                assert(row_wf(m, x));
            }
            lemma_block_branch(m, d, j, start, e);
        }
    }
    if m.decisions.len() > start {
        assert(row_wf(m, start));
        assert(row_under(m, start, Some((d as usize, j as usize)), start));
        assert forall|e: int| d < e < start implies #[trigger] branch_before(m, e, d, j) by {
            assert(branch_before(a, e, d, j));
            assert forall|i: int| d < i <= e implies (#[trigger] a.decisions[i]).parent
                == m.decisions[i].parent by {
                assert(m.decisions[i] == a.decisions[i]);
            }
            lemma_branch_same(a.decisions, m.decisions, e, d);
        }
    }
}

/// The tables with the row of a decision that holds a bare tag appended are
/// the tables before grown by a row in order.
proof fn lemma_plain_row(a: Tables, b: Tables, row: DecisionView, ctx: Option<(usize, usize)>)
    requires
        ctx_ok(a, ctx),
        b.decisions == a.decisions.push(row),
        b.layouts == a.layouts,
        b.decisions.len() <= usize::MAX,
        row.parent == ctx,
        !row.expandable,
        row.options.len() > 0,
        row.payload.len() == row.options.len(),
        row.links == no_links(row.options.len()),
        row.layouts.len() == 0,
    ensures
        grown(a, b, ctx),
        slot_ok(
            b,
            SlotView { name: None, ty_name: Seq::empty(), kind: SlotKind::Decision(a.decisions.len() as usize) },
            ctx,
            a.decisions.len() as int,
            a.layouts.len() as int,
            b.layouts.len() as int,
        ),
{
    let d = a.decisions.len() as int;
    assert(row_wf(b, d)) by {
        if let Some(p) = ctx {
            assert(b.decisions[p.0 as int] == a.decisions[p.0 as int]);
        }
    }
}

/// The tables after the variants of the expandable decision at the first
/// place past the tables `a` were walked, with that row completed, are the
/// tables `a` grown by rows and layouts in order.
proof fn lemma_close_row(a: Tables, b: Tables, row: DecisionView, ctx: Option<(usize, usize)>)
    requires
        ctx_ok(a, ctx),
        extends(a, b),
        a.decisions.len() < b.decisions.len(),
        b.decisions.len() <= usize::MAX,
        row.parent == ctx,
        b.decisions[a.decisions.len() as int].parent == ctx,
        row.expandable,
        row.options == b.decisions[a.decisions.len() as int].options,
        row.options.len() > 0,
        row.payload.len() == row.options.len(),
        row.links.len() == row.options.len(),
        row.layouts.len() == row.options.len(),
        forall|i: int|
            0 <= i < row.options.len() ==> link_ok(b, a.decisions.len() as int, #[trigger] row.links[i]),
        forall|i: int|
            0 <= i < row.options.len() ==> link_first(
                b,
                a.decisions.len() as int,
                i,
                #[trigger] row.links[i],
            ),
        forall|i: int|
            0 <= i < row.options.len() ==> variant_layout_ok(
                b,
                a.decisions.len() as int,
                i,
                #[trigger] row.layouts[i],
            ) && a.layouts.len() <= row.layouts[i],
        forall|e: int|
            a.decisions.len() < e < b.decisions.len() ==> #[trigger] row_wf(b, e) && parent_within(
                b,
                e,
                a.decisions.len() as int,
            ),
        forall|e: int|
            a.decisions.len() < e < b.decisions.len() ==> #[trigger] child_linked(
                b,
                e,
                a.decisions.len() as int,
                row.links,
            ),
        forall|l: int|
            a.layouts.len() <= l < b.layouts.len() ==> #[trigger] layout_wf(
                b,
                l,
                a.decisions.len() as int + 1,
                a.layouts.len() as int,
            ),
    ensures
        grown(
            a,
            Tables { decisions: b.decisions.update(a.decisions.len() as int, row), layouts: b.layouts },
            ctx,
        ),
        slot_ok(
            Tables { decisions: b.decisions.update(a.decisions.len() as int, row), layouts: b.layouts },
            SlotView { name: None, ty_name: Seq::empty(), kind: SlotKind::Decision(a.decisions.len() as usize) },
            ctx,
            a.decisions.len() as int,
            a.layouts.len() as int,
            b.layouts.len() as int,
        ),
{
    let d = a.decisions.len() as int;
    let c = Tables { decisions: b.decisions.update(d, row), layouts: b.layouts };
    assert forall|e: int| d <= e < c.decisions.len() implies #[trigger] row_wf(c, e) && row_under(
        c,
        e,
        ctx,
        d,
    ) by {
        if e == d {
            assert forall|j: int| 0 <= j < row.links.len() implies link_ok(c, e, #[trigger] row.links[j]) by {
                assert(link_ok(b, d, row.links[j]));
            }
            assert forall|j: int| 0 <= j < row.links.len() implies link_first(
                c,
                e,
                j,
                #[trigger] row.links[j],
            ) by {
                assert(link_ok(b, d, row.links[j]));
                assert(link_first(b, d, j, row.links[j]));
                lemma_link_first_patch(b, c, d, d, j, row.links[j]);
            }
            assert forall|j: int| 0 <= j < row.layouts.len() implies variant_layout_ok(
                c,
                e,
                j,
                #[trigger] row.layouts[j],
            ) by {
                assert(variant_layout_ok(b, d, j, row.layouts[j]));
            }
            if let Some(p) = ctx {
                assert(c.decisions[p.0 as int] == a.decisions[p.0 as int]);
            }
            assert(parent_linked(c, e));
        } else {
            assert(row_wf(b, e));
            let x = c.decisions[e];
            assert(x == b.decisions[e]);
            assert(parent_linked(c, e)) by {
                let p = x.parent.unwrap();
                if p.0 == d {
                    assert(child_linked(b, e, d, row.links));
                } else {
                    assert(c.decisions[p.0 as int] == b.decisions[p.0 as int]);
                    assert(parent_linked(b, e));
                }
            }
            assert forall|j: int| 0 <= j < x.links.len() implies link_ok(c, e, #[trigger] x.links[j]) by {
                assert(link_ok(b, e, b.decisions[e].links[j]));
            }
            assert forall|j: int| 0 <= j < x.links.len() implies link_first(
                c,
                e,
                j,
                #[trigger] x.links[j],
            ) by {
                assert(link_ok(b, e, b.decisions[e].links[j]));
                assert(link_first(b, e, j, b.decisions[e].links[j]));
                lemma_link_first_patch(b, c, d, e, j, x.links[j]);
            }
            assert forall|j: int| 0 <= j < x.layouts.len() implies variant_layout_ok(
                c,
                e,
                j,
                #[trigger] x.layouts[j],
            ) by {
                assert(variant_layout_ok(b, e, j, b.decisions[e].layouts[j]));
            }
        }
    }
    assert forall|l: int| a.layouts.len() <= l < c.layouts.len() implies #[trigger] layout_wf(
        c,
        l,
        d,
        a.layouts.len() as int,
    ) by {
        assert(layout_wf(b, l, d + 1, a.layouts.len() as int));
        assert forall|k: int| 0 <= k < c.layouts[l].slots.len() implies slot_ok(
            c,
            #[trigger] c.layouts[l].slots[k],
            c.layouts[l].ctx,
            d,
            a.layouts.len() as int,
            l,
        ) by {
            let s = b.layouts[l].slots[k];
            assert(slot_ok(b, s, b.layouts[l].ctx, d + 1, a.layouts.len() as int, l));
            match s.kind {
                SlotKind::Leaf => {},
                SlotKind::Nested(m) => {},
                SlotKind::Decision(e) => {
                    assert(c.decisions[e as int] == b.decisions[e as int]);
                },
            }
        }
    }
}

fn resolve_field(
    nodes: &Vec<Declaration>,
    owner: &String,
    f: &Field,
    path: &Vec<PathSegment>,
    ctx: Option<(usize, usize)>,
    st: Work,
    fuel: usize,
) -> (r: Result<(Work, Slot), GraphError>)
    requires
        ctx_ok(st@, ctx),
    ensures
        match r {
            Ok((w, slot)) => walk_field(
                nodes_view(nodes@),
                owner@,
                f@,
                path_view(path@),
                ctx,
                st@,
                fuel as nat,
            ) == Ok::<(Tables, SlotView), GraphErrorView>((w@, slot@)) && grown(st@, w@, ctx)
                && slot_ok(
                w@,
                slot@,
                ctx,
                st@.decisions.len() as int,
                st@.layouts.len() as int,
                w@.layouts.len() as int,
            ),
            Err(e) => walk_field(
                nodes_view(nodes@),
                owner@,
                f@,
                path_view(path@),
                ctx,
                st@,
                fuel as nat,
            ) == Err::<(Tables, SlotView), GraphErrorView>(e@),
        },
    decreases fuel, 0nat, 0nat,
{
    let mut st = st;
    let ghost a = st@;
    match find_node(nodes, f.ty_name()) {
        None => Err(GraphError::UnresolvedReference(f.ty_name().clone())),
        Some(i) => match &nodes[i] {
            Declaration::Product(p) => {
                if !f.is_sculpt() {
                    Ok((st, make_slot(f, SlotKind::Leaf)))
                } else if p.fields.len() == 0 || fuel == 0 {
                    Err(GraphError::InvalidFieldShape(p.name.clone()))
                } else {
                    let inner = extend_path(path, field_step_of(f.ty_name(), owner));
                    match resolve_list(nodes, &p.name, &p.fields, inner, ctx, st, fuel - 1) {
                        Err(e) => Err(e),
                        Ok((st1, l)) => Ok((st1, make_slot(f, SlotKind::Nested(l)))),
                    }
                }
            },
            Declaration::Sum(s) => {
                let d = st.decisions.len();
                if !s.is_decision_point() {
                    Ok((st, make_slot(f, SlotKind::Leaf)))
                } else if s.options().len() == 0 {
                    Err(GraphError::InvalidFieldShape(s.name().clone()))
                } else if !f.is_sculpt() {
                    let row = make_row(
                        s,
                        f.format_field_name(),
                        clone_path(path),
                        false,
                        links_nowhere(s.options().len()),
                        Vec::new(),
                        ctx,
                    );
                    let ghost before = st.decisions@;
                    st.decisions.push(row);
                    proof {
                        assert(decisions_view(st.decisions@) =~= decisions_view(before).push(row@));
                        assert(st@.decisions.len() == st.decisions.len());
                        lemma_plain_row(a, st@, row@, ctx);
                    }
                    Ok((st, make_slot(f, SlotKind::Decision(d))))
                } else if fuel == 0 {
                    Err(GraphError::InvalidFieldShape(s.name().clone()))
                } else {
                    let formatter = SculptFormatter::from(f.ty_name().clone());
                    let inner = extend_path(path, field_step_of(f.ty_name(), owner));
                    let open = make_row(
                        s,
                        formatter.format_option_field(),
                        clone_path(&inner),
                        true,
                        Vec::new(),
                        Vec::new(),
                        ctx,
                    );
                    let ghost before = st.decisions@;
                    st.decisions.push(open);
                    proof {
                        assert(decisions_view(st.decisions@) =~= decisions_view(before).push(open@));
                    }
                    let ghost a1 = st@;
                    proof {
                        lemma_options_start(a, a1, open@, s@.options.len() as int);
                    }
                    match resolve_options(
                        nodes,
                        s.options(),
                        0,
                        &inner,
                        d,
                        st,
                        Vec::new(),
                        Vec::new(),
                        fuel - 1,
                        Ghost(a.layouts.len() as int),
                    ) {
                        Err(e) => Err(e),
                        Ok((st1, links, layouts)) => {
                            let mut st1 = st1;
                            let row = make_row(
                                s,
                                formatter.format_option_field(),
                                inner,
                                true,
                                links,
                                layouts,
                                ctx,
                            );
                            let ghost before = st1.decisions@;
                            let ghost b = st1@;
                            let rows = st1.decisions.len();
                            assert(b.decisions.len() == rows);
                            st1.decisions.set(d, row);
                            proof {
                                assert(decisions_view(st1.decisions@) =~= decisions_view(
                                    before,
                                ).update(d as int, row@));
                                lemma_field_close(a, a1, b, row@, ctx);
                            }
                            Ok((st1, make_slot(f, SlotKind::Decision(d))))
                        },
                    }
                }
            },
        },
    }
}

/// After the walk over one field, the slots gathered so far and the slot of
/// that field are in order in the tables that the walk has left.
proof fn lemma_fields_step(
    a: Tables,
    m: Tables,
    before: Seq<SlotView>,
    slot: SlotView,
    ctx: Option<(usize, usize)>,
    bd: int,
    bl: int,
)
    requires
        ctx_ok(a, ctx),
        grown(a, m, ctx),
        bd <= a.decisions.len(),
        bl <= a.layouts.len(),
        forall|n: int|
            0 <= n < before.len() ==> slot_ok(
                a,
                #[trigger] before[n],
                ctx,
                bd,
                bl,
                a.layouts.len() as int,
            ),
        slot_ok(
            m,
            slot,
            ctx,
            a.decisions.len() as int,
            a.layouts.len() as int,
            m.layouts.len() as int,
        ),
    ensures
        ctx_ok(m, ctx),
        forall|n: int|
            0 <= n < before.len() + 1 ==> slot_ok(
                m,
                #[trigger] before.push(slot)[n],
                ctx,
                bd,
                bl,
                m.layouts.len() as int,
            ),
{
    if let Some(p) = ctx {
        assert(m.decisions[p.0 as int] == a.decisions[p.0 as int]);
    }
    assert forall|n: int| 0 <= n < before.len() + 1 implies slot_ok(
        m,
        #[trigger] before.push(slot)[n],
        ctx,
        bd,
        bl,
        m.layouts.len() as int,
    ) by {
        if n < before.len() {
            let s = before[n];
            assert(slot_ok(a, s, ctx, bd, bl, a.layouts.len() as int));
            lemma_slot_extends(a, m, s, ctx, bd, bl, a.layouts.len() as int);
            lemma_slot_widen(m, s, ctx, bd, bl, a.layouts.len() as int, m.layouts.len() as int);
        } else {
            crate::table::lemma_slot_relax(
                m,
                slot,
                ctx,
                a.decisions.len() as int,
                a.layouts.len() as int,
                m.layouts.len() as int,
                bd,
                bl,
            );
        }
    }
}

fn resolve_fields(
    nodes: &Vec<Declaration>,
    owner: &String,
    fields: &Vec<Field>,
    k: usize,
    path: &Vec<PathSegment>,
    ctx: Option<(usize, usize)>,
    st: Work,
    slots: Vec<Slot>,
    fuel: usize,
    Ghost(bd): Ghost<int>,
    Ghost(bl): Ghost<int>,
) -> (r: Result<(Work, Vec<Slot>), GraphError>)
    requires
        k <= fields.len(),
        ctx_ok(st@, ctx),
        bd <= st@.decisions.len(),
        bl <= st@.layouts.len(),
        forall|n: int|
            0 <= n < slots.len() ==> slot_ok(
                st@,
                #[trigger] slots_view(slots@)[n],
                ctx,
                bd,
                bl,
                st@.layouts.len() as int,
            ),
    ensures
        match r {
            Ok((w, out)) => walk_fields(
                nodes_view(nodes@),
                owner@,
                fields_view(fields@),
                k as int,
                path_view(path@),
                ctx,
                st@,
                slots_view(slots@),
                fuel as nat,
            ) == Ok::<(Tables, Seq<SlotView>), GraphErrorView>((w@, slots_view(out@))) && grown(
                st@,
                w@,
                ctx,
            ) && forall|n: int|
                0 <= n < out.len() ==> slot_ok(
                    w@,
                    #[trigger] slots_view(out@)[n],
                    ctx,
                    bd,
                    bl,
                    w@.layouts.len() as int,
                ),
            Err(e) => walk_fields(
                nodes_view(nodes@),
                owner@,
                fields_view(fields@),
                k as int,
                path_view(path@),
                ctx,
                st@,
                slots_view(slots@),
                fuel as nat,
            ) == Err::<(Tables, Seq<SlotView>), GraphErrorView>(e@),
        },
    decreases fuel, 1nat, fields.len() - k,
{
    let ghost a = st@;
    if k >= fields.len() {
        Ok((st, slots))
    } else {
        match resolve_field(nodes, owner, &fields[k], path, ctx, st, fuel) {
            Err(e) => Err(e),
            Ok((st1, slot)) => {
                let mut slots = slots;
                let ghost before = slots@;
                slots.push(slot);
                let ghost m = st1@;
                proof {
                    assert(slots_view(slots@) =~= slots_view(before).push(slot@));
                    lemma_fields_step(a, m, slots_view(before), slot@, ctx, bd, bl);
                }
                let r = resolve_fields(
                    nodes,
                    owner,
                    fields,
                    k + 1,
                    path,
                    ctx,
                    st1,
                    slots,
                    fuel,
                    Ghost(bd),
                    Ghost(bl),
                );
                proof {
                    if r is Ok {
                        lemma_grown_trans(a, m, r->Ok_0.0@, ctx);
                    }
                }
                r
            },
        }
    }
}

/// A slot that is in order stays so when the bound from above is raised.
proof fn lemma_slot_widen(
    t: Tables,
    s: SlotView,
    ctx: Option<(usize, usize)>,
    bd: int,
    bl: int,
    ul: int,
    ul1: int,
)
    requires
        slot_ok(t, s, ctx, bd, bl, ul),
        ul <= ul1 <= t.layouts.len(),
    ensures
        slot_ok(t, s, ctx, bd, bl, ul1),
{
    match s.kind {
        SlotKind::Leaf => {},
        SlotKind::Nested(m) => {},
        SlotKind::Decision(e) => {
            assert forall|j: int| 0 <= j < t.decisions[e as int].layouts.len() implies bl
                <= #[trigger] t.decisions[e as int].layouts[j] < ul1 by {}
        },
    }
}

/// The tables after the walk over a list of fields, with the layout of the
/// list appended, are the tables before the walk grown by rows and layouts
/// in order.
proof fn lemma_list_close(a: Tables, m: Tables, b: Tables, ctx: Option<(usize, usize)>)
    requires
        grown(a, m, ctx),
        b.decisions == m.decisions,
        b.layouts.len() == m.layouts.len() + 1,
        forall|i: int| 0 <= i < m.layouts.len() ==> b.layouts[i] == m.layouts[i],
        b.layouts[m.layouts.len() as int].ctx == ctx,
        forall|n: int|
            0 <= n < b.layouts[m.layouts.len() as int].slots.len() ==> slot_ok(
                m,
                #[trigger] b.layouts[m.layouts.len() as int].slots[n],
                ctx,
                a.decisions.len() as int,
                a.layouts.len() as int,
                m.layouts.len() as int,
            ),
    ensures
        grown(a, b, ctx),
{
    let l = m.layouts.len() as int;
    assert(extends(m, b));
    assert forall|d: int| a.decisions.len() <= d < b.decisions.len() implies #[trigger] row_wf(b, d)
        && row_under(b, d, ctx, a.decisions.len() as int) by {
        assert(row_wf(m, d));
        lemma_row_extends(m, b, d);
        assert(row_under(m, d, ctx, a.decisions.len() as int));
    }
    assert forall|n: int| a.layouts.len() <= n < b.layouts.len() implies #[trigger] layout_wf(
        b,
        n,
        a.decisions.len() as int,
        a.layouts.len() as int,
    ) by {
        if n < l {
            assert(layout_wf(m, n, a.decisions.len() as int, a.layouts.len() as int));
            lemma_layout_extends(m, b, n, a.decisions.len() as int, a.layouts.len() as int);
        } else {
            assert forall|k: int| 0 <= k < b.layouts[n].slots.len() implies slot_ok(
                b,
                #[trigger] b.layouts[n].slots[k],
                b.layouts[n].ctx,
                a.decisions.len() as int,
                a.layouts.len() as int,
                n,
            ) by {
                let s = b.layouts[n].slots[k];
                assert(slot_ok(m, s, ctx, a.decisions.len() as int, a.layouts.len() as int, l));
                lemma_slot_extends(
                    m,
                    b,
                    s,
                    ctx,
                    a.decisions.len() as int,
                    a.layouts.len() as int,
                    l,
                );
            }
        }
    }
}

fn resolve_list(
    nodes: &Vec<Declaration>,
    owner: &String,
    fields: &Vec<Field>,
    path: Vec<PathSegment>,
    ctx: Option<(usize, usize)>,
    st: Work,
    fuel: usize,
) -> (r: Result<(Work, usize), GraphError>)
    requires
        ctx_ok(st@, ctx),
    ensures
        match r {
            Ok((w, l)) => walk_list(
                nodes_view(nodes@),
                owner@,
                fields_view(fields@),
                path_view(path@),
                ctx,
                st@,
                fuel as nat,
            ) == Ok::<(Tables, usize), GraphErrorView>((w@, l)) && grown(st@, w@, ctx)
                && st@.layouts.len() <= l && l + 1 == w@.layouts.len() && w@.layouts[l as int].ctx
                == ctx,
            Err(e) => walk_list(
                nodes_view(nodes@),
                owner@,
                fields_view(fields@),
                path_view(path@),
                ctx,
                st@,
                fuel as nat,
            ) == Err::<(Tables, usize), GraphErrorView>(e@),
        },
    decreases fuel, 2nat, 0nat,
{
    let ghost a = st@;
    let none: Vec<Slot> = Vec::new();
    assert(slots_view(none@) =~= Seq::empty());
    match resolve_fields(
        nodes,
        owner,
        fields,
        0,
        &path,
        ctx,
        st,
        none,
        fuel,
        Ghost(a.decisions.len() as int),
        Ghost(a.layouts.len() as int),
    ) {
        Err(e) => Err(e),
        Ok((st1, slots)) => {
            let mut st1 = st1;
            let l = st1.layouts.len();
            let layout = Layout { owner: owner.clone(), path, slots, ctx };
            let ghost before = st1.layouts@;
            let ghost m = st1@;
            st1.layouts.push(layout);
            proof {
                assert(layouts_view(st1.layouts@) =~= layouts_view(before).push(layout@));
                assert(layout@.slots == slots_view(slots@));
                lemma_list_close(a, m, st1@, ctx);
            }
            Ok((st1, l))
        },
    }
}

/// What the walk over the variants of the decision at place `d` has added to
/// the tables `a`: a link and a layout for each of the `n` variants, and rows
/// and layouts in order that stand under that decision.
spec fn options_done(
    a: Tables,
    w: Tables,
    ls: Seq<Option<usize>>,
    ys: Seq<usize>,
    d: int,
    n: int,
    bl: int,
    given: Seq<Option<usize>>,
) -> bool {
    &&& extends(a, w)
    &&& given.len() <= n
    &&& forall|i: int| 0 <= i < given.len() ==> ls[i] == #[trigger] given[i]
    &&& forall|e: int| a.decisions.len() <= e < w.decisions.len() ==> #[trigger] child_linked(w, e, d, ls)
    &&& ls.len() == n
    &&& ys.len() == n
    &&& forall|i: int| 0 <= i < n ==> link_ok(w, d, #[trigger] ls[i])
    &&& forall|i: int| 0 <= i < n ==> link_first(w, d, i, #[trigger] ls[i])
    &&& forall|i: int| 0 <= i < n ==> variant_layout_ok(w, d, i, #[trigger] ys[i]) && bl <= ys[i]
    &&& forall|e: int|
        a.decisions.len() <= e < w.decisions.len() ==> #[trigger] row_wf(w, e) && parent_within(w, e, d)
    &&& forall|l: int| a.layouts.len() <= l < w.layouts.len() ==> #[trigger] layout_wf(w, l, d + 1, bl)
}

/// What the walk over the variants of the decision at place `d` goes by
/// when it reaches variant `j` of `n`: the decision is in the tables and
/// still without links, and the links and layouts of the variants before
/// are in order.
spec fn options_ready(
    st: Tables,
    d: int,
    j: int,
    n: int,
    links: Seq<Option<usize>>,
    layouts: Seq<usize>,
    bl: int,
) -> bool {
    &&& 0 <= d < st.decisions.len()
    &&& 0 <= j <= n
    &&& st.decisions[d].options.len() == n
    &&& links.len() == j
    &&& layouts.len() == j
    &&& bl <= st.layouts.len()
    &&& st.decisions[d].links.len() == 0
    &&& forall|i: int| 0 <= i < j ==> link_ok(st, d, #[trigger] links[i])
    &&& forall|i: int| 0 <= i < j ==> link_first(st, d, i, #[trigger] links[i])
    &&& covered(st, d, j)
    &&& forall|i: int| 0 <= i < j ==> variant_layout_ok(st, d, i, #[trigger] layouts[i]) && bl <= layouts[i]
}

/// The walk over the variants is ready for the first variant once the row
/// of the decision, still without links, is appended.
proof fn lemma_options_start(a: Tables, a1: Tables, open: DecisionView, n: int)
    requires
        a1.decisions == a.decisions.push(open),
        a1.layouts == a.layouts,
        open.options.len() == n,
        open.links.len() == 0,
    ensures
        options_ready(
            a1,
            a.decisions.len() as int,
            0,
            n,
            Seq::empty(),
            Seq::empty(),
            a.layouts.len() as int,
        ),
{
}

/// The walk that has reached the end of the variants has added nothing.
proof fn lemma_options_end(
    a: Tables,
    d: int,
    n: int,
    links: Seq<Option<usize>>,
    layouts: Seq<usize>,
    bl: int,
)
    requires
        options_ready(a, d, n, n, links, layouts, bl),
    ensures
        options_done(a, a, links, layouts, d, n, bl, links),
{
}

/// After the walk over variant `j`, the walk over the variants is ready for
/// variant `j + 1`.
proof fn lemma_options_next(
    a: Tables,
    m: Tables,
    d: int,
    j: int,
    n: int,
    links: Seq<Option<usize>>,
    layouts: Seq<usize>,
    bl: int,
    link: Option<usize>,
    l: usize,
)
    requires
        options_ready(a, d, j, n, links, layouts, bl),
        j < n,
        j <= usize::MAX,
        m.decisions.len() <= usize::MAX,
        grown(a, m, Some((d as usize, j as usize))),
        link == if m.decisions.len() > a.decisions.len() {
            Some(a.decisions.len() as usize)
        } else {
            None::<usize>
        },
        a.layouts.len() <= l,
        l + 1 == m.layouts.len(),
        m.layouts[l as int].ctx == Some((d as usize, j as usize)),
    ensures
        options_ready(m, d, j + 1, n, links.push(link), layouts.push(l), bl),
{
    assert(m.decisions[d] == a.decisions[d]);
    lemma_options_enter(a, m, d, j);
    let links1 = links.push(link);
    let layouts1 = layouts.push(l);
    assert forall|i: int| 0 <= i < j + 1 implies link_ok(m, d, #[trigger] links1[i]) by {
        if i < j {
            assert(link_ok(a, d, links[i]));
        }
    }
    assert forall|i: int| 0 <= i < j + 1 implies link_first(m, d, i, #[trigger] links1[i]) by {
        if i < j {
            assert(link_ok(a, d, links[i]));
            assert(link_first(a, d, i, links[i]));
            lemma_link_first_extends(a, m, d, i, links[i]);
        }
    }
    assert forall|i: int| 0 <= i < j + 1 implies variant_layout_ok(m, d, i, #[trigger] layouts1[i])
        && bl <= layouts1[i] by {
        if i < j {
            assert(variant_layout_ok(a, d, i, layouts[i]));
        }
    }
}

/// The tables after the walk over the variants of an expandable decision,
/// with the row of the decision completed, are the tables before the
/// decision grown by rows and layouts in order.
proof fn lemma_field_close(
    a: Tables,
    a1: Tables,
    b: Tables,
    row: DecisionView,
    ctx: Option<(usize, usize)>,
)
    requires
        ctx_ok(a, ctx),
        extends(a, a1),
        a1.decisions.len() == a.decisions.len() + 1,
        a1.layouts.len() == a.layouts.len(),
        a1.decisions[a.decisions.len() as int].parent == ctx,
        a1.decisions[a.decisions.len() as int].options == row.options,
        b.decisions.len() <= usize::MAX,
        row.parent == ctx,
        row.expandable,
        row.options.len() > 0,
        row.payload.len() == row.options.len(),
        options_done(
            a1,
            b,
            row.links,
            row.layouts,
            a.decisions.len() as int,
            row.options.len() as int,
            a.layouts.len() as int,
            Seq::empty(),
        ),
    ensures
        grown(
            a,
            Tables { decisions: b.decisions.update(a.decisions.len() as int, row), layouts: b.layouts },
            ctx,
        ),
        slot_ok(
            Tables { decisions: b.decisions.update(a.decisions.len() as int, row), layouts: b.layouts },
            SlotView { name: None, ty_name: Seq::empty(), kind: SlotKind::Decision(a.decisions.len() as usize) },
            ctx,
            a.decisions.len() as int,
            a.layouts.len() as int,
            b.layouts.len() as int,
        ),
{
    let d = a.decisions.len() as int;
    assert(b.decisions[d] == a1.decisions[d]);
    assert(extends(a, b)) by {
        assert forall|i: int| 0 <= i < a.decisions.len() implies b.decisions[i] == a.decisions[i] by {
            assert(a1.decisions[i] == a.decisions[i]);
        }
        assert forall|i: int| 0 <= i < a.layouts.len() implies b.layouts[i] == a.layouts[i] by {
            assert(a1.layouts[i] == a.layouts[i]);
        }
    }
    assert forall|e: int| d < e < b.decisions.len() implies #[trigger] row_wf(b, e) && parent_within(
        b,
        e,
        d,
    ) by {
        assert(a1.decisions.len() <= e);
    }
    assert forall|e: int| d < e < b.decisions.len() implies #[trigger] child_linked(
        b,
        e,
        d,
        row.links,
    ) by {
        assert(a1.decisions.len() <= e);
    }
    assert forall|l: int| a.layouts.len() <= l < b.layouts.len() implies #[trigger] layout_wf(
        b,
        l,
        d + 1,
        a.layouts.len() as int,
    ) by {
        assert(a1.layouts.len() <= l);
    }
    lemma_close_row(a, b, row, ctx);
}

fn resolve_options(
    nodes: &Vec<Declaration>,
    options: &Vec<PickableOption>,
    j: usize,
    path: &Vec<PathSegment>,
    d: usize,
    st: Work,
    links: Vec<Option<usize>>,
    layouts: Vec<usize>,
    fuel: usize,
    Ghost(bl): Ghost<int>,
) -> (r: Result<(Work, Vec<Option<usize>>, Vec<usize>), GraphError>)
    requires
        j <= options.len(),
        options_ready(st@, d as int, j as int, options.len() as int, links@, layouts@, bl),
    ensures
        match r {
            Ok((w, ls, ys)) => walk_options(
                nodes_view(nodes@),
                options_view(options@),
                j as int,
                path_view(path@),
                d,
                st@,
                links@,
                layouts@,
                fuel as nat,
            ) == Ok::<(Tables, Seq<Option<usize>>, Seq<usize>), GraphErrorView>((w@, ls@, ys@))
                && options_done(st@, w@, ls@, ys@, d as int, options.len() as int, bl, links@),
            Err(e) => walk_options(
                nodes_view(nodes@),
                options_view(options@),
                j as int,
                path_view(path@),
                d,
                st@,
                links@,
                layouts@,
                fuel as nat,
            ) == Err::<(Tables, Seq<Option<usize>>, Seq<usize>), GraphErrorView>(e@),
        },
    decreases fuel, 3nat, options.len() - j,
{
    let ghost a = st@;
    if j >= options.len() {
        proof {
            lemma_options_end(a, d as int, options.len() as int, links@, layouts@, bl);
        }
        Ok((st, links, layouts))
    } else {
        let start = st.decisions.len();
        let option = &options[j];
        let inner = extend_path(path, PathSegment::VariantStep { variant_tag: option.name().clone() });
        let empty: Vec<Field> = Vec::new();
        let fields = match option.fields() {
            Some(fields) => fields,
            None => &empty,
        };
        assert(fields_view(fields@) =~= options_view(options@)[j as int].fields);
        match resolve_list(nodes, option.name(), fields, inner, Some((d, j)), st, fuel) {
            Err(e) => Err(e),
            Ok((st1, l)) => {
                let link = if st1.decisions.len() > start {
                    Some(start)
                } else {
                    None
                };
                let mut links = links;
                let mut layouts = layouts;
                let ghost old_links = links@;
                let ghost old_layouts = layouts@;
                links.push(link);
                layouts.push(l);
                let ghost m = st1@;
                proof {
                    assert(m.decisions.len() == st1.decisions.len());
                    lemma_options_next(
                        a,
                        m,
                        d as int,
                        j as int,
                        options.len() as int,
                        old_links,
                        old_layouts,
                        bl,
                        link,
                        l,
                    );
                }
                let r = resolve_options(
                    nodes,
                    options,
                    j + 1,
                    path,
                    d,
                    st1,
                    links,
                    layouts,
                    fuel,
                    Ghost(bl),
                );
                match r {
                    Err(e) => Err(e),
                    Ok((w, ls, ys)) => {
                        proof {
                            lemma_options_step(
                                a,
                                m,
                                w@,
                                ls@,
                                ys@,
                                d as int,
                                j as int,
                                options.len() as int,
                                bl,
                                old_links,
                                link,
                            );
                        }
                        Ok((w, ls, ys))
                    },
                }
            },
        }
    }
}

/// What the walk over one variant and then over the variants after it has
/// added is what the walk over the variants from that one on has added.
proof fn lemma_options_step(
    a: Tables,
    m: Tables,
    w: Tables,
    ls: Seq<Option<usize>>,
    ys: Seq<usize>,
    d: int,
    j: int,
    n: int,
    bl: int,
    given: Seq<Option<usize>>,
    link: Option<usize>,
)
    requires
        0 <= d < a.decisions.len(),
        0 <= j <= usize::MAX,
        d <= usize::MAX,
        bl <= a.layouts.len(),
        given.len() == j,
        m.decisions.len() > a.decisions.len() ==> link == Some(a.decisions.len() as usize),
        grown(a, m, Some((d as usize, j as usize))),
        options_done(m, w, ls, ys, d, n, bl, given.push(link)),
    ensures
        options_done(a, w, ls, ys, d, n, bl, given),
{
    assert forall|i: int| 0 <= i < given.len() implies ls[i] == #[trigger] given[i] by {
        assert(given.push(link)[i] == given[i]);
    }
    assert(ls[j] == given.push(link)[j]);
    assert forall|e: int| a.decisions.len() <= e < w.decisions.len() implies #[trigger] child_linked(
        w,
        e,
        d,
        ls,
    ) by {
        if e < m.decisions.len() {
            assert(row_wf(m, e));
            assert(row_under(m, e, Some((d as usize, j as usize)), a.decisions.len() as int));
            assert(w.decisions[e] == m.decisions[e]);
        }
    }
    assert forall|e: int| a.decisions.len() <= e < w.decisions.len() implies #[trigger] row_wf(w, e)
        && parent_within(w, e, d) by {
        if e < m.decisions.len() {
            assert(row_wf(m, e));
            lemma_row_extends(m, w, e);
            assert(row_under(m, e, Some((d as usize, j as usize)), a.decisions.len() as int));
            assert(w.decisions[e] == m.decisions[e]);
        } else {
            assert(row_wf(w, e));
        }
    }
    assert forall|l: int| a.layouts.len() <= l < w.layouts.len() implies #[trigger] layout_wf(
        w,
        l,
        d + 1,
        bl,
    ) by {
        if l < m.layouts.len() {
            assert(layout_wf(m, l, a.decisions.len() as int, a.layouts.len() as int));
            lemma_layout_extends(m, w, l, a.decisions.len() as int, a.layouts.len() as int);
            lemma_layout_relax(w, l, a.decisions.len() as int, a.layouts.len() as int, d + 1, bl);
        } else {
            assert(layout_wf(w, l, d + 1, bl));
        }
    }
}

/// What the path resolver gives, as plain values: the tables and the place
/// of the root's layout.
pub struct ResolutionView {
    pub tables: Tables,
    pub root: usize,
}

/// The outcome of the path resolver: the decision table, in the order in
/// which a depth-first walk in declaration order meets the decisions, and
/// the layouts of the builders.
pub struct Resolution {
    decisions: Vec<DecisionPoint>,
    layouts: Vec<Layout>,
    root: usize,
}

impl View for Resolution {
    type V = ResolutionView;

    closed spec fn view(&self) -> ResolutionView {
        ResolutionView {
            tables: Tables {
                decisions: decisions_view(self.decisions@),
                layouts: layouts_view(self.layouts@),
            },
            root: self.root,
        }
    }
}

/// The tables are complete, and the root's layout is one of the layouts and
/// stands under no decision.
pub open spec fn resolution_wf(r: ResolutionView) -> bool {
    &&& tables_wf(r.tables)
    &&& r.root < r.tables.layouts.len()
    &&& r.tables.layouts[r.root as int].ctx is None
    &&& r.tables.decisions.len() <= usize::MAX
    &&& r.tables.layouts.len() <= usize::MAX
}

/// What the path resolver makes of a graph: the walk over the root's fields,
/// starting with empty tables, an empty path and as much fuel as the graph
/// has nodes.
pub open spec fn resolve_outcome(g: crate::graph::GraphView) -> Result<ResolutionView, GraphErrorView> {
    match g.nodes[g.root] {
        NodeView::Product(p) => match walk_list(
            g.nodes,
            p.name,
            p.fields,
            Seq::empty(),
            None,
            Tables { decisions: Seq::empty(), layouts: Seq::empty() },
            g.nodes.len(),
        ) {
            Ok((t, l)) => Ok(ResolutionView { tables: t, root: l }),
            Err(e) => Err(e),
        },
        NodeView::Sum(s) => Err(GraphErrorView::InvalidFieldShape(s.name)),
    }
}

impl Resolution {
    pub open spec fn wf(&self) -> bool {
        resolution_wf(self@)
    }

    pub fn decisions(&self) -> (r: &Vec<DecisionPoint>)
        ensures
            decisions_view(r@) == self@.tables.decisions,
    {
        &self.decisions
    }

    pub fn layouts(&self) -> (r: &Vec<Layout>)
        ensures
            layouts_view(r@) == self@.tables.layouts,
    {
        &self.layouts
    }

    pub fn root(&self) -> (r: usize)
        ensures
            r == self@.root,
    {
        self.root
    }
}

/// Resolves the decisions of a graph: walks it from the root and writes the
/// decision table and the layouts.
pub fn resolve(graph: &DependencyGraph) -> (r: Result<Resolution, GraphError>)
    requires
        graph.wf(),
    ensures
        match r {
            Ok(t) => resolve_outcome(graph@) == Ok::<ResolutionView, GraphErrorView>(t@) && t.wf(),
            Err(e) => resolve_outcome(graph@) == Err::<ResolutionView, GraphErrorView>(e@),
        },
{
    proof {
        graph.lemma_root();
    }
    let nodes = graph.nodes();
    let start = Work { decisions: Vec::new(), layouts: Vec::new() };
    proof {
        assert(start@.decisions =~= Seq::empty());
        assert(start@.layouts =~= Seq::empty());
    }
    let path: Vec<PathSegment> = Vec::new();
    assert(path_view(path@) =~= Seq::empty());
    match &nodes[graph.root()] {
        Declaration::Product(p) => {
            match resolve_list(nodes, &p.name, &p.fields, path, None, start, nodes.len()) {
                Err(e) => Err(e),
                Ok((w, l)) => {
                    let ghost t = w@;
                    let r = Resolution { decisions: w.decisions, layouts: w.layouts, root: l };
                    proof {
                        assert(r@.tables == t);
                        assert forall|n: int| 0 <= n < t.layouts.len() implies #[trigger] layout_wf(
                            t,
                            n,
                            0,
                            0,
                        ) by {}
                        assert(t.decisions.len() == r.decisions.len());
                        assert(t.layouts.len() == r.layouts.len());
                    }
                    Ok(r)
                },
            }
        },
        Declaration::Sum(s) => Err(GraphError::InvalidFieldShape(s.name().clone())),
    }
}

/// Every field of the list refers to a declared type, and the type of
/// every expandable field has a rank below `bound` and, where it is a
/// product type, a field.
pub open spec fn fields_ranked(
    g: Seq<NodeView>,
    rank: spec_fn(int) -> nat,
    fields: Seq<FieldView>,
    bound: nat,
) -> bool {
    forall|k: int|
        0 <= k < fields.len() ==> find(g, (#[trigger] fields[k]).ty_name) is Some && (
        fields[k].expandable ==> rank(find(g, fields[k].ty_name).unwrap()) < bound && has_fields(
            g[find(g, fields[k].ty_name).unwrap()],
        ))
}

/// The node is no product type without fields.
pub open spec fn has_fields(n: NodeView) -> bool {
    n is Product ==> n->Product_0.fields.len() > 0
}

/// The node at place `i` is in order under the ranking: its expandable
/// fields, and those of its variants, refer to types of lower rank, and a
/// decision point has a variant.
pub open spec fn node_ranked(g: Seq<NodeView>, rank: spec_fn(int) -> nat, i: int) -> bool {
    match g[i] {
        NodeView::Product(p) => fields_ranked(g, rank, p.fields, rank(i)),
        NodeView::Sum(s) => (s.decision_point ==> s.options.len() > 0) && options_ranked(
            g,
            rank,
            s.options,
            rank(i),
        ),
    }
}

/// The fields of every variant of the list are in order under the ranking.
pub open spec fn options_ranked(
    g: Seq<NodeView>,
    rank: spec_fn(int) -> nat,
    options: Seq<OptionView>,
    bound: nat,
) -> bool {
    forall|j: int|
        0 <= j < options.len() ==> fields_ranked(g, rank, (#[trigger] options[j]).fields, bound)
}

/// The declaration set has no cycle of expandable references, as the
/// ranking shows, no reference to an undeclared type, and no decision point
/// without variants.
pub open spec fn ranked(g: Seq<NodeView>, rank: spec_fn(int) -> nat) -> bool {
    forall|i: int| 0 <= i < g.len() ==> #[trigger] node_ranked(g, rank, i)
}

/// A name that is found is found at a place of the list.
pub proof fn lemma_find_in_range(g: Seq<NodeView>, name: Seq<char>, k: int)
    requires
        0 <= k,
    ensures
        crate::graph::find_from(g, name, k) is Some ==> k <= crate::graph::find_from(
            g,
            name,
            k,
        ).unwrap() < g.len(),
    decreases g.len() - k,
{
    if k < g.len() && crate::graph::node_name(g[k]) != name {
        lemma_find_in_range(g, name, k + 1);
    }
}

/// Under a ranking, the walk over a field whose type ranks below the fuel
/// does not fail.
pub proof fn lemma_walk_field_ok(
    g: Seq<NodeView>,
    rank: spec_fn(int) -> nat,
    owner: Seq<char>,
    f: FieldView,
    path: Seq<SegmentView>,
    ctx: Option<(usize, usize)>,
    st: Tables,
    fuel: nat,
)
    requires
        ranked(g, rank),
        find(g, f.ty_name) is Some,
        f.expandable ==> rank(find(g, f.ty_name).unwrap()) < fuel && has_fields(
            g[find(g, f.ty_name).unwrap()],
        ),
    ensures
        walk_field(g, owner, f, path, ctx, st, fuel) is Ok,
    decreases fuel, 0nat, 0nat,
{
    lemma_find_in_range(g, f.ty_name, 0);
    let i = find(g, f.ty_name).unwrap();
    assert(node_ranked(g, rank, i));
    match g[i] {
        NodeView::Product(p) => {
            if f.expandable {
                lemma_walk_list_ok(
                    g,
                    rank,
                    p.name,
                    p.fields,
                    path.push(field_step(f.ty_name, owner)),
                    ctx,
                    st,
                    (fuel - 1) as nat,
                    rank(i),
                );
            }
        },
        NodeView::Sum(s) => {
            if s.decision_point && f.expandable {
                let d = st.decisions.len() as usize;
                let inner = path.push(field_step(f.ty_name, owner));
                let slot = crate::format::option_field_name(f.ty_name);
                let open = decision_row(s, slot, inner, true, Seq::empty(), Seq::empty(), ctx);
                lemma_walk_options_ok(
                    g,
                    rank,
                    s.options,
                    0,
                    inner,
                    d,
                    Tables { decisions: st.decisions.push(open), layouts: st.layouts },
                    Seq::empty(),
                    Seq::empty(),
                    (fuel - 1) as nat,
                    rank(i),
                );
            }
        },
    }
}

/// Under a ranking, the walk over fields whose types rank no higher than
/// the fuel does not fail.
pub proof fn lemma_walk_fields_ok(
    g: Seq<NodeView>,
    rank: spec_fn(int) -> nat,
    owner: Seq<char>,
    fields: Seq<FieldView>,
    k: int,
    path: Seq<SegmentView>,
    ctx: Option<(usize, usize)>,
    st: Tables,
    slots: Seq<SlotView>,
    fuel: nat,
    bound: nat,
)
    requires
        ranked(g, rank),
        0 <= k,
        bound <= fuel,
        fields_ranked(g, rank, fields, bound),
    ensures
        walk_fields(g, owner, fields, k, path, ctx, st, slots, fuel) is Ok,
    decreases fuel, 1nat, fields.len() - k,
{
    if k < fields.len() {
        assert(find(g, fields[k].ty_name) is Some);
        lemma_walk_field_ok(g, rank, owner, fields[k], path, ctx, st, fuel);
        let next = walk_field(g, owner, fields[k], path, ctx, st, fuel)->Ok_0;
        lemma_walk_fields_ok(
            g,
            rank,
            owner,
            fields,
            k + 1,
            path,
            ctx,
            next.0,
            slots.push(next.1),
            fuel,
            bound,
        );
    }
}

/// Under a ranking, the walk over the fields of a type that ranks no higher
/// than the fuel does not fail.
pub proof fn lemma_walk_list_ok(
    g: Seq<NodeView>,
    rank: spec_fn(int) -> nat,
    owner: Seq<char>,
    fields: Seq<FieldView>,
    path: Seq<SegmentView>,
    ctx: Option<(usize, usize)>,
    st: Tables,
    fuel: nat,
    bound: nat,
)
    requires
        ranked(g, rank),
        bound <= fuel,
        fields_ranked(g, rank, fields, bound),
    ensures
        walk_list(g, owner, fields, path, ctx, st, fuel) is Ok,
    decreases fuel, 2nat, 0nat,
{
    lemma_walk_fields_ok(g, rank, owner, fields, 0, path, ctx, st, Seq::empty(), fuel, bound);
}

/// Under a ranking, the walk over the variants of a decision that ranks no
/// higher than the fuel does not fail.
pub proof fn lemma_walk_options_ok(
    g: Seq<NodeView>,
    rank: spec_fn(int) -> nat,
    options: Seq<OptionView>,
    j: int,
    path: Seq<SegmentView>,
    d: usize,
    st: Tables,
    links: Seq<Option<usize>>,
    layouts: Seq<usize>,
    fuel: nat,
    bound: nat,
)
    requires
        ranked(g, rank),
        0 <= j,
        bound <= fuel,
        options_ranked(g, rank, options, bound),
    ensures
        walk_options(g, options, j, path, d, st, links, layouts, fuel) is Ok,
    decreases fuel, 3nat, options.len() - j,
{
    if j < options.len() {
        assert(fields_ranked(g, rank, options[j].fields, bound));
        let inner = path.push(SegmentView::VariantStep { variant_tag: options[j].tag });
        lemma_walk_list_ok(
            g,
            rank,
            options[j].tag,
            options[j].fields,
            inner,
            Some((d, j as usize)),
            st,
            fuel,
            bound,
        );
        let next = walk_list(
            g,
            options[j].tag,
            options[j].fields,
            inner,
            Some((d, j as usize)),
            st,
            fuel,
        )->Ok_0;
        let link = if next.0.decisions.len() > st.decisions.len() as usize {
            Some(st.decisions.len() as usize)
        } else {
            None
        };
        lemma_walk_options_ok(
            g,
            rank,
            options,
            j + 1,
            path,
            d,
            next.0,
            links.push(link),
            layouts.push(next.1),
            fuel,
            bound,
        );
    }
}

/// When the resolver owes success: a graph whose expandable references
/// follow a ranking of the types, and so form no cycle, whose references
/// all name declared types, whose decision points all have a variant and
/// whose expandable fields of a product type find fields there, is resolved.
pub proof fn lemma_ranked_resolves(g: crate::graph::GraphView, rank: spec_fn(int) -> nat)
    requires
        0 <= g.root < g.nodes.len(),
        g.nodes[g.root] is Product,
        ranked(g.nodes, rank),
        forall|i: int| 0 <= i < g.nodes.len() ==> #[trigger] rank(i) <= g.nodes.len(),
    ensures
        resolve_outcome(g) is Ok,
{
    let p = g.nodes[g.root]->Product_0;
    assert(node_ranked(g.nodes, rank, g.root));
    assert(rank(g.root) <= g.nodes.len());
    assert(fields_ranked(g.nodes, rank, p.fields, rank(g.root)));
    lemma_walk_list_ok(
        g.nodes,
        rank,
        p.name,
        p.fields,
        Seq::empty(),
        None,
        Tables { decisions: Seq::empty(), layouts: Seq::empty() },
        g.nodes.len(),
        rank(g.root),
    );
}

} // verus!
