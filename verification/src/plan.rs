//! The regions of a frame: the division of every node of a layout tree, and
//! what each widget draws in its region.

use vstd::prelude::*;
use crate::layout::{is_division, lemma_division_enclosed, lemma_division_of_empty, Rect};
use crate::tree::{count_all, is_registered, TreeModel, WidgetLayout, WidgetModel};
use crate::widget::{Drawing, DrawingModel, WidgetComponent};

verus! {

/// The division of one node, and the divisions of its child nodes.
#[derive(Debug)]
pub struct RegionPlan {
    /// The regions into which the node divides its rectangle.
    pub regions: Vec<Rect>,
    /// The plans of the child nodes, in the order of their declaration.
    pub children: Vec<RegionPlan>,
}

/// A rectangle and what is drawn in it.
#[derive(Debug)]
pub struct DrawCommand {
    pub area: Rect,
    pub drawing: Drawing,
}

/// The mathematical value of a [`DrawCommand`].
pub ghost struct DrawCommandModel {
    pub area: Rect,
    pub drawing: DrawingModel,
}

impl View for DrawCommand {
    type V = DrawCommandModel;

    open spec fn view(&self) -> DrawCommandModel {
        DrawCommandModel { area: self.area, drawing: self.drawing@ }
    }
}

/// The mathematical values of a list of draw commands.
pub open spec fn command_models(commands: Seq<DrawCommand>) -> Seq<DrawCommandModel> {
    Seq::new(commands.len(), |i: int| commands[i]@)
}

/// Nothing is drawn in a rectangle that covers no cell.
pub open spec fn all_quiet(commands: Seq<DrawCommandModel>) -> bool {
    forall|i: int|
        0 <= i < commands.len() && (#[trigger] commands[i]).area.spec_is_empty() ==> commands[i].drawing
            is Blank
}

impl RegionPlan {
    /// The plan has a region for every widget and every child node of
    /// `tree`, and a plan of that kind for every child node.
    pub open spec fn covers<M>(&self, tree: TreeModel<M>) -> bool
        decreases self,
    {
        &&& forall|i: int|
            0 <= i < tree.widgets.len() ==> (#[trigger] tree.widgets[i]).layout_area_index
                < self.regions@.len()
        &&& self.children@.len() == tree.sub_layout.len()
        &&& forall|j: int|
            0 <= j < self.children@.len() ==> (#[trigger] self.children@[j]).covers(tree.sub_layout[j])
    }

    /// The plan is a division of `area` as the root of `tree` asks for it,
    /// with every child node dividing the region that it is bound to.
    pub open spec fn divides<M>(&self, tree: TreeModel<M>, area: Rect) -> bool
        decreases self,
    {
        &&& is_division(tree.direction, tree.constraints.len(), area, self.regions@)
        &&& self.children@.len() == tree.sub_layout.len()
        &&& forall|j: int|
            0 <= j < self.children@.len() ==> tree.sub_layout[j].super_layout_area_index
                < self.regions@.len() && (#[trigger] self.children@[j]).divides(
                tree.sub_layout[j],
                self.regions@[tree.sub_layout[j].super_layout_area_index as int],
            )
    }

    /// Every region of the plan, at every depth, lies inside `area`.
    pub open spec fn inside(&self, area: Rect) -> bool
        decreases self,
    {
        &&& forall|i: int| 0 <= i < self.regions@.len() ==> area.encloses(#[trigger] self.regions@[i])
        &&& forall|j: int| 0 <= j < self.children@.len() ==> (#[trigger] self.children@[j]).inside(area)
    }

    /// Every region of the plan, at every depth, covers no cell.
    pub open spec fn all_empty(&self) -> bool
        decreases self,
    {
        &&& forall|i: int| 0 <= i < self.regions@.len() ==> (#[trigger] self.regions@[i]).spec_is_empty()
        &&& forall|j: int| 0 <= j < self.children@.len() ==> (#[trigger] self.children@[j]).all_empty()
    }
}

/// What the widgets `widgets` of a node draw in the regions `regions`.
pub open spec fn drawn_here<W: WidgetComponent>(widgets: Seq<WidgetModel<W::V>>, regions: Seq<Rect>) -> Seq<
    DrawCommandModel,
> {
    Seq::new(
        widgets.len(),
        |i: int|
            {
                let area = regions[widgets[i].layout_area_index as int];
                DrawCommandModel { area, drawing: W::drawing(widgets[i].component, area) }
            },
    )
}

/// What the widgets of `tree` draw under `plan`, in the order of the visit:
/// each widget in the region of its node that it is bound to.
pub open spec fn drawn<W: WidgetComponent>(tree: TreeModel<W::V>, plan: RegionPlan) -> Seq<DrawCommandModel>
    decreases tree,
{
    drawn_here::<W>(tree.widgets, plan.regions@) + drawn_all::<W>(
        tree.sub_layout,
        plan.children@,
        tree.sub_layout.len() as int,
    )
}

/// What the widgets of the first `n` trees of `trees` draw under `plans`.
pub open spec fn drawn_all<W: WidgetComponent>(trees: Seq<TreeModel<W::V>>, plans: Seq<RegionPlan>, n: int) -> Seq<
    DrawCommandModel,
>
    decreases trees, n,
{
    if n <= 0 || n > trees.len() {
        Seq::empty()
    } else {
        drawn_all::<W>(trees, plans, n - 1) + drawn::<W>(trees[n - 1], plans[n - 1])
    }
}

impl<W: WidgetComponent> WidgetLayout<W> {
    /// Divides `area` for the root of the tree, and for every child node the
    /// region that it is bound to.
    pub fn split_regions(&self, area: Rect) -> (plan: RegionPlan)
        requires
            self@.well_formed(),
        ensures
            plan.divides(self@, area),
            plan.covers(self@),
        decreases self,
    {
        let regions = self.layout.split(area);
        let mut children: Vec<RegionPlan> = Vec::new();
        let mut j: usize = 0;
        while j < self.sub_layout.len()
            invariant
                j <= self.sub_layout@.len(),
                self@.well_formed(),
                regions@.len() == self@.constraints.len(),
                children@.len() == j,
                forall|k: int|
                    0 <= k < j ==> (#[trigger] children@[k]).divides(
                        self@.sub_layout[k],
                        regions@[self@.sub_layout[k].super_layout_area_index as int],
                    ),
                forall|k: int| 0 <= k < j ==> (#[trigger] children@[k]).covers(self@.sub_layout[k]),
            decreases self.sub_layout.len() - j,
        {
            proof {
                let child = self.sub_layout@[j as int];
                assert(self@.sub_layout[j as int] == child.model());
                assert(child.model().super_layout_area_index == child.super_layout_area_index);
                assert(self@.sub_layout[j as int].well_formed());
            }
            let child = &self.sub_layout[j];
            let child_plan = child.split_regions(regions[child.super_layout_area_index]);
            children.push(child_plan);
            j = j + 1;
        }
        RegionPlan { regions, children }
    }

    /// Has every widget of the tree say what it shows in its region under
    /// `plan`, in the order of the visit, and appends that to `commands`.
    pub fn draw_widgets(&self, plan: &RegionPlan, commands: &mut Vec<DrawCommand>)
        requires
            plan.covers(self@),
            self@.every(is_registered::<W>()),
        ensures
            command_models(final(commands)@) == command_models(old(commands)@) + drawn::<W>(self@, *plan),
            all_quiet(command_models(old(commands)@)) ==> all_quiet(command_models(final(commands)@)),
        decreases self,
    {
        let ghost base = command_models(commands@);
        let ghost here = drawn_here::<W>(self@.widgets, plan.regions@);
        let mut i: usize = 0;
        proof {
            assert(base + here.take(0) =~= base);
        }
        while i < self.widgets.len()
            invariant
                i <= self.widgets@.len(),
                plan.covers(self@),
                self@.every(is_registered::<W>()),
                here == drawn_here::<W>(self@.widgets, plan.regions@),
                command_models(commands@) == base + here.take(i as int),
                base == command_models(old(commands)@),
                all_quiet(base) ==> all_quiet(command_models(commands@)),
            decreases self.widgets.len() - i,
        {
            let widget = &self.widgets[i];
            proof {
                assert(self@.widgets[i as int] == widget@);
                assert(W::registered(self@.widgets[i as int].component));
            }
            let ghost sofar = commands@;
            let area = plan.regions[widget.layout_area_index];
            let drawing = widget.component.render(area);
            let command = DrawCommand { area, drawing };
            commands.push(command);
            proof {
                assert(command_models(commands@) =~= command_models(sofar).push(command@));
                assert(here.take(i + 1) =~= here.take(i as int).push(here[i as int]));
                assert(command_models(commands@) =~= base + here.take(i + 1));
            }
            i = i + 1;
        }
        proof {
            assert(here.take(here.len() as int) =~= here);
            assert(here + drawn_all::<W>(self@.sub_layout, plan.children@, 0) =~= here);
        }
        let mut j: usize = 0;
        while j < self.sub_layout.len()
            invariant
                j <= self.sub_layout@.len(),
                plan.covers(self@),
                self@.every(is_registered::<W>()),
                here == drawn_here::<W>(self@.widgets, plan.regions@),
                command_models(commands@) == base + (here + drawn_all::<W>(
                    self@.sub_layout,
                    plan.children@,
                    j as int,
                )),
                all_quiet(base) ==> all_quiet(command_models(commands@)),
            decreases self.sub_layout.len() - j,
        {
            proof {
                let child = self.sub_layout@[j as int];
                assert(self@.sub_layout[j as int] == child.model());
                assert(self@.sub_layout[j as int].every(is_registered::<W>()));
                assert(plan.children@[j as int].covers(self@.sub_layout[j as int]));
            }
            let ghost sofar = command_models(commands@);
            self.sub_layout[j].draw_widgets(&plan.children[j], commands);
            proof {
                let earlier = here + drawn_all::<W>(self@.sub_layout, plan.children@, j as int);
                let child = drawn::<W>(self@.sub_layout[j as int], plan.children@[j as int]);
                assert(here + drawn_all::<W>(self@.sub_layout, plan.children@, j + 1) =~= earlier + child);
                assert(command_models(commands@) =~= base + (earlier + child));
            }
            j = j + 1;
        }
    }
}

/// One rectangle inside a second one that lies inside a third lies inside
/// the third.
pub proof fn lemma_encloses_chain(outer: Rect, middle: Rect, inner: Rect)
    requires
        outer.encloses(middle),
        middle.encloses(inner),
    ensures
        outer.encloses(inner),
{
}

/// Every region of a frame, at every depth of the tree, lies inside the area
/// that was divided.
pub proof fn lemma_plan_stays_inside<M>(plan: RegionPlan, tree: TreeModel<M>, area: Rect, outer: Rect)
    requires
        plan.divides(tree, area),
        outer.encloses(area),
    ensures
        plan.inside(outer),
    decreases plan,
{
    lemma_division_enclosed(tree.direction, tree.constraints.len(), area, plan.regions@);
    assert forall|i: int| 0 <= i < plan.regions@.len() implies outer.encloses(#[trigger] plan.regions@[i]) by {
        lemma_encloses_chain(outer, area, plan.regions@[i]);
    }
    assert forall|j: int| 0 <= j < plan.children@.len() implies (#[trigger] plan.children@[j]).inside(outer) by {
        let child = tree.sub_layout[j];
        let region = plan.regions@[child.super_layout_area_index as int];
        assert(plan.children@[j].divides(child, region));
        lemma_encloses_chain(outer, area, region);
        lemma_plan_stays_inside(plan.children@[j], child, region, outer);
    }
}

/// Dividing an area that covers no cell gives regions that cover no cell, at
/// every depth of the tree.
pub proof fn lemma_plan_of_empty_area<M>(plan: RegionPlan, tree: TreeModel<M>, area: Rect)
    requires
        plan.divides(tree, area),
        area.spec_is_empty(),
    ensures
        plan.all_empty(),
    decreases plan,
{
    lemma_division_of_empty(tree.direction, tree.constraints.len(), area, plan.regions@);
    assert forall|j: int| 0 <= j < plan.children@.len() implies (#[trigger] plan.children@[j]).all_empty() by {
        let child = tree.sub_layout[j];
        let region = plan.regions@[child.super_layout_area_index as int];
        assert(plan.children@[j].divides(child, region));
        lemma_plan_of_empty_area(plan.children@[j], child, region);
    }
}

/// A frame draws every widget of the tree once.
pub proof fn lemma_frame_draws_every_widget<W: WidgetComponent>(tree: TreeModel<W::V>, plan: RegionPlan)
    requires
        plan.covers(tree),
    ensures
        drawn::<W>(tree, plan).len() == tree.count(),
    decreases tree,
{
    lemma_frame_draws_every_widget_of::<W>(tree.sub_layout, plan.children@, tree.sub_layout.len() as int);
}

/// A frame draws every widget of the first `n` trees once.
pub proof fn lemma_frame_draws_every_widget_of<W: WidgetComponent>(
    trees: Seq<TreeModel<W::V>>,
    plans: Seq<RegionPlan>,
    n: int,
)
    requires
        plans.len() == trees.len(),
        forall|j: int| 0 <= j < plans.len() ==> (#[trigger] plans[j]).covers(trees[j]),
    ensures
        drawn_all::<W>(trees, plans, n).len() == count_all(trees, n),
    decreases trees, n,
{
    if 0 < n <= trees.len() {
        lemma_frame_draws_every_widget_of::<W>(trees, plans, n - 1);
        assert(plans[n - 1].covers(trees[n - 1]));
        lemma_frame_draws_every_widget::<W>(trees[n - 1], plans[n - 1]);
    }
}

} // verus!
