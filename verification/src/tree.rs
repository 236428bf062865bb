//! The layout tree: nodes that divide a rectangle, with widgets and child
//! nodes bound to the regions of the division.

use vstd::prelude::*;
use crate::layout::{Constraint, Direction, Layout};
use crate::event::Event;
use crate::widget::{
    outcome_model, Message, MessageModel, Outcome, OutcomeModel, PathModel, SystemHandle, WidgetComponent,
    WidgetPath,
};

verus! {

/// A component and the region of its node's division that it occupies.
pub struct Widget<W> {
    pub component: W,
    pub layout_area_index: usize,
}

/// A node of the layout tree.
pub struct WidgetLayout<W> {
    /// How the node divides its rectangle.
    pub layout: Layout,
    /// The widgets of the node, each bound to one region.
    pub widgets: Vec<Widget<W>>,
    /// The region of the parent's division that the node occupies.
    pub super_layout_area_index: usize,
    /// The child nodes, each bound to one region.
    pub sub_layout: Vec<WidgetLayout<W>>,
}

/// The mathematical value of a [`Widget`].
pub ghost struct WidgetModel<M> {
    pub component: M,
    pub layout_area_index: usize,
}

/// The mathematical value of a [`WidgetLayout`].
pub ghost struct TreeModel<M> {
    pub direction: Direction,
    pub constraints: Seq<Constraint>,
    pub widgets: Seq<WidgetModel<M>>,
    pub super_layout_area_index: usize,
    pub sub_layout: Seq<TreeModel<M>>,
}

impl<W: WidgetComponent> View for Widget<W> {
    type V = WidgetModel<W::V>;

    open spec fn view(&self) -> WidgetModel<W::V> {
        WidgetModel { component: self.component@, layout_area_index: self.layout_area_index }
    }
}

impl<W: WidgetComponent> WidgetLayout<W> {
    /// The mathematical value of the tree.
    pub open spec fn model(&self) -> TreeModel<W::V>
        decreases self,
    {
        TreeModel {
            direction: self.layout.direction,
            constraints: self.layout.constraints@,
            widgets: Seq::new(self.widgets@.len(), |i: int| self.widgets@[i]@),
            super_layout_area_index: self.super_layout_area_index,
            sub_layout: Seq::new(
                self.sub_layout@.len(),
                |j: int|
                    if 0 <= j < self.sub_layout@.len() {
                        self.sub_layout@[j].model()
                    } else {
                        arbitrary()
                    },
            ),
        }
    }
}

impl<W: WidgetComponent> View for WidgetLayout<W> {
    type V = TreeModel<W::V>;

    open spec fn view(&self) -> TreeModel<W::V> {
        self.model()
    }
}

impl<M> TreeModel<M> {
    /// Every widget and every child node of the tree is bound to a region
    /// that the division of its node produces.
    pub open spec fn well_formed(self) -> bool
        decreases self,
    {
        &&& forall|i: int|
            0 <= i < self.widgets.len() ==> (#[trigger] self.widgets[i]).layout_area_index
                < self.constraints.len()
        &&& forall|j: int|
            0 <= j < self.sub_layout.len() ==> (#[trigger] self.sub_layout[j]).super_layout_area_index
                < self.constraints.len()
        &&& forall|j: int| 0 <= j < self.sub_layout.len() ==> (#[trigger] self.sub_layout[j]).well_formed()
    }

    /// `holds` is true of every widget of the tree.
    pub open spec fn every(self, holds: spec_fn(M) -> bool) -> bool
        decreases self,
    {
        &&& forall|i: int| 0 <= i < self.widgets.len() ==> holds((#[trigger] self.widgets[i]).component)
        &&& forall|j: int| 0 <= j < self.sub_layout.len() ==> (#[trigger] self.sub_layout[j]).every(holds)
    }

    /// The tree with `step` applied to every widget.
    pub open spec fn map(self, step: spec_fn(M) -> M) -> TreeModel<M>
        decreases self,
    {
        TreeModel {
            widgets: Seq::new(
                self.widgets.len(),
                |i: int| WidgetModel { component: step(self.widgets[i].component), ..self.widgets[i] },
            ),
            sub_layout: Seq::new(
                self.sub_layout.len(),
                |j: int|
                    if 0 <= j < self.sub_layout.len() {
                        self.sub_layout[j].map(step)
                    } else {
                        arbitrary()
                    },
            ),
            ..self
        }
    }

    /// The number of widgets in the tree.
    pub open spec fn count(self) -> nat
        decreases self,
    {
        self.widgets.len() + count_all(self.sub_layout, self.sub_layout.len() as int)
    }
}

/// The number of widgets in the first `n` trees of `trees`.
pub open spec fn count_all<M>(trees: Seq<TreeModel<M>>, n: int) -> nat
    decreases trees, n,
{
    if n <= 0 || n > trees.len() {
        0
    } else {
        count_all(trees, n - 1) + trees[n - 1].count()
    }
}

/// The widget has been registered.
pub open spec fn is_registered<W: WidgetComponent>() -> spec_fn(W::V) -> bool {
    |m: W::V| W::registered(m)
}

/// The widget has not been registered.
pub open spec fn is_unregistered<W: WidgetComponent>() -> spec_fn(W::V) -> bool {
    |m: W::V| !W::registered(m)
}

/// The registration of a widget.
pub open spec fn registration<W: WidgetComponent>(system: SystemHandle) -> spec_fn(W::V) -> W::V {
    |m: W::V| W::after_register(m, system)
}

impl<W: WidgetComponent> Default for WidgetLayout<W> {
    /// A node without rules, widgets or child nodes.
    fn default() -> (tree: WidgetLayout<W>)
        ensures
            tree@.constraints.len() == 0,
            tree@.widgets.len() == 0,
            tree@.sub_layout.len() == 0,
            tree@.super_layout_area_index == 0,
            tree@.well_formed(),
    {
        WidgetLayout {
            layout: Layout::new(Direction::Vertical, Vec::new()),
            widgets: Vec::new(),
            super_layout_area_index: 0,
            sub_layout: Vec::new(),
        }
    }
}

impl<W: WidgetComponent> Widget<W> {
    /// Binds `component` to the region `layout_area_index` of its node.
    pub fn new(component: W, layout_area_index: usize) -> (widget: Widget<W>)
        ensures
            widget@ == (WidgetModel { component: component@, layout_area_index }),
    {
        Widget { component, layout_area_index }
    }
}

impl<W: WidgetComponent> WidgetLayout<W> {
    /// Whether every widget and every child node of the tree is bound to a
    /// region that the division of its node produces.
    pub fn is_well_formed(&self) -> (b: bool)
        ensures
            b == self@.well_formed(),
        decreases self,
    {
        let regions = self.layout.len();
        let mut i: usize = 0;
        while i < self.widgets.len()
            invariant
                i <= self.widgets@.len(),
                regions == self@.constraints.len(),
                forall|k: int| 0 <= k < i ==> (#[trigger] self@.widgets[k]).layout_area_index < regions,
            decreases self.widgets.len() - i,
        {
            if self.widgets[i].layout_area_index >= regions {
                assert(self@.widgets[i as int].layout_area_index >= regions);
                return false;
            }
            i = i + 1;
        }
        let mut j: usize = 0;
        while j < self.sub_layout.len()
            invariant
                j <= self.sub_layout@.len(),
                regions == self@.constraints.len(),
                forall|k: int|
                    0 <= k < self@.widgets.len() ==> (#[trigger] self@.widgets[k]).layout_area_index
                        < regions,
                forall|k: int|
                    0 <= k < j ==> (#[trigger] self@.sub_layout[k]).super_layout_area_index < regions,
                forall|k: int| 0 <= k < j ==> (#[trigger] self@.sub_layout[k]).well_formed(),
            decreases self.sub_layout.len() - j,
        {
            proof {
                let child = self.sub_layout@[j as int];
                assert(self@.sub_layout[j as int] == child.model());
                assert(child.model().super_layout_area_index == child.super_layout_area_index);
            }
            if self.sub_layout[j].super_layout_area_index >= regions {
                return false;
            }
            if !self.sub_layout[j].is_well_formed() {
                assert(!self@.sub_layout[j as int].well_formed());
                return false;
            }
            j = j + 1;
        }
        true
    }

    /// Whether no widget of the tree has been registered.
    pub fn is_unregistered(&self) -> (b: bool)
        ensures
            b == self@.every(is_unregistered::<W>()),
        decreases self,
    {
        let mut i: usize = 0;
        while i < self.widgets.len()
            invariant
                i <= self.widgets@.len(),
                forall|k: int| 0 <= k < i ==> !W::registered((#[trigger] self@.widgets[k]).component),
            decreases self.widgets.len() - i,
        {
            if self.widgets[i].component.is_registered() {
                assert(W::registered(self@.widgets[i as int].component));
                return false;
            }
            i = i + 1;
        }
        let mut j: usize = 0;
        while j < self.sub_layout.len()
            invariant
                j <= self.sub_layout@.len(),
                forall|k: int|
                    0 <= k < self@.widgets.len() ==> !W::registered((#[trigger] self@.widgets[k]).component),
                forall|k: int|
                    0 <= k < j ==> (#[trigger] self@.sub_layout[k]).every(is_unregistered::<W>()),
            decreases self.sub_layout.len() - j,
        {
            if !self.sub_layout[j].is_unregistered() {
                assert(!self@.sub_layout[j as int].every(is_unregistered::<W>()));
                return false;
            }
            j = j + 1;
        }
        true
    }

    /// The registration pass: hands `system` to every widget of the tree,
    /// once, the widgets of a node first and then its child nodes, each in
    /// the order of their declaration.
    pub fn register_widgets_system(&mut self, system: SystemHandle)
        requires
            old(self)@.every(is_unregistered::<W>()),
        ensures
            final(self)@ == old(self)@.map(registration::<W>(system)),
            final(self)@.every(is_registered::<W>()),
        decreases *old(self),
    {
        let ghost before = self@;
        let mut i: usize = 0;
        while i < self.widgets.len()
            invariant
                i <= self.widgets@.len(),
                before == old(self)@,
                before.every(is_unregistered::<W>()),
                self.layout == old(self).layout,
                self.super_layout_area_index == old(self).super_layout_area_index,
                self.sub_layout == old(self).sub_layout,
                self.widgets@.len() == old(self).widgets@.len(),
                forall|k: int|
                    0 <= k < i ==> (#[trigger] self.widgets@[k])@ == (WidgetModel {
                        component: W::after_register(before.widgets[k].component, system),
                        ..before.widgets[k]
                    }),
                forall|k: int| 0 <= k < i ==> W::registered((#[trigger] self.widgets@[k]).component@),
                forall|k: int| i <= k < self.widgets@.len() ==> self.widgets@[k] == old(self).widgets@[k],
            decreases self.widgets.len() - i,
        {
            assert(!W::registered(before.widgets[i as int].component));
            self.widgets[i].component.register_system(system);
            i = i + 1;
        }
        let mut j: usize = 0;
        while j < self.sub_layout.len()
            invariant
                j <= self.sub_layout@.len(),
                before == old(self)@,
                before.every(is_unregistered::<W>()),
                self.layout == old(self).layout,
                self.super_layout_area_index == old(self).super_layout_area_index,
                self.sub_layout@.len() == old(self).sub_layout@.len(),
                self.widgets@.len() == old(self).widgets@.len(),
                forall|k: int|
                    0 <= k < self.widgets@.len() ==> (#[trigger] self.widgets@[k])@ == (WidgetModel {
                        component: W::after_register(before.widgets[k].component, system),
                        ..before.widgets[k]
                    }),
                forall|k: int|
                    0 <= k < self.widgets@.len() ==> W::registered((#[trigger] self.widgets@[k]).component@),
                forall|k: int|
                    0 <= k < j ==> (#[trigger] self.sub_layout@[k])@ == before.sub_layout[k].map(
                        registration::<W>(system),
                    ),
                forall|k: int| 0 <= k < j ==> (#[trigger] self.sub_layout@[k])@.every(is_registered::<W>()),
                forall|k: int|
                    j <= k < self.sub_layout@.len() ==> self.sub_layout@[k] == old(self).sub_layout@[k],
            decreases self.sub_layout.len() - j,
        {
            assert(decreases_to!(*old(self) => old(self).sub_layout@[j as int]));
            assert(before.sub_layout[j as int].every(is_unregistered::<W>()));
            self.sub_layout[j].register_widgets_system(system);
            j = j + 1;
        }
        proof {
            let after = before.map(registration::<W>(system));
            assert(self@.widgets =~= after.widgets);
            assert(self@.sub_layout =~= after.sub_layout);
        }
    }
}

/// The components of a list of widgets, in order.
pub open spec fn components<M>(widgets: Seq<WidgetModel<M>>) -> Seq<M> {
    Seq::new(widgets.len(), |i: int| widgets[i].component)
}

impl<M> TreeModel<M> {
    /// The widgets of the tree in the order in which the runtime visits
    /// them: the widgets of a node first, in the order of their declaration,
    /// then those of its child nodes, one child after the other.
    pub open spec fn flat(self) -> Seq<M>
        decreases self,
    {
        components(self.widgets) + flat_all(self.sub_layout, self.sub_layout.len() as int)
    }
}

/// The widgets of the first `n` trees of `trees`, in the order of the visit.
pub open spec fn flat_all<M>(trees: Seq<TreeModel<M>>, n: int) -> Seq<M>
    decreases trees, n,
{
    if n <= 0 || n > trees.len() {
        Seq::empty()
    } else {
        flat_all(trees, n - 1) + trees[n - 1].flat()
    }
}

/// The handling of `event` by a widget.
pub open spec fn handling<W: WidgetComponent>(event: Event) -> spec_fn(W::V) -> W::V {
    |m: W::V| W::after_event(m, event)
}

/// What handling `event` comes to for each of `widgets`.
pub open spec fn results<W: WidgetComponent>(widgets: Seq<W::V>, event: Event) -> Seq<OutcomeModel> {
    Seq::new(widgets.len(), |i: int| W::event_outcome(widgets[i], event))
}

/// The mathematical values of a list of outcomes.
pub open spec fn outcome_models(outcomes: Seq<Outcome>) -> Seq<OutcomeModel> {
    Seq::new(outcomes.len(), |i: int| outcome_model(outcomes[i]))
}

impl<W: WidgetComponent> WidgetLayout<W> {
    /// Hands `event` to every widget of the tree, in the order of the visit,
    /// and appends what each makes of it to `outcomes`.
    pub fn dispatch(&mut self, event: &Event, outcomes: &mut Vec<Outcome>)
        requires
            old(self)@.every(is_registered::<W>()),
        ensures
            final(self)@ == old(self)@.map(handling::<W>(*event)),
            final(self)@.every(is_registered::<W>()),
            outcome_models(final(outcomes)@) == outcome_models(old(outcomes)@) + results::<W>(
                old(self)@.flat(),
                *event,
            ),
        decreases *old(self),
    {
        let ghost before = self@;
        let ghost base = outcome_models(outcomes@);
        let ghost own = components(before.widgets);
        let mut i: usize = 0;
        proof {
            assert(base + results::<W>(own.take(0), *event) =~= base);
        }
        while i < self.widgets.len()
            invariant
                i <= self.widgets@.len(),
                before == old(self)@,
                own == components(before.widgets),
                before.every(is_registered::<W>()),
                self.layout == old(self).layout,
                self.super_layout_area_index == old(self).super_layout_area_index,
                self.sub_layout == old(self).sub_layout,
                self.widgets@.len() == old(self).widgets@.len(),
                forall|k: int|
                    0 <= k < i ==> (#[trigger] self.widgets@[k])@ == (WidgetModel {
                        component: W::after_event(before.widgets[k].component, *event),
                        ..before.widgets[k]
                    }),
                forall|k: int| 0 <= k < i ==> W::registered((#[trigger] self.widgets@[k]).component@),
                forall|k: int| i <= k < self.widgets@.len() ==> self.widgets@[k] == old(self).widgets@[k],
                outcome_models(outcomes@) == base + results::<W>(own.take(i as int), *event),
            decreases self.widgets.len() - i,
        {
            assert(W::registered(before.widgets[i as int].component));
            let ghost sofar = outcomes@;
            let outcome = self.widgets[i].component.event(event);
            outcomes.push(outcome);
            proof {
                assert(outcome_models(outcomes@) =~= outcome_models(sofar).push(outcome_model(outcome)));
                assert(results::<W>(own.take(i + 1), *event) =~= results::<W>(own.take(i as int), *event).push(
                    W::event_outcome(own[i as int], *event),
                ));
                assert(outcome_models(outcomes@) =~= base + results::<W>(own.take(i + 1), *event));
            }
            i = i + 1;
        }
        proof {
            assert(own.take(own.len() as int) =~= own);
            assert(own + flat_all(before.sub_layout, 0) =~= own);
        }
        let mut j: usize = 0;
        while j < self.sub_layout.len()
            invariant
                j <= self.sub_layout@.len(),
                before == old(self)@,
                own == components(before.widgets),
                before.every(is_registered::<W>()),
                self.layout == old(self).layout,
                self.super_layout_area_index == old(self).super_layout_area_index,
                self.sub_layout@.len() == old(self).sub_layout@.len(),
                self.widgets@.len() == old(self).widgets@.len(),
                forall|k: int|
                    0 <= k < self.widgets@.len() ==> (#[trigger] self.widgets@[k])@ == (WidgetModel {
                        component: W::after_event(before.widgets[k].component, *event),
                        ..before.widgets[k]
                    }),
                forall|k: int|
                    0 <= k < self.widgets@.len() ==> W::registered((#[trigger] self.widgets@[k]).component@),
                forall|k: int|
                    0 <= k < j ==> (#[trigger] self.sub_layout@[k])@ == before.sub_layout[k].map(
                        handling::<W>(*event),
                    ),
                forall|k: int| 0 <= k < j ==> (#[trigger] self.sub_layout@[k])@.every(is_registered::<W>()),
                forall|k: int|
                    j <= k < self.sub_layout@.len() ==> self.sub_layout@[k] == old(self).sub_layout@[k],
                outcome_models(outcomes@) == base + results::<W>(
                    own + flat_all(before.sub_layout, j as int),
                    *event,
                ),
            decreases self.sub_layout.len() - j,
        {
            assert(decreases_to!(*old(self) => old(self).sub_layout@[j as int]));
            assert(before.sub_layout[j as int].every(is_registered::<W>()));
            let ghost sofar = outcome_models(outcomes@);
            self.sub_layout[j].dispatch(event, outcomes);
            proof {
                let child = before.sub_layout[j as int].flat();
                let earlier = own + flat_all(before.sub_layout, j as int);
                assert(own + flat_all(before.sub_layout, j + 1) =~= earlier + child);
                assert(results::<W>(earlier + child, *event) =~= results::<W>(earlier, *event) + results::<W>(
                    child,
                    *event,
                ));
                assert(outcome_models(outcomes@) =~= base + results::<W>(earlier + child, *event));
            }
            j = j + 1;
        }
        proof {
            let after = before.map(handling::<W>(*event));
            assert(self@.widgets =~= after.widgets);
            assert(self@.sub_layout =~= after.sub_layout);
        }
    }
}

impl<M> TreeModel<M> {
    /// The widget that stands at place `widget` of the node that is reached
    /// from this one through the child nodes `sub_layouts`.
    pub open spec fn widget_at(self, sub_layouts: Seq<usize>, widget: usize) -> Option<M>
        decreases sub_layouts.len(),
    {
        if sub_layouts.len() == 0 {
            if widget < self.widgets.len() {
                Some(self.widgets[widget as int].component)
            } else {
                None
            }
        } else if sub_layouts[0] < self.sub_layout.len() {
            self.sub_layout[sub_layouts[0] as int].widget_at(sub_layouts.drop_first(), widget)
        } else {
            None
        }
    }

    /// The tree with `step` applied to the widget at that place, where there
    /// is one.
    pub open spec fn update_at(self, sub_layouts: Seq<usize>, widget: usize, step: spec_fn(M) -> M) -> TreeModel<
        M,
    >
        decreases sub_layouts.len(),
    {
        if sub_layouts.len() == 0 {
            if widget < self.widgets.len() {
                let old = self.widgets[widget as int];
                TreeModel {
                    widgets: self.widgets.update(
                        widget as int,
                        WidgetModel { component: step(old.component), ..old },
                    ),
                    ..self
                }
            } else {
                self
            }
        } else if sub_layouts[0] < self.sub_layout.len() {
            let at = sub_layouts[0] as int;
            TreeModel {
                sub_layout: self.sub_layout.update(
                    at,
                    self.sub_layout[at].update_at(sub_layouts.drop_first(), widget, step),
                ),
                ..self
            }
        } else {
            self
        }
    }
}

/// Whether the lookup of a path finds a widget: the path leads to one, and
/// that widget lets itself be reached.
pub open spec fn reachable<W: WidgetComponent>(tree: TreeModel<W::V>, sub_layouts: Seq<usize>, widget: usize) -> bool {
    match tree.widget_at(sub_layouts, widget) {
        Some(found) => W::exposed(found),
        None => false,
    }
}

/// The taking of `message` by a widget that lets itself be reached; any
/// other widget stays as it is.
pub open spec fn taking<W: WidgetComponent>(message: MessageModel) -> spec_fn(W::V) -> W::V {
    |m: W::V|
        if W::exposed(m) {
            W::after_message(m, message)
        } else {
            m
        }
}

/// The tree after `message` was sent to the widget at `path`.
pub open spec fn delivered<W: WidgetComponent>(
    tree: TreeModel<W::V>,
    path: PathModel,
    message: MessageModel,
) -> TreeModel<W::V> {
    tree.update_at(path.sub_layouts, path.widget, taking::<W>(message))
}

impl<W: WidgetComponent> WidgetLayout<W> {
    /// The widget at `path`, counted from the node `depth` steps down the
    /// path, where the path leads to one that lets itself be reached.
    pub fn lookup_from(&self, path: &WidgetPath, depth: usize) -> (r: Option<&W>)
        requires
            depth <= path.sub_layouts@.len(),
        ensures
            r is Some <==> reachable::<W>(self@, path@.sub_layouts.skip(depth as int), path@.widget),
            r matches Some(found) ==> self@.widget_at(path@.sub_layouts.skip(depth as int), path@.widget)
                == Some(found@),
        decreases self,
    {
        let ghost rest = path@.sub_layouts.skip(depth as int);
        if depth == path.sub_layouts.len() {
            if path.widget < self.widgets.len() {
                let found = &self.widgets[path.widget].component;
                if found.public() {
                    Some(found)
                } else {
                    None
                }
            } else {
                None
            }
        } else {
            let at = path.sub_layouts[depth];
            proof {
                assert(rest[0] == at);
                assert(rest.drop_first() =~= path@.sub_layouts.skip(depth + 1));
            }
            if at < self.sub_layout.len() {
                self.sub_layout[at].lookup_from(path, depth + 1)
            } else {
                None
            }
        }
    }

    /// The tree lookup: the widget at `path`, where the path leads to one
    /// that lets itself be reached.
    pub fn lookup(&self, path: &WidgetPath) -> (r: Option<&W>)
        ensures
            r is Some <==> reachable::<W>(self@, path@.sub_layouts, path@.widget),
            r matches Some(found) ==> self@.widget_at(path@.sub_layouts, path@.widget) == Some(found@),
    {
        proof {
            assert(path@.sub_layouts.skip(0) =~= path@.sub_layouts);
        }
        self.lookup_from(path, 0)
    }

    /// Hands `message` to the widget at `path`, counted from the node `depth`
    /// steps down the path, where the lookup finds one.
    pub fn deliver_from(&mut self, path: &WidgetPath, depth: usize, message: &Message) -> (found: bool)
        requires
            depth <= path.sub_layouts@.len(),
            old(self)@.every(is_registered::<W>()),
        ensures
            found == reachable::<W>(old(self)@, path@.sub_layouts.skip(depth as int), path@.widget),
            final(self)@ == old(self)@.update_at(
                path@.sub_layouts.skip(depth as int),
                path@.widget,
                taking::<W>(message@),
            ),
            final(self)@.every(is_registered::<W>()),
        decreases *old(self),
    {
        let ghost before = self@;
        let ghost rest = path@.sub_layouts.skip(depth as int);
        if depth == path.sub_layouts.len() {
            if path.widget < self.widgets.len() {
                assert(W::registered(before.widgets[path.widget as int].component));
                if self.widgets[path.widget].component.public() {
                    self.widgets[path.widget].component.receive(message);
                    proof {
                        let after = before.update_at(rest, path@.widget, taking::<W>(message@));
                        assert(self@.widgets =~= after.widgets);
                        assert(self@.sub_layout =~= after.sub_layout);
                    }
                    true
                } else {
                    proof {
                        let after = before.update_at(rest, path@.widget, taking::<W>(message@));
                        assert(after.widgets =~= before.widgets);
                    }
                    false
                }
            } else {
                false
            }
        } else {
            let at = path.sub_layouts[depth];
            proof {
                assert(rest[0] == at);
                assert(rest.drop_first() =~= path@.sub_layouts.skip(depth + 1));
            }
            if at < self.sub_layout.len() {
                assert(decreases_to!(*old(self) => old(self).sub_layout@[at as int]));
                assert(before.sub_layout[at as int].every(is_registered::<W>()));
                let found = self.sub_layout[at].deliver_from(path, depth + 1, message);
                proof {
                    let after = before.update_at(rest, path@.widget, taking::<W>(message@));
                    assert(self@.widgets =~= after.widgets);
                    assert(self@.sub_layout =~= after.sub_layout);
                }
                found
            } else {
                false
            }
        }
    }

    /// Hands `message` to the widget at `path`, where the lookup finds one,
    /// and says whether it did.
    pub fn deliver(&mut self, path: &WidgetPath, message: &Message) -> (found: bool)
        requires
            old(self)@.every(is_registered::<W>()),
        ensures
            found == reachable::<W>(old(self)@, path@.sub_layouts, path@.widget),
            final(self)@ == delivered::<W>(old(self)@, path@, message@),
            final(self)@.every(is_registered::<W>()),
    {
        proof {
            assert(path@.sub_layouts.skip(0) =~= path@.sub_layouts);
        }
        self.deliver_from(path, 0, message)
    }
}

/// Applying a step to every widget leaves the bindings of the tree as they
/// are: the tree stays well formed, or stays ill formed.
pub proof fn lemma_map_keeps_bindings<M>(tree: TreeModel<M>, step: spec_fn(M) -> M)
    ensures
        tree.map(step).well_formed() == tree.well_formed(),
        tree.map(step).constraints == tree.constraints,
        tree.map(step).direction == tree.direction,
        tree.map(step).super_layout_area_index == tree.super_layout_area_index,
        tree.map(step).widgets.len() == tree.widgets.len(),
        tree.map(step).sub_layout.len() == tree.sub_layout.len(),
    decreases tree,
{
    let mapped = tree.map(step);
    assert forall|j: int| 0 <= j < tree.sub_layout.len() implies (#[trigger] mapped.sub_layout[j]).well_formed()
        == tree.sub_layout[j].well_formed() && mapped.sub_layout[j].super_layout_area_index
        == tree.sub_layout[j].super_layout_area_index by {
        lemma_map_keeps_bindings(tree.sub_layout[j], step);
    }
    assert forall|i: int| 0 <= i < tree.widgets.len() implies (#[trigger] mapped.widgets[i]).layout_area_index
        == tree.widgets[i].layout_area_index by {}
    if tree.well_formed() {
        assert forall|i: int| 0 <= i < mapped.widgets.len() implies (#[trigger] mapped.widgets[i]).layout_area_index
            < mapped.constraints.len() by {
            assert(tree.widgets[i].layout_area_index < tree.constraints.len());
        }
        assert forall|j: int| 0 <= j < mapped.sub_layout.len() implies (#[trigger] mapped.sub_layout[j]).well_formed()
            && mapped.sub_layout[j].super_layout_area_index < mapped.constraints.len() by {
            assert(tree.sub_layout[j].well_formed());
            assert(tree.sub_layout[j].super_layout_area_index < tree.constraints.len());
        }
    }
    if mapped.well_formed() {
        assert forall|i: int| 0 <= i < tree.widgets.len() implies (#[trigger] tree.widgets[i]).layout_area_index
            < tree.constraints.len() by {
            assert(mapped.widgets[i].layout_area_index < mapped.constraints.len());
        }
        assert forall|j: int| 0 <= j < tree.sub_layout.len() implies (#[trigger] tree.sub_layout[j]).well_formed()
            && tree.sub_layout[j].super_layout_area_index < tree.constraints.len() by {
            assert(mapped.sub_layout[j].well_formed());
            assert(mapped.sub_layout[j].super_layout_area_index < mapped.constraints.len());
        }
    }
}

/// Applying a step to one widget leaves the bindings of a well-formed tree
/// well formed.
pub proof fn lemma_update_keeps_bindings<M>(
    tree: TreeModel<M>,
    sub_layouts: Seq<usize>,
    widget: usize,
    step: spec_fn(M) -> M,
)
    requires
        tree.well_formed(),
    ensures
        tree.update_at(sub_layouts, widget, step).well_formed(),
        tree.update_at(sub_layouts, widget, step).super_layout_area_index == tree.super_layout_area_index,
        tree.update_at(sub_layouts, widget, step).constraints == tree.constraints,
    decreases sub_layouts.len(),
{
    let updated = tree.update_at(sub_layouts, widget, step);
    if sub_layouts.len() == 0 {
        if widget < tree.widgets.len() {
            assert forall|i: int| 0 <= i < updated.widgets.len() implies (#[trigger] updated.widgets[i]).layout_area_index
                < updated.constraints.len() by {
                assert(tree.widgets[i].layout_area_index < tree.constraints.len());
            }
            assert forall|j: int| 0 <= j < updated.sub_layout.len() implies (#[trigger] updated.sub_layout[j]).well_formed()
                && updated.sub_layout[j].super_layout_area_index < updated.constraints.len() by {
                assert(tree.sub_layout[j].well_formed());
                assert(tree.sub_layout[j].super_layout_area_index < tree.constraints.len());
            }
        }
    } else if sub_layouts[0] < tree.sub_layout.len() {
        let at = sub_layouts[0] as int;
        lemma_update_keeps_bindings(tree.sub_layout[at], sub_layouts.drop_first(), widget, step);
        assert forall|i: int| 0 <= i < updated.widgets.len() implies (#[trigger] updated.widgets[i]).layout_area_index
            < updated.constraints.len() by {
            assert(tree.widgets[i].layout_area_index < tree.constraints.len());
        }
        assert forall|j: int| 0 <= j < updated.sub_layout.len() implies (#[trigger] updated.sub_layout[j]).well_formed()
            && updated.sub_layout[j].super_layout_area_index < updated.constraints.len() by {
            assert(tree.sub_layout[j].well_formed());
            assert(tree.sub_layout[j].super_layout_area_index < tree.constraints.len());
        }
    }
}

/// The visit passes every widget of a tree once.
pub proof fn lemma_visit_passes_every_widget<M>(tree: TreeModel<M>)
    ensures
        tree.flat().len() == tree.count(),
    decreases tree,
{
    lemma_visit_passes_every_widget_of(tree.sub_layout, tree.sub_layout.len() as int);
}

/// The visit passes every widget of the first `n` trees once.
pub proof fn lemma_visit_passes_every_widget_of<M>(trees: Seq<TreeModel<M>>, n: int)
    ensures
        flat_all(trees, n).len() == count_all(trees, n),
    decreases trees, n,
{
    if 0 < n <= trees.len() {
        lemma_visit_passes_every_widget_of(trees, n - 1);
        lemma_visit_passes_every_widget(trees[n - 1]);
    }
}

} // verus!
