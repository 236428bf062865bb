//! The runtime: it owns the layout tree and the running flag, registers the
//! widgets once, and computes one frame at a time.

use vstd::prelude::*;
use crate::event::Event;
use crate::layout::Rect;
use crate::plan::{all_quiet, command_models, drawn, DrawCommand, RegionPlan};
use crate::tree::{
    delivered, handling, is_registered, is_unregistered, lemma_map_keeps_bindings,
    lemma_update_keeps_bindings, outcome_models, reachable, registration, results, taking, TreeModel,
    WidgetLayout,
};
use crate::widget::{
    Message, MessageModel, Outcome, OutcomeModel, PathModel, Request, RequestModel, SystemHandle,
    WidgetComponent, WidgetError, WidgetPath,
};

verus! {

/// Where the runtime stands in its life.
#[derive(Clone, Copy, Debug, PartialEq, Eq, Structural)]
pub enum Phase {
    /// The tree is built; the widgets are not registered yet.
    Constructing,
    /// The widgets are registered and the running flag is set.
    Running,
    /// The widgets are registered and the running flag is cleared.
    Stopped,
}

/// Why a runtime could not be made.
#[derive(Clone, Copy, Debug, PartialEq, Eq, Structural)]
pub enum SystemError {
    /// There is not exactly one layout tree.
    NotOneTree,
    /// A widget or a child node is bound to a region that the division of
    /// its node does not produce.
    RegionOutOfRange,
    /// A widget of the tree has been registered before.
    AlreadyRegistered,
}

/// Why a frame could not be computed.
#[derive(Debug)]
pub enum FrameError {
    /// The runtime is not running.
    NotRunning,
    /// A widget failed to handle the event.
    Widget(WidgetError),
}

/// What the host has to do for a widget after a frame: list the files of
/// `directory` and hand their names to the widget at `reply_to`.
#[derive(Debug)]
pub struct HostRequest {
    pub directory: String,
    pub reply_to: WidgetPath,
}

/// The mathematical value of a [`HostRequest`].
pub ghost struct HostModel {
    pub directory: Seq<char>,
    pub reply_to: PathModel,
}

impl View for HostRequest {
    type V = HostModel;

    open spec fn view(&self) -> HostModel {
        HostModel { directory: self.directory@, reply_to: self.reply_to@ }
    }
}

/// The mathematical values of a list of host requests.
pub open spec fn host_models(requests: Seq<HostRequest>) -> Seq<HostModel> {
    Seq::new(requests.len(), |i: int| requests[i]@)
}

/// One frame: the division of the terminal area, what every widget draws, and
/// what is left for the host to do.
#[derive(Debug)]
pub struct FrameOutput {
    pub plan: RegionPlan,
    pub commands: Vec<DrawCommand>,
    pub host: Vec<HostRequest>,
}

/// What the top-level components of a runtime are made of.
pub struct SystemInfo<W> {
    pub components: Vec<WidgetLayout<W>>,
}

impl<W> Default for SystemInfo<W> {
    /// No component.
    fn default() -> (info: SystemInfo<W>)
        ensures
            info.components@.len() == 0,
    {
        SystemInfo { components: Vec::new() }
    }
}

/// A top-level component of the runtime.
pub trait SystemComponent<W: WidgetComponent> {
    /// The layout tree that the component is, if it is one.
    fn as_widget_layout(&self) -> (r: Option<&WidgetLayout<W>>)
        ensures
            r matches Some(tree) ==> tree@ == self.tree(),
            r is Some == self.is_tree(),
    ;

    /// Whether the component is a layout tree.
    spec fn is_tree(&self) -> bool;

    /// The layout tree that the component is.
    spec fn tree(&self) -> TreeModel<W::V>;
}

impl<W: WidgetComponent> SystemComponent<W> for WidgetLayout<W> {
    open spec fn is_tree(&self) -> bool {
        true
    }

    open spec fn tree(&self) -> TreeModel<W::V> {
        self@
    }

    fn as_widget_layout(&self) -> (r: Option<&WidgetLayout<W>>) {
        Some(self)
    }
}

/// The runtime.
pub struct System<W> {
    is_run: bool,
    started: bool,
    root: WidgetLayout<W>,
}

/// The tree, the running flag and the requests to the host while the
/// requests of one frame are carried out.
pub ghost struct Progress<M> {
    pub tree: TreeModel<M>,
    pub running: bool,
    pub host: Seq<HostModel>,
}

/// The first failure among the first `n` outcomes.
pub open spec fn first_error(outcomes: Seq<OutcomeModel>, n: int) -> Option<Seq<char>>
    decreases n,
{
    if n <= 0 || n > outcomes.len() {
        None
    } else {
        match first_error(outcomes, n - 1) {
            Some(e) => Some(e),
            None => match outcomes[n - 1] {
                Err(e) => Some(e),
                Ok(_) => None,
            },
        }
    }
}

/// Carrying out one outcome: a request to quit clears the running flag, a
/// message goes to its target, a request to the host is put down for it.
pub open spec fn carry_out<W: WidgetComponent>(progress: Progress<W::V>, outcome: OutcomeModel) -> Progress<W::V> {
    match outcome {
        Ok(Some(RequestModel::Quit)) => Progress { running: false, ..progress },
        Ok(Some(RequestModel::Send { target, message })) => Progress {
            tree: delivered::<W>(progress.tree, target, message),
            ..progress
        },
        Ok(Some(RequestModel::ListFiles { directory, reply_to })) => Progress {
            host: progress.host.push(HostModel { directory, reply_to }),
            ..progress
        },
        _ => progress,
    }
}

/// Carrying out the first `n` outcomes, in order.
pub open spec fn carry_out_all<W: WidgetComponent>(
    progress: Progress<W::V>,
    outcomes: Seq<OutcomeModel>,
    n: int,
) -> Progress<W::V>
    decreases n,
{
    if n <= 0 || n > outcomes.len() {
        progress
    } else {
        carry_out::<W>(carry_out_all::<W>(progress, outcomes, n - 1), outcomes[n - 1])
    }
}

/// The tree after every widget has handled the event of the frame, if there
/// was one.
pub open spec fn handled<W: WidgetComponent>(tree: TreeModel<W::V>, event: Option<Event>) -> TreeModel<W::V> {
    match event {
        Some(e) => tree.map(handling::<W>(e)),
        None => tree,
    }
}

/// What the widgets made of the event of the frame, in the order of the
/// visit.
pub open spec fn frame_outcomes<W: WidgetComponent>(tree: TreeModel<W::V>, event: Option<Event>) -> Seq<
    OutcomeModel,
> {
    match event {
        Some(e) => results::<W>(tree.flat(), e),
        None => Seq::empty(),
    }
}

/// The tree, the running flag and the requests to the host at the end of a
/// frame in which no widget failed.
pub open spec fn after_frame<W: WidgetComponent>(tree: TreeModel<W::V>, event: Option<Event>) -> Progress<W::V> {
    let outcomes = frame_outcomes::<W>(tree, event);
    carry_out_all::<W>(
        Progress { tree: handled::<W>(tree, event), running: true, host: Seq::empty() },
        outcomes,
        outcomes.len() as int,
    )
}

/// Once a failure is found among the first outcomes, it stays the first one
/// however many more are looked at.
pub proof fn lemma_first_error_stays(outcomes: Seq<OutcomeModel>, n: int, m: int)
    requires
        0 <= n <= m <= outcomes.len(),
        first_error(outcomes, n) is Some,
    ensures
        first_error(outcomes, m) == first_error(outcomes, n),
    decreases m - n,
{
    if n < m {
        lemma_first_error_stays(outcomes, n, m - 1);
    }
}

/// Whether handling the event failed.
fn has_failed(outcome: &Outcome) -> (b: bool)
    ensures
        b == (crate::widget::outcome_model(*outcome) is Err),
{
    match outcome {
        Err(_) => true,
        Ok(_) => false,
    }
}

impl<W: WidgetComponent> System<W> {
    /// The layout tree of the runtime.
    pub closed spec fn root(&self) -> TreeModel<W::V> {
        self.root@
    }

    /// The running flag.
    pub closed spec fn running_flag(&self) -> bool {
        self.is_run
    }

    /// Whether the registration pass has been made.
    pub closed spec fn is_started(&self) -> bool {
        self.started
    }

    /// Where the runtime stands in its life.
    pub open spec fn spec_phase(&self) -> Phase {
        if !self.is_started() {
            Phase::Constructing
        } else if self.running_flag() {
            Phase::Running
        } else {
            Phase::Stopped
        }
    }

    /// The runtime is sound: its tree is well formed, and its widgets are
    /// registered if and only if the registration pass has been made.
    pub open spec fn wf(&self) -> bool {
        &&& self.root().well_formed()
        &&& self.is_started() ==> self.root().every(is_registered::<W>())
        &&& !self.is_started() ==> self.root().every(is_unregistered::<W>())
    }

    /// Makes a runtime of one layout tree. A tree in which a widget or a
    /// child node is bound to a region that its node does not produce is
    /// refused, and so is a tree with a widget that was registered before.
    pub fn nwe(info: SystemInfo<W>) -> (r: Result<System<W>, SystemError>)
        ensures
            match r {
                Ok(system) => {
                    &&& info.components@.len() == 1
                    &&& system.root() == info.components@[0]@
                    &&& system.wf()
                    &&& system.running_flag()
                    &&& system.spec_phase() == Phase::Constructing
                },
                Err(SystemError::NotOneTree) => info.components@.len() != 1,
                Err(SystemError::RegionOutOfRange) => info.components@.len() == 1
                    && !info.components@[0]@.well_formed(),
                Err(SystemError::AlreadyRegistered) => info.components@.len() == 1
                    && info.components@[0]@.well_formed() && !info.components@[0]@.every(
                    is_unregistered::<W>(),
                ),
            },
    {
        let mut components = info.components;
        if components.len() != 1 {
            return Err(SystemError::NotOneTree);
        }
        match components.pop() {
            Some(root) => {
                if !root.is_well_formed() {
                    return Err(SystemError::RegionOutOfRange);
                }
                if !root.is_unregistered() {
                    return Err(SystemError::AlreadyRegistered);
                }
                Ok(System { is_run: true, started: false, root })
            },
            None => Err(SystemError::NotOneTree),
        }
    }

    /// Where the runtime stands in its life.
    pub fn phase(&self) -> (phase: Phase)
        ensures
            phase == self.spec_phase(),
    {
        if !self.started {
            Phase::Constructing
        } else if self.is_run {
            Phase::Running
        } else {
            Phase::Stopped
        }
    }

    /// The running flag.
    pub fn is_run(&self) -> (b: bool)
        ensures
            b == self.running_flag(),
    {
        self.is_run
    }

    /// Clears the running flag.
    pub fn quit(&mut self)
        ensures
            !final(self).running_flag(),
            final(self).root() == old(self).root(),
            final(self).is_started() == old(self).is_started(),
    {
        self.is_run = false;
    }

    /// The first top-level component that is a layout tree.
    pub fn query_widget_layout(&self) -> (r: Option<&WidgetLayout<W>>)
        ensures
            (r matches Some(tree) && tree@ == self.root()),
    {
        self.root.as_widget_layout()
    }

    /// The registration pass: hands every widget of the tree the handle of
    /// the runtime, once. It is made once; a second call changes nothing and
    /// says so.
    pub fn start(&mut self) -> (made: bool)
        requires
            old(self).wf(),
        ensures
            final(self).wf(),
            final(self).is_started(),
            final(self).running_flag() == old(self).running_flag(),
            made == !old(self).is_started(),
            made ==> final(self).root() == old(self).root().map(registration::<W>(SystemHandle { serial: 1 })),
            !made ==> final(self).root() == old(self).root(),
    {
        if self.started {
            return false;
        }
        let system = SystemHandle { serial: 1 };
        proof {
            lemma_map_keeps_bindings(self.root@, registration::<W>(system));
        }
        self.root.register_widgets_system(system);
        self.started = true;
        true
    }

    /// The tree lookup: the widget at `path`, where the path leads to one
    /// that lets itself be reached.
    pub fn lookup(&self, path: &WidgetPath) -> (r: Option<&W>)
        ensures
            r is Some <==> reachable::<W>(self.root(), path@.sub_layouts, path@.widget),
            r matches Some(found) ==> self.root().widget_at(path@.sub_layouts, path@.widget) == Some(found@),
    {
        self.root.lookup(path)
    }

    /// Hands `message` to the widget at `path`, where the registration pass
    /// has been made and the lookup finds the widget, and says whether it
    /// did.
    pub fn send(&mut self, path: &WidgetPath, message: &Message) -> (found: bool)
        requires
            old(self).wf(),
        ensures
            final(self).wf(),
            final(self).is_started() == old(self).is_started(),
            final(self).running_flag() == old(self).running_flag(),
            found == (old(self).is_started() && reachable::<W>(
                old(self).root(),
                path@.sub_layouts,
                path@.widget,
            )),
            old(self).is_started() ==> final(self).root() == delivered::<W>(
                old(self).root(),
                path@,
                message@,
            ),
            !old(self).is_started() ==> final(self).root() == old(self).root(),
    {
        if !self.started {
            return false;
        }
        proof {
            lemma_update_keeps_bindings(
                self.root@,
                path@.sub_layouts,
                path@.widget,
                taking::<W>(message@),
            );
        }
        self.root.deliver(path, message)
    }

    /// Computes one frame.
    ///
    /// Where the runtime is running, every widget handles the event, if there
    /// is one, in the order of the visit. Where a widget fails, the running
    /// flag is cleared and the first failure is returned. Else the requests
    /// of the widgets are carried out in order, the area is divided, and
    /// every widget says what it shows in its region. A runtime that is not
    /// running is left as it is.
    pub fn frame(&mut self, event: Option<Event>, area: Rect) -> (r: Result<FrameOutput, FrameError>)
        requires
            old(self).wf(),
        ensures
            final(self).wf(),
            final(self).is_started() == old(self).is_started(),
            old(self).spec_phase() != Phase::Running ==> (r matches Err(FrameError::NotRunning))
                && final(self).root() == old(self).root() && final(self).running_flag() == old(
                self,
            ).running_flag(),
            old(self).spec_phase() == Phase::Running ==> match first_error(
                frame_outcomes::<W>(old(self).root(), event),
                frame_outcomes::<W>(old(self).root(), event).len() as int,
            ) {
                Some(reason) => {
                    &&& (r matches Err(FrameError::Widget(e)) && e@ == reason)
                    &&& final(self).root() == handled::<W>(old(self).root(), event)
                    &&& !final(self).running_flag()
                },
                None => {
                    let end = after_frame::<W>(old(self).root(), event);
                    &&& (r matches Ok(out) && {
                        &&& host_models(out.host@) == end.host
                        &&& out.plan.divides(end.tree, area)
                        &&& out.plan.covers(end.tree)
                        &&& command_models(out.commands@) == drawn::<W>(end.tree, out.plan)
                        &&& all_quiet(command_models(out.commands@))
                    })
                    &&& final(self).root() == end.tree
                    &&& final(self).running_flag() == end.running
                },
            },
    {
        if !(self.started && self.is_run) {
            return Err(FrameError::NotRunning);
        }
        let ghost before = self.root@;
        let mut outcomes: Vec<Outcome> = Vec::new();
        match event {
            Some(e) => {
                proof {
                    lemma_map_keeps_bindings(before, handling::<W>(e));
                }
                self.root.dispatch(&e, &mut outcomes);
                proof {
                    assert(outcome_models(outcomes@) =~= results::<W>(before.flat(), e));
                }
            },
            None => {
                proof {
                    assert(outcome_models(outcomes@) =~= Seq::<OutcomeModel>::empty());
                }
            },
        }
        let ghost models = outcome_models(outcomes@);
        let mut k: usize = 0;
        while k < outcomes.len() && !has_failed(&outcomes[k])
            invariant
                k <= outcomes@.len(),
                models == outcome_models(outcomes@),
                first_error(models, k as int) is None,
            decreases outcomes.len() - k,
        {
            k = k + 1;
        }
        if k < outcomes.len() {
            proof {
                assert(models[k as int] == crate::widget::outcome_model(outcomes@[k as int]));
                assert(first_error(models, k + 1) is Some);
                lemma_first_error_stays(models, k + 1, models.len() as int);
            }
            let outcome = outcomes.remove(k);
            self.is_run = false;
            return match outcome {
                Err(e) => Err(FrameError::Widget(e)),
                Ok(_) => vstd::pervasive::unreached(),
            };
        }
        let ghost start = Progress::<W::V> { tree: self.root@, running: true, host: Seq::empty() };
        let mut host: Vec<HostRequest> = Vec::new();
        let mut i: usize = 0;
        proof {
            assert(host_models(host@) =~= start.host);
        }
        while i < outcomes.len()
            invariant
                i <= outcomes@.len(),
                models == outcome_models(outcomes@),
                self.started,
                old(self).started,
                self.root@.well_formed(),
                self.root@.every(is_registered::<W>()),
                self.root@ == carry_out_all::<W>(start, models, i as int).tree,
                self.is_run == carry_out_all::<W>(start, models, i as int).running,
                host_models(host@) == carry_out_all::<W>(start, models, i as int).host,
            decreases outcomes.len() - i,
        {
            let ghost sofar = carry_out_all::<W>(start, models, i as int);
            assert(models[i as int] == crate::widget::outcome_model(outcomes@[i as int]));
            match &outcomes[i] {
                Ok(Some(Request::Quit)) => {
                    self.is_run = false;
                },
                Ok(Some(Request::Send { target, message })) => {
                    proof {
                        lemma_update_keeps_bindings(
                            self.root@,
                            target@.sub_layouts,
                            target@.widget,
                            taking::<W>(message@),
                        );
                    }
                    self.root.deliver(target, message);
                },
                Ok(Some(Request::ListFiles { directory, reply_to })) => {
                    let ghost earlier = host@;
                    let request = HostRequest { directory: directory.clone(), reply_to: reply_to.duplicate() };
                    host.push(request);
                    proof {
                        assert(host_models(host@) =~= host_models(earlier).push(request@));
                    }
                },
                _ => {},
            }
            i = i + 1;
        }
        let plan = self.root.split_regions(area);
        let mut commands: Vec<DrawCommand> = Vec::new();
        self.root.draw_widgets(&plan, &mut commands);
        proof {
            assert(command_models(commands@) =~= drawn::<W>(self.root@, plan));
        }
        Ok(FrameOutput { plan, commands, host })
    }
}

} // verus!
