//! The capability interface of widgets, and the values that widgets and the
//! runtime exchange: paths, messages, requests and drawings.

use vstd::prelude::*;
use crate::event::Event;
use crate::layout::Rect;

verus! {

/// Text attributes, one bit each, laid out as the terminal library has them.
#[derive(Clone, Copy, Debug, PartialEq, Eq, Structural)]
pub struct Modifier {
    pub bits: u16,
}

/// The bit of the attribute that swaps foreground and background.
pub const REVERSED_BIT: u16 = 0x0040;

impl Modifier {
    /// No attribute.
    pub fn empty() -> (m: Modifier)
        ensures
            m.bits == 0,
    {
        Modifier { bits: 0 }
    }

    /// The attribute that swaps foreground and background.
    pub fn reversed() -> (m: Modifier)
        ensures
            m.bits == REVERSED_BIT,
    {
        Modifier { bits: REVERSED_BIT }
    }

    pub open spec fn spec_insert(self, other: Modifier) -> Modifier {
        Modifier { bits: self.bits | other.bits }
    }

    pub open spec fn spec_remove(self, other: Modifier) -> Modifier {
        Modifier { bits: self.bits & !other.bits }
    }

    pub open spec fn spec_contains(self, other: Modifier) -> bool {
        self.bits & other.bits == other.bits
    }

    /// `self` with the attributes of `other` set.
    #[verifier::when_used_as_spec(spec_insert)]
    pub fn insert(self, other: Modifier) -> (m: Modifier)
        ensures
            m == self.spec_insert(other),
    {
        Modifier { bits: self.bits | other.bits }
    }

    /// `self` with the attributes of `other` cleared.
    #[verifier::when_used_as_spec(spec_remove)]
    pub fn remove(self, other: Modifier) -> (m: Modifier)
        ensures
            m == self.spec_remove(other),
    {
        Modifier { bits: self.bits & !other.bits }
    }

    /// Whether every attribute of `other` is set in `self`.
    #[verifier::when_used_as_spec(spec_contains)]
    pub fn contains(self, other: Modifier) -> (b: bool)
        ensures
            b == self.spec_contains(other),
    {
        self.bits & other.bits == other.bits
    }
}

/// The address of a widget in a layout tree: the child layouts to descend
/// through, from the root, and then the widget's place in the last one.
#[derive(Debug)]
pub struct WidgetPath {
    pub sub_layouts: Vec<usize>,
    pub widget: usize,
}

/// The mathematical value of a [`WidgetPath`].
pub ghost struct PathModel {
    pub sub_layouts: Seq<usize>,
    pub widget: usize,
}

impl View for WidgetPath {
    type V = PathModel;

    open spec fn view(&self) -> PathModel {
        PathModel { sub_layouts: self.sub_layouts@, widget: self.widget }
    }
}

impl WidgetPath {
    pub fn new(sub_layouts: Vec<usize>, widget: usize) -> (path: WidgetPath)
        ensures
            path@ == (PathModel { sub_layouts: sub_layouts@, widget }),
    {
        WidgetPath { sub_layouts, widget }
    }

    /// A copy of the path.
    pub fn duplicate(&self) -> (path: WidgetPath)
        ensures
            path@ == self@,
    {
        let mut sub_layouts: Vec<usize> = Vec::new();
        let mut i: usize = 0;
        while i < self.sub_layouts.len()
            invariant
                i <= self.sub_layouts@.len(),
                sub_layouts@ == self.sub_layouts@.take(i as int),
            decreases self.sub_layouts.len() - i,
        {
            sub_layouts.push(self.sub_layouts[i]);
            proof {
                assert(self.sub_layouts@.take(i + 1) =~= self.sub_layouts@.take(i as int).push(
                    self.sub_layouts@[i as int],
                ));
            }
            i = i + 1;
        }
        proof {
            assert(self.sub_layouts@.take(self.sub_layouts@.len() as int) =~= self.sub_layouts@);
        }
        WidgetPath { sub_layouts, widget: self.widget }
    }
}

/// The texts of a list of strings.
pub open spec fn texts(items: Seq<String>) -> Seq<Seq<char>> {
    Seq::new(items.len(), |i: int| items[i]@)
}

/// What one widget may tell another through the runtime.
#[derive(Debug)]
pub enum Message {
    /// Take the input focus.
    Focus,
    /// The names of the files that the host found.
    Files(Vec<String>),
}

/// The mathematical value of a [`Message`].
pub ghost enum MessageModel {
    Focus,
    Files(Seq<Seq<char>>),
}

impl View for Message {
    type V = MessageModel;

    open spec fn view(&self) -> MessageModel {
        match self {
            Message::Focus => MessageModel::Focus,
            Message::Files(names) => MessageModel::Files(texts(names@)),
        }
    }
}

/// What a widget may ask of the runtime while it handles an event.
#[derive(Debug)]
pub enum Request {
    /// Stop the run loop.
    Quit,
    /// Hand `message` to the widget at `target`.
    Send { target: WidgetPath, message: Message },
    /// Have the host list the files of `directory` and hand their names to
    /// the widget at `reply_to`.
    ListFiles { directory: String, reply_to: WidgetPath },
}

/// The mathematical value of a [`Request`].
pub ghost enum RequestModel {
    Quit,
    Send { target: PathModel, message: MessageModel },
    ListFiles { directory: Seq<char>, reply_to: PathModel },
}

impl View for Request {
    type V = RequestModel;

    open spec fn view(&self) -> RequestModel {
        match self {
            Request::Quit => RequestModel::Quit,
            Request::Send { target, message } => RequestModel::Send { target: target@, message: message@ },
            Request::ListFiles { directory, reply_to } => RequestModel::ListFiles {
                directory: directory@,
                reply_to: reply_to@,
            },
        }
    }
}

/// Why a widget could not handle an event.
#[derive(Debug)]
pub struct WidgetError {
    pub reason: String,
}

impl View for WidgetError {
    type V = Seq<char>;

    open spec fn view(&self) -> Seq<char> {
        self.reason@
    }
}

/// What handling an event comes to: a request to the runtime or none, or the
/// reason of a failure.
pub type Outcome = Result<Option<Request>, WidgetError>;

/// The mathematical value of an [`Outcome`].
pub type OutcomeModel = Result<Option<RequestModel>, Seq<char>>;

/// The mathematical value of the outcome `r`.
pub open spec fn outcome_model(r: Outcome) -> OutcomeModel {
    match r {
        Ok(Some(request)) => Ok(Some(request@)),
        Ok(None) => Ok(None),
        Err(e) => Err(e@),
    }
}

/// What a widget shows in its rectangle.
#[derive(Debug)]
pub enum Drawing {
    /// Nothing.
    Blank,
    /// A centred line of text in a border.
    Paragraph { text: String },
    /// A list in a border with a title, one item of it marked.
    List { title: String, title_style: Modifier, items: Vec<String>, selected: Option<usize> },
}

/// The mathematical value of a [`Drawing`].
pub ghost enum DrawingModel {
    Blank,
    Paragraph { text: Seq<char> },
    List { title: Seq<char>, title_style: Modifier, items: Seq<Seq<char>>, selected: Option<usize> },
}

impl View for Drawing {
    type V = DrawingModel;

    open spec fn view(&self) -> DrawingModel {
        match self {
            Drawing::Blank => DrawingModel::Blank,
            Drawing::Paragraph { text } => DrawingModel::Paragraph { text: text@ },
            Drawing::List { title, title_style, items, selected } => DrawingModel::List {
                title: title@,
                title_style: *title_style,
                items: texts(items@),
                selected: *selected,
            },
        }
    }
}

/// What the runtime hands to each widget in the registration pass.
#[derive(Clone, Copy, Debug, PartialEq, Eq, Structural)]
pub struct SystemHandle {
    pub serial: u64,
}

/// What every widget can do: be registered with the runtime, handle an input
/// event, take a message from another widget, and say what it shows.
///
/// The behaviour of a widget is a function of its mathematical value: each
/// operation has a counterpart over `Self::V` that says what it does.
pub trait WidgetComponent: View + Sized {
    /// The widget has been registered with a runtime.
    spec fn registered(model: Self::V) -> bool;

    /// The widget may be reached, and changed, through the tree lookup.
    spec fn exposed(model: Self::V) -> bool;

    /// The widget after its registration.
    spec fn after_register(model: Self::V, system: SystemHandle) -> Self::V;

    /// The widget after it has handled `event`.
    spec fn after_event(model: Self::V, event: Event) -> Self::V;

    /// What handling `event` comes to.
    spec fn event_outcome(model: Self::V, event: Event) -> OutcomeModel;

    /// The widget after it has taken `message`.
    spec fn after_message(model: Self::V, message: MessageModel) -> Self::V;

    /// What the widget shows in `area`.
    spec fn drawing(model: Self::V, area: Rect) -> DrawingModel;

    /// Whether the widget has been registered with a runtime.
    fn is_registered(&self) -> (b: bool)
        ensures
            b == Self::registered(self@),
    ;

    /// Whether the widget may be reached through the tree lookup.
    fn public(&self) -> (b: bool)
        ensures
            b == Self::exposed(self@),
    ;

    /// Takes the handle of the runtime. Called once, before any event.
    fn register_system(&mut self, system: SystemHandle)
        requires
            !Self::registered(old(self)@),
        ensures
            final(self)@ == Self::after_register(old(self)@, system),
            Self::registered(final(self)@),
            Self::exposed(final(self)@) == Self::exposed(old(self)@),
    ;

    /// Handles one input event.
    fn event(&mut self, event: &Event) -> (r: Outcome)
        requires
            Self::registered(old(self)@),
        ensures
            final(self)@ == Self::after_event(old(self)@, *event),
            outcome_model(r) == Self::event_outcome(old(self)@, *event),
            Self::registered(final(self)@),
            Self::exposed(final(self)@) == Self::exposed(old(self)@),
    ;

    /// Takes a message that another widget sent.
    fn receive(&mut self, message: &Message)
        requires
            Self::registered(old(self)@),
        ensures
            final(self)@ == Self::after_message(old(self)@, message@),
            Self::registered(final(self)@),
            Self::exposed(final(self)@) == Self::exposed(old(self)@),
    ;

    /// Says what the widget shows in `area`: nothing where the area is empty.
    fn render(&self, area: Rect) -> (d: Drawing)
        requires
            Self::registered(self@),
        ensures
            d@ == Self::drawing(self@, area),
            area.spec_is_empty() ==> d@ is Blank,
    ;
}

} // verus!
