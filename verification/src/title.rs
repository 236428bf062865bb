//! The title bar.

use vstd::prelude::*;
use crate::event::Event;
use crate::layout::Rect;
use crate::widget::{
    Drawing, DrawingModel, Message, MessageModel, Outcome, OutcomeModel, SystemHandle, WidgetComponent,
};

verus! {

/// A widget that shows one centred line of text in a border.
#[derive(Debug)]
pub struct Title {
    title: String,
    system: Option<SystemHandle>,
}

/// The mathematical value of a [`Title`].
pub ghost struct TitleModel {
    pub title: Seq<char>,
    pub system: Option<SystemHandle>,
}

impl View for Title {
    type V = TitleModel;

    closed spec fn view(&self) -> TitleModel {
        TitleModel { title: self.title@, system: self.system }
    }
}

impl Title {
    /// The title bar of the application.
    pub fn new() -> (title: Title)
        ensures
            title@ == (TitleModel { title: "牌佬助手"@, system: None }),
    {
        Title { title: "牌佬助手".to_owned(), system: None }
    }

    /// A title bar with the given text.
    pub fn with_text(text: String) -> (title: Title)
        ensures
            title@ == (TitleModel { title: text@, system: None }),
    {
        Title { title: text, system: None }
    }
}

impl WidgetComponent for Title {
    open spec fn registered(model: TitleModel) -> bool {
        model.system is Some
    }

    open spec fn exposed(model: TitleModel) -> bool {
        false
    }

    open spec fn after_register(model: TitleModel, system: SystemHandle) -> TitleModel {
        TitleModel { system: Some(system), ..model }
    }

    open spec fn after_event(model: TitleModel, event: Event) -> TitleModel {
        model
    }

    open spec fn event_outcome(model: TitleModel, event: Event) -> OutcomeModel {
        Ok(None)
    }

    open spec fn after_message(model: TitleModel, message: MessageModel) -> TitleModel {
        model
    }

    open spec fn drawing(model: TitleModel, area: Rect) -> DrawingModel {
        if area.spec_is_empty() {
            DrawingModel::Blank
        } else {
            DrawingModel::Paragraph { text: model.title }
        }
    }

    fn is_registered(&self) -> (b: bool) {
        self.system.is_some()
    }

    fn public(&self) -> (b: bool) {
        false
    }

    fn register_system(&mut self, system: SystemHandle) {
        self.system = Some(system);
    }

    fn event(&mut self, event: &Event) -> (r: Outcome) {
        Ok(None)
    }

    fn receive(&mut self, message: &Message) {
    }

    fn render(&self, area: Rect) -> (d: Drawing) {
        if area.is_empty() {
            Drawing::Blank
        } else {
            Drawing::Paragraph { text: self.title.clone() }
        }
    }
}

} // verus!
