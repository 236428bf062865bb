//! The widgets of the application as one type, so that one tree can hold
//! them all.

use vstd::prelude::*;
use crate::event::Event;
use crate::layout::Rect;
use crate::list::MenuModel;
use crate::main_menu::MainMenu;
use crate::side_menu::SideMenu;
use crate::title::{Title, TitleModel};
use crate::widget::{
    Drawing, DrawingModel, Message, MessageModel, Outcome, OutcomeModel, SystemHandle, WidgetComponent,
};

verus! {

/// Any widget of the application.
#[derive(Debug)]
pub enum Component {
    Title(Title),
    MainMenu(MainMenu),
    SideMenu(SideMenu),
}

/// The mathematical value of a [`Component`].
pub ghost enum ComponentModel {
    Title(TitleModel),
    MainMenu(MenuModel),
    SideMenu(MenuModel),
}

impl View for Component {
    type V = ComponentModel;

    open spec fn view(&self) -> ComponentModel {
        match self {
            Component::Title(w) => ComponentModel::Title(w@),
            Component::MainMenu(w) => ComponentModel::MainMenu(w@),
            Component::SideMenu(w) => ComponentModel::SideMenu(w@),
        }
    }
}

impl WidgetComponent for Component {
    open spec fn registered(model: ComponentModel) -> bool {
        match model {
            ComponentModel::Title(m) => Title::registered(m),
            ComponentModel::MainMenu(m) => MainMenu::registered(m),
            ComponentModel::SideMenu(m) => SideMenu::registered(m),
        }
    }

    open spec fn exposed(model: ComponentModel) -> bool {
        match model {
            ComponentModel::Title(m) => Title::exposed(m),
            ComponentModel::MainMenu(m) => MainMenu::exposed(m),
            ComponentModel::SideMenu(m) => SideMenu::exposed(m),
        }
    }

    open spec fn after_register(model: ComponentModel, system: SystemHandle) -> ComponentModel {
        match model {
            ComponentModel::Title(m) => ComponentModel::Title(Title::after_register(m, system)),
            ComponentModel::MainMenu(m) => ComponentModel::MainMenu(MainMenu::after_register(m, system)),
            ComponentModel::SideMenu(m) => ComponentModel::SideMenu(SideMenu::after_register(m, system)),
        }
    }

    open spec fn after_event(model: ComponentModel, event: Event) -> ComponentModel {
        match model {
            ComponentModel::Title(m) => ComponentModel::Title(Title::after_event(m, event)),
            ComponentModel::MainMenu(m) => ComponentModel::MainMenu(MainMenu::after_event(m, event)),
            ComponentModel::SideMenu(m) => ComponentModel::SideMenu(SideMenu::after_event(m, event)),
        }
    }

    open spec fn event_outcome(model: ComponentModel, event: Event) -> OutcomeModel {
        match model {
            ComponentModel::Title(m) => Title::event_outcome(m, event),
            ComponentModel::MainMenu(m) => MainMenu::event_outcome(m, event),
            ComponentModel::SideMenu(m) => SideMenu::event_outcome(m, event),
        }
    }

    open spec fn after_message(model: ComponentModel, message: MessageModel) -> ComponentModel {
        match model {
            ComponentModel::Title(m) => ComponentModel::Title(Title::after_message(m, message)),
            ComponentModel::MainMenu(m) => ComponentModel::MainMenu(MainMenu::after_message(m, message)),
            ComponentModel::SideMenu(m) => ComponentModel::SideMenu(SideMenu::after_message(m, message)),
        }
    }

    open spec fn drawing(model: ComponentModel, area: Rect) -> DrawingModel {
        match model {
            ComponentModel::Title(m) => Title::drawing(m, area),
            ComponentModel::MainMenu(m) => MainMenu::drawing(m, area),
            ComponentModel::SideMenu(m) => SideMenu::drawing(m, area),
        }
    }

    fn is_registered(&self) -> (b: bool) {
        match self {
            Component::Title(w) => w.is_registered(),
            Component::MainMenu(w) => w.is_registered(),
            Component::SideMenu(w) => w.is_registered(),
        }
    }

    fn public(&self) -> (b: bool) {
        match self {
            Component::Title(w) => w.public(),
            Component::MainMenu(w) => w.public(),
            Component::SideMenu(w) => w.public(),
        }
    }

    fn register_system(&mut self, system: SystemHandle) {
        match self {
            Component::Title(w) => w.register_system(system),
            Component::MainMenu(w) => w.register_system(system),
            Component::SideMenu(w) => w.register_system(system),
        }
    }

    fn event(&mut self, event: &Event) -> (r: Outcome) {
        match self {
            Component::Title(w) => w.event(event),
            Component::MainMenu(w) => w.event(event),
            Component::SideMenu(w) => w.event(event),
        }
    }

    fn receive(&mut self, message: &Message) {
        match self {
            Component::Title(w) => w.receive(message),
            Component::MainMenu(w) => w.receive(message),
            Component::SideMenu(w) => w.receive(message),
        }
    }

    fn render(&self, area: Rect) -> (d: Drawing) {
        match self {
            Component::Title(w) => w.render(area),
            Component::MainMenu(w) => w.render(area),
            Component::SideMenu(w) => w.render(area),
        }
    }
}

} // verus!
