//! The side menu: the list of decks, opened from the main menu.

use vstd::prelude::*;
use crate::deck::{deck_names, deck_names_of};
use crate::event::{Event, KeyCode};
use crate::layout::Rect;
use crate::list::{copy_names, main_menu_path, step_back, step_forward, ListState, MenuModel};
use crate::widget::{
    texts, Drawing, DrawingModel, Message, MessageModel, Modifier, Outcome, OutcomeModel, Request,
    RequestModel, SystemHandle, WidgetComponent, WidgetPath,
};

verus! {

/// The menu that lists the decks once the main menu has opened it.
#[derive(Debug)]
pub struct SideMenu {
    title: String,
    pub title_style: Modifier,
    pub items: Vec<String>,
    pub items_state: ListState,
    system: Option<SystemHandle>,
    pub focus: bool,
}

impl View for SideMenu {
    type V = MenuModel;

    closed spec fn view(&self) -> MenuModel {
        MenuModel {
            title: self.title@,
            title_style: self.title_style,
            items: texts(self.items@),
            selected: self.items_state.selected,
            system: self.system,
            focus: self.focus,
        }
    }
}

impl SideMenu {
    /// The side menu as the application starts: empty and without the focus.
    pub fn new() -> (menu: SideMenu)
        ensures
            menu@ == (MenuModel {
                title: "副菜单"@,
                title_style: Modifier { bits: 0 },
                items: Seq::<Seq<char>>::empty(),
                selected: None,
                system: None,
                focus: false,
            }),
    {
        let items: Vec<String> = Vec::new();
        proof {
            assert(texts(items@) =~= Seq::<Seq<char>>::empty());
        }
        SideMenu {
            title: "副菜单".to_owned(),
            title_style: Modifier::empty(),
            items,
            items_state: ListState::new(),
            system: None,
            focus: false,
        }
    }

    /// Whether the menu holds the input focus.
    pub fn is_focused(&self) -> (b: bool)
        ensures
            b == self@.focus,
    {
        self.focus
    }

    /// The index of the marked item.
    pub fn selected(&self) -> (index: Option<usize>)
        ensures
            index == self@.selected,
    {
        self.items_state.selected()
    }

    /// The number of items.
    pub fn len(&self) -> (n: usize)
        ensures
            n == self@.items.len(),
    {
        self.items.len()
    }

    /// The menu closed: without the focus, without items, nothing marked.
    pub open spec fn shut(model: MenuModel) -> MenuModel {
        MenuModel { items: Seq::empty(), selected: None, ..model.unfocused() }
    }

    /// The menu opened on the decks that the files `file_names` hold: the
    /// first one marked, the focus on the menu.
    pub open spec fn opened(model: MenuModel, file_names: Seq<Seq<char>>) -> MenuModel {
        MenuModel { items: deck_names(file_names), selected: Some(0usize), ..model.focused() }
    }

    /// Moves the mark one item towards the start of the list, where there
    /// is one.
    fn select_last_item(&mut self)
        ensures
            final(self)@ == (MenuModel { selected: step_back(old(self)@.selected), ..old(self)@ }),
    {
        self.items_state.select_last_item();
    }

    /// Moves the mark one item towards the end of the list, where there is
    /// one.
    fn select_next_item(&mut self)
        ensures
            final(self)@ == (MenuModel {
                selected: step_forward(old(self)@.selected, old(self)@.items.len()),
                ..old(self)@
            }),
    {
        self.items_state.select_next_item(self.items.len());
    }

    /// The menu after the press of `key` while it holds the focus.
    pub open spec fn after_key(model: MenuModel, key: KeyCode) -> MenuModel {
        match key {
            KeyCode::Up => MenuModel { selected: step_back(model.selected), ..model },
            KeyCode::Down => MenuModel { selected: step_forward(model.selected, model.items.len()), ..model },
            KeyCode::Esc => SideMenu::shut(model),
            _ => model,
        }
    }

    /// What the press of `key` asks of the runtime while the menu holds the
    /// focus: the escape key hands the focus back to the main menu.
    pub open spec fn request_of_key(model: MenuModel, key: KeyCode) -> Option<RequestModel> {
        if key == KeyCode::Esc {
            Some(RequestModel::Send { target: main_menu_path(), message: MessageModel::Focus })
        } else {
            None
        }
    }
}

impl WidgetComponent for SideMenu {
    open spec fn registered(model: MenuModel) -> bool {
        model.system is Some
    }

    open spec fn exposed(model: MenuModel) -> bool {
        true
    }

    open spec fn after_register(model: MenuModel, system: SystemHandle) -> MenuModel {
        MenuModel { system: Some(system), ..model }
    }

    open spec fn after_event(model: MenuModel, event: Event) -> MenuModel {
        match event.spec_pressed() {
            Some(key) => if model.focus {
                SideMenu::after_key(model, key)
            } else {
                model
            },
            None => model,
        }
    }

    open spec fn event_outcome(model: MenuModel, event: Event) -> OutcomeModel {
        match event.spec_pressed() {
            Some(key) => if model.focus {
                Ok(SideMenu::request_of_key(model, key))
            } else {
                Ok(None)
            },
            None => Ok(None),
        }
    }

    open spec fn after_message(model: MenuModel, message: MessageModel) -> MenuModel {
        match message {
            MessageModel::Focus => model.focused(),
            MessageModel::Files(file_names) => SideMenu::opened(model, file_names),
        }
    }

    open spec fn drawing(model: MenuModel, area: Rect) -> DrawingModel {
        model.shown(area)
    }

    fn is_registered(&self) -> (b: bool) {
        self.system.is_some()
    }

    fn public(&self) -> (b: bool) {
        true
    }

    fn register_system(&mut self, system: SystemHandle) {
        self.system = Some(system);
    }

    fn event(&mut self, event: &Event) -> (r: Outcome) {
        if !self.focus {
            return Ok(None);
        }
        match event.pressed() {
            Some(KeyCode::Up) => {
                self.select_last_item();
                Ok(None)
            },
            Some(KeyCode::Down) => {
                self.select_next_item();
                Ok(None)
            },
            Some(KeyCode::Esc) => {
                self.focus = false;
                self.title_style = self.title_style.remove(Modifier::reversed());
                self.items = Vec::new();
                self.items_state.select(None);
                let mut sub_layouts: Vec<usize> = Vec::new();
                sub_layouts.push(0);
                proof {
                    assert(sub_layouts@ =~= seq![0usize]);
                    assert(texts(self.items@) =~= Seq::<Seq<char>>::empty());
                }
                Ok(Some(Request::Send { target: WidgetPath::new(sub_layouts, 0), message: Message::Focus }))
            },
            _ => Ok(None),
        }
    }

    fn receive(&mut self, message: &Message) {
        match message {
            Message::Focus => {
                self.title_style = self.title_style.insert(Modifier::reversed());
                self.focus = true;
            },
            Message::Files(file_names) => {
                self.items = deck_names_of(file_names);
                self.items_state.select(Some(0));
                self.title_style = self.title_style.insert(Modifier::reversed());
                self.focus = true;
            },
        }
    }

    fn render(&self, area: Rect) -> (d: Drawing) {
        if area.is_empty() {
            Drawing::Blank
        } else {
            Drawing::List {
                title: self.title.clone(),
                title_style: self.title_style,
                items: copy_names(&self.items),
                selected: self.items_state.selected(),
            }
        }
    }
}

} // verus!
