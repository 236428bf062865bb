//! The main menu: it opens the list of decks or ends the application.

use vstd::prelude::*;
use crate::event::{Event, KeyCode};
use crate::layout::Rect;
use crate::list::{copy_names, reversed, side_menu_path, step_back, step_forward, ListState, MenuModel};
use crate::widget::{
    texts, Drawing, DrawingModel, Message, MessageModel, Modifier, Outcome, OutcomeModel, Request,
    RequestModel, SystemHandle, WidgetComponent, WidgetPath,
};

verus! {

/// The menu that holds the focus when the application starts.
#[derive(Debug)]
pub struct MainMenu {
    title: String,
    pub title_style: Modifier,
    items: Vec<String>,
    items_state: ListState,
    system: Option<SystemHandle>,
    pub focus: bool,
}

/// The directory in which the application keeps its deck files.
pub open spec fn deck_directory() -> Seq<char> {
    "./assets/deck/"@
}

impl View for MainMenu {
    type V = MenuModel;

    closed spec fn view(&self) -> MenuModel {
        MenuModel {
            title: self.title@,
            title_style: self.title_style,
            items: texts(self.items@),
            selected: self.items_state.selected,
            system: self.system,
            focus: self.focus,
        }
    }
}

impl MainMenu {
    /// The main menu as the application starts: two items, the first one
    /// marked, the focus on the menu.
    pub fn new() -> (menu: MainMenu)
        ensures
            menu@ == (MenuModel {
                title: "主菜单"@,
                title_style: reversed(),
                items: seq!["让我康康你的卡组"@, "退出牌佬助手"@],
                selected: Some(0usize),
                system: None,
                focus: true,
            }),
    {
        let mut items: Vec<String> = Vec::new();
        items.push("让我康康你的卡组".to_owned());
        items.push("退出牌佬助手".to_owned());
        proof {
            assert(texts(items@) =~= seq!["让我康康你的卡组"@, "退出牌佬助手"@]);
        }
        MainMenu {
            title: "主菜单".to_owned(),
            title_style: Modifier::reversed(),
            items,
            items_state: ListState { selected: Some(0) },
            system: None,
            focus: true,
        }
    }

    /// Whether the menu holds the input focus.
    pub fn is_focused(&self) -> (b: bool)
        ensures
            b == self@.focus,
    {
        self.focus
    }

    /// The index of the marked item.
    pub fn selected(&self) -> (index: Option<usize>)
        ensures
            index == self@.selected,
    {
        self.items_state.selected()
    }

    /// Moves the mark one item towards the start of the list, where there
    /// is one.
    fn select_last_item(&mut self)
        ensures
            final(self)@ == (MenuModel { selected: step_back(old(self)@.selected), ..old(self)@ }),
    {
        self.items_state.select_last_item();
    }

    /// Moves the mark one item towards the end of the list, where there is
    /// one.
    fn select_next_item(&mut self)
        ensures
            final(self)@ == (MenuModel {
                selected: step_forward(old(self)@.selected, old(self)@.items.len()),
                ..old(self)@
            }),
    {
        self.items_state.select_next_item(self.items.len());
    }

    /// The menu after the press of `key` while it holds the focus.
    pub open spec fn after_key(model: MenuModel, key: KeyCode) -> MenuModel {
        match key {
            KeyCode::Up => MenuModel { selected: step_back(model.selected), ..model },
            KeyCode::Down => MenuModel { selected: step_forward(model.selected, model.items.len()), ..model },
            KeyCode::Enter => if model.selected == Some(0usize) {
                model.unfocused()
            } else {
                model
            },
            _ => model,
        }
    }

    /// What the press of `key` asks of the runtime while the menu holds the
    /// focus: the first item opens the list of decks, the second one ends the
    /// application.
    pub open spec fn request_of_key(model: MenuModel, key: KeyCode) -> Option<RequestModel> {
        if key == KeyCode::Enter && model.selected == Some(0usize) {
            Some(RequestModel::ListFiles { directory: deck_directory(), reply_to: side_menu_path() })
        } else if key == KeyCode::Enter && model.selected == Some(1usize) {
            Some(RequestModel::Quit)
        } else {
            None
        }
    }
}

impl WidgetComponent for MainMenu {
    open spec fn registered(model: MenuModel) -> bool {
        model.system is Some
    }

    open spec fn exposed(model: MenuModel) -> bool {
        true
    }

    open spec fn after_register(model: MenuModel, system: SystemHandle) -> MenuModel {
        MenuModel { system: Some(system), ..model }
    }

    open spec fn after_event(model: MenuModel, event: Event) -> MenuModel {
        match event.spec_pressed() {
            Some(key) => if model.focus {
                MainMenu::after_key(model, key)
            } else {
                model
            },
            None => model,
        }
    }

    open spec fn event_outcome(model: MenuModel, event: Event) -> OutcomeModel {
        match event.spec_pressed() {
            Some(key) => if model.focus {
                Ok(MainMenu::request_of_key(model, key))
            } else {
                Ok(None)
            },
            None => Ok(None),
        }
    }

    open spec fn after_message(model: MenuModel, message: MessageModel) -> MenuModel {
        match message {
            MessageModel::Focus => model.focused(),
            MessageModel::Files(_) => model,
        }
    }

    open spec fn drawing(model: MenuModel, area: Rect) -> DrawingModel {
        model.shown(area)
    }

    fn is_registered(&self) -> (b: bool) {
        self.system.is_some()
    }

    fn public(&self) -> (b: bool) {
        true
    }

    fn register_system(&mut self, system: SystemHandle) {
        self.system = Some(system);
    }

    fn event(&mut self, event: &Event) -> (r: Outcome) {
        if !self.focus {
            return Ok(None);
        }
        match event.pressed() {
            Some(KeyCode::Up) => {
                self.select_last_item();
                Ok(None)
            },
            Some(KeyCode::Down) => {
                self.select_next_item();
                Ok(None)
            },
            Some(KeyCode::Enter) => {
                match self.items_state.selected() {
                    Some(0) => {
                        self.focus = false;
                        self.title_style = self.title_style.remove(Modifier::reversed());
                        let mut sub_layouts: Vec<usize> = Vec::new();
                        sub_layouts.push(0);
                        proof {
                            assert(sub_layouts@ =~= seq![0usize]);
                        }
                        Ok(Some(Request::ListFiles {
                            directory: "./assets/deck/".to_owned(),
                            reply_to: WidgetPath::new(sub_layouts, 1),
                        }))
                    },
                    Some(1) => Ok(Some(Request::Quit)),
                    _ => Ok(None),
                }
            },
            _ => Ok(None),
        }
    }

    fn receive(&mut self, message: &Message) {
        match message {
            Message::Focus => {
                self.title_style = self.title_style.insert(Modifier::reversed());
                self.focus = true;
            },
            Message::Files(_) => {},
        }
    }

    fn render(&self, area: Rect) -> (d: Drawing) {
        if area.is_empty() {
            Drawing::Blank
        } else {
            Drawing::List {
                title: self.title.clone(),
                title_style: self.title_style,
                items: copy_names(&self.items),
                selected: self.items_state.selected(),
            }
        }
    }
}

} // verus!
