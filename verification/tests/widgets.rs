use duelist_helper::event::{Event, KeyCode, KeyEvent, KeyEventKind};
use duelist_helper::layout::Rect;
use duelist_helper::list::ListState;
use duelist_helper::main_menu::MainMenu;
use duelist_helper::side_menu::SideMenu;
use duelist_helper::title::Title;
use duelist_helper::widget::{
    Drawing, Message, Modifier, Request, SystemHandle, WidgetComponent, WidgetPath, REVERSED_BIT,
};

fn handle() -> SystemHandle {
    SystemHandle { serial: 1 }
}

#[test]
fn modifier_bits_are_set_and_cleared() {
    let reversed = Modifier::reversed();
    assert_eq!(reversed.bits, REVERSED_BIT);
    assert_eq!(REVERSED_BIT, 0x40);
    let both = Modifier { bits: 0x41 };
    assert_eq!(Modifier { bits: 1 }.insert(reversed), both);
    assert_eq!(both.remove(reversed), Modifier { bits: 1 });
    assert_eq!(Modifier::empty().remove(reversed), Modifier::empty());
    assert!(both.contains(reversed));
    assert!(!Modifier { bits: 1 }.contains(reversed));
}

#[test]
fn pressed_tells_key_presses_from_other_events() {
    assert_eq!(Event::press(KeyCode::Esc).pressed(), Some(KeyCode::Esc));
    let release = Event::Key(KeyEvent { code: KeyCode::Esc, kind: KeyEventKind::Release });
    assert_eq!(release.pressed(), None);
    assert_eq!(Event::Other.pressed(), None);
}

#[test]
fn list_state_steps_stay_in_range() {
    let mut state = ListState::new();
    state.select_next_item(3);
    assert_eq!(state.selected(), None);
    state.select(Some(0));
    state.select_last_item();
    assert_eq!(state.selected(), Some(0));
    state.select_next_item(3);
    state.select_next_item(3);
    state.select_next_item(3);
    assert_eq!(state.selected(), Some(2));
    state.select_last_item();
    assert_eq!(state.selected(), Some(1));
    state.select(Some(usize::MAX));
    state.select_next_item(usize::MAX);
    assert_eq!(state.selected(), Some(usize::MAX));
}

#[test]
fn the_title_is_registered_once_and_cannot_be_reached() {
    let mut title = Title::with_text(String::from("decks"));
    assert!(!title.is_registered());
    title.register_system(handle());
    assert!(title.is_registered());
    assert!(!title.public());
    assert!(matches!(title.event(&Event::press(KeyCode::Enter)), Ok(None)));
    title.receive(&Message::Focus);
    assert!(matches!(title.render(Rect::new(0, 0, 5, 3)), Drawing::Paragraph { text } if text == "decks"));
    assert!(matches!(title.render(Rect::new(0, 0, 5, 0)), Drawing::Blank));
}

#[test]
fn the_main_menu_asks_for_the_decks_or_for_the_end() {
    let mut menu = MainMenu::new();
    menu.register_system(handle());
    assert!(menu.public() && menu.is_focused());
    match menu.event(&Event::press(KeyCode::Enter)) {
        Ok(Some(Request::ListFiles { directory, reply_to })) => {
            assert_eq!(directory, "./assets/deck/");
            assert_eq!((reply_to.sub_layouts, reply_to.widget), (vec![0], 1));
        }
        other => panic!("unexpected outcome {:?}", other),
    }
    assert!(!menu.is_focused());
    assert_eq!(menu.title_style, Modifier::empty());
    assert!(matches!(menu.event(&Event::press(KeyCode::Enter)), Ok(None)));
    menu.receive(&Message::Focus);
    assert!(menu.is_focused());
    assert_eq!(menu.title_style, Modifier::reversed());
    assert!(matches!(menu.event(&Event::press(KeyCode::Down)), Ok(None)));
    assert_eq!(menu.selected(), Some(1));
    assert!(matches!(menu.event(&Event::press(KeyCode::Enter)), Ok(Some(Request::Quit))));
    assert!(menu.is_focused());
    menu.receive(&Message::Files(vec![String::from("x.ydk")]));
    assert_eq!(menu.selected(), Some(1));
}

#[test]
fn the_side_menu_opens_on_the_decks_and_closes_on_escape() {
    let mut menu = SideMenu::new();
    menu.register_system(handle());
    assert!(!menu.is_focused());
    assert!(matches!(menu.event(&Event::press(KeyCode::Esc)), Ok(None)));
    menu.receive(&Message::Files(vec![String::from("a.ydk"), String::from("b"), String::from("c.ydk")]));
    assert!(menu.is_focused());
    assert_eq!(menu.items, vec![String::from("a"), String::from("c")]);
    assert_eq!((menu.len(), menu.selected()), (2, Some(0)));
    assert!(matches!(menu.event(&Event::press(KeyCode::Enter)), Ok(None)));
    assert!(matches!(menu.event(&Event::press(KeyCode::Down)), Ok(None)));
    assert_eq!(menu.items_state.selected(), Some(1));
    match menu.event(&Event::press(KeyCode::Esc)) {
        Ok(Some(Request::Send { target, message: Message::Focus })) => {
            assert_eq!((target.sub_layouts, target.widget), (vec![0], 0));
        }
        other => panic!("unexpected outcome {:?}", other),
    }
    assert!(!menu.is_focused());
    assert!(menu.items.is_empty());
    assert_eq!(menu.selected(), None);
    assert_eq!(menu.title_style, Modifier::empty());
}

#[test]
fn a_path_is_copied_whole() {
    let path = WidgetPath::new(vec![3, 1, 4], 1);
    let copy = path.duplicate();
    assert_eq!((copy.sub_layouts, copy.widget), (vec![3, 1, 4], 1));
}
