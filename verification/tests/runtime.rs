use duelist_helper::component::Component;
use duelist_helper::event::{Event, KeyCode, KeyEvent, KeyEventKind};
use duelist_helper::layout::{Constraint, Direction, Layout, Rect};
use duelist_helper::main_menu::MainMenu;
use duelist_helper::side_menu::SideMenu;
use duelist_helper::system::{FrameError, Phase, System, SystemError, SystemInfo};
use duelist_helper::title::Title;
use duelist_helper::tree::{Widget, WidgetLayout};
use duelist_helper::widget::{Drawing, Message, Modifier, WidgetPath};

fn menus() -> WidgetLayout<Component> {
    WidgetLayout {
        layout: Layout::new(Direction::Horizontal, vec![Constraint::Length(21), Constraint::Min(0)]),
        widgets: vec![
            Widget::new(Component::MainMenu(MainMenu::new()), 0),
            Widget::new(Component::SideMenu(SideMenu::new()), 1),
        ],
        super_layout_area_index: 1,
        sub_layout: vec![],
    }
}

fn screen() -> WidgetLayout<Component> {
    WidgetLayout {
        layout: Layout::new(Direction::Vertical, vec![Constraint::Length(3), Constraint::Min(0)]),
        widgets: vec![Widget::new(Component::Title(Title::new()), 0)],
        super_layout_area_index: 0,
        sub_layout: vec![menus()],
    }
}

fn running() -> System<Component> {
    let mut system = System::nwe(SystemInfo { components: vec![screen()] }).unwrap();
    assert!(system.start());
    system
}

fn area() -> Rect {
    Rect::new(0, 0, 80, 24)
}

fn main_path() -> WidgetPath {
    WidgetPath::new(vec![0], 0)
}

fn side_path() -> WidgetPath {
    WidgetPath::new(vec![0], 1)
}

fn main_focused(system: &System<Component>) -> bool {
    match system.lookup(&main_path()) {
        Some(Component::MainMenu(menu)) => menu.is_focused(),
        _ => panic!("no main menu"),
    }
}

fn side_focused(system: &System<Component>) -> bool {
    match system.lookup(&side_path()) {
        Some(Component::SideMenu(menu)) => menu.is_focused(),
        _ => panic!("no side menu"),
    }
}

fn files() -> Vec<String> {
    vec![String::from("blue.ydk"), String::from("notes.txt"), String::from("red.ydk.bak")]
}

#[test]
fn a_new_runtime_is_constructing_with_the_flag_set() {
    let system = System::nwe(SystemInfo { components: vec![screen()] }).unwrap();
    assert_eq!(system.phase(), Phase::Constructing);
    assert!(system.is_run());
    assert!(system.query_widget_layout().is_some());
}

#[test]
fn a_widget_bound_beyond_the_regions_is_refused() {
    let mut tree = screen();
    tree.widgets.push(Widget::new(Component::Title(Title::new()), 2));
    assert_eq!(System::nwe(SystemInfo { components: vec![tree] }).err(), Some(SystemError::RegionOutOfRange));
}

#[test]
fn a_child_node_bound_beyond_the_regions_is_refused() {
    let mut tree = screen();
    tree.sub_layout[0].super_layout_area_index = 2;
    assert!(!tree.is_well_formed());
    assert_eq!(System::nwe(SystemInfo { components: vec![tree] }).err(), Some(SystemError::RegionOutOfRange));
}

#[test]
fn a_binding_deep_in_the_tree_is_checked_too() {
    let mut tree = screen();
    tree.sub_layout[0].widgets[1].layout_area_index = 5;
    assert_eq!(System::nwe(SystemInfo { components: vec![tree] }).err(), Some(SystemError::RegionOutOfRange));
    let mut fine = screen();
    fine.sub_layout[0].widgets[1].layout_area_index = 0;
    assert!(System::nwe(SystemInfo { components: vec![fine] }).is_ok());
}

#[test]
fn a_runtime_takes_exactly_one_tree() {
    let none: Vec<WidgetLayout<Component>> = vec![];
    assert_eq!(System::nwe(SystemInfo { components: none }).err(), Some(SystemError::NotOneTree));
    let two = vec![screen(), screen()];
    assert_eq!(System::nwe(SystemInfo { components: two }).err(), Some(SystemError::NotOneTree));
}

#[test]
fn a_registered_tree_is_refused() {
    let mut tree = screen();
    assert!(tree.is_unregistered());
    tree.register_widgets_system(duelist_helper::widget::SystemHandle { serial: 9 });
    assert!(!tree.is_unregistered());
    assert_eq!(System::nwe(SystemInfo { components: vec![tree] }).err(), Some(SystemError::AlreadyRegistered));
}

#[test]
fn no_frame_before_the_registration_pass() {
    let mut system = System::nwe(SystemInfo { components: vec![screen()] }).unwrap();
    assert!(matches!(system.frame(None, area()), Err(FrameError::NotRunning)));
    assert!(!system.send(&main_path(), &Message::Focus));
    assert!(system.start());
    assert_eq!(system.phase(), Phase::Running);
    assert!(!system.start());
    assert!(system.frame(None, area()).is_ok());
}

#[test]
fn a_frame_draws_every_widget_in_its_region() {
    let mut system = running();
    let out = system.frame(None, area()).unwrap();
    assert!(out.host.is_empty());
    assert_eq!(out.plan.regions, vec![Rect::new(0, 0, 80, 3), Rect::new(0, 3, 80, 21)]);
    assert_eq!(out.plan.children.len(), 1);
    assert_eq!(out.plan.children[0].regions, vec![Rect::new(0, 3, 21, 21), Rect::new(21, 3, 59, 21)]);
    assert_eq!(out.commands.len(), 3);
    assert_eq!(out.commands[0].area, Rect::new(0, 0, 80, 3));
    assert!(matches!(&out.commands[0].drawing, Drawing::Paragraph { text } if text == "牌佬助手"));
    assert_eq!(out.commands[1].area, Rect::new(0, 3, 21, 21));
    match &out.commands[1].drawing {
        Drawing::List { title, title_style, items, selected } => {
            assert_eq!(title, "主菜单");
            assert_eq!(*title_style, Modifier::reversed());
            assert_eq!(items, &vec![String::from("让我康康你的卡组"), String::from("退出牌佬助手")]);
            assert_eq!(*selected, Some(0));
        }
        other => panic!("unexpected drawing {:?}", other),
    }
    assert_eq!(out.commands[2].area, Rect::new(21, 3, 59, 21));
    match &out.commands[2].drawing {
        Drawing::List { title, title_style, items, selected } => {
            assert_eq!(title, "副菜单");
            assert_eq!(*title_style, Modifier::empty());
            assert!(items.is_empty());
            assert_eq!(*selected, None);
        }
        other => panic!("unexpected drawing {:?}", other),
    }
}

#[test]
fn an_empty_terminal_draws_nothing() {
    let mut system = running();
    let out = system.frame(None, Rect::new(0, 0, 0, 0)).unwrap();
    assert_eq!(out.commands.len(), 3);
    assert!(out.commands.iter().all(|c| c.area.is_empty() && matches!(c.drawing, Drawing::Blank)));
}

#[test]
fn the_drawing_of_a_frame_shows_what_its_event_changed() {
    let mut system = running();
    let out = system.frame(Some(Event::press(KeyCode::Down)), area()).unwrap();
    assert!(matches!(&out.commands[1].drawing, Drawing::List { selected: Some(1), .. }));
    for _ in 0..20 {
        let up = system.frame(Some(Event::press(KeyCode::Up)), area()).unwrap();
        assert!(matches!(&up.commands[1].drawing, Drawing::List { selected: Some(0), .. }));
        let down = system.frame(Some(Event::press(KeyCode::Down)), area()).unwrap();
        assert!(matches!(&down.commands[1].drawing, Drawing::List { selected: Some(1), .. }));
    }
}

#[test]
fn the_mark_stays_inside_the_list() {
    let mut system = running();
    for _ in 0..3 {
        system.frame(Some(Event::press(KeyCode::Down)), area()).unwrap();
    }
    let out = system.frame(None, area()).unwrap();
    assert!(matches!(&out.commands[1].drawing, Drawing::List { selected: Some(1), .. }));
    for _ in 0..3 {
        system.frame(Some(Event::press(KeyCode::Up)), area()).unwrap();
    }
    let out = system.frame(None, area()).unwrap();
    assert!(matches!(&out.commands[1].drawing, Drawing::List { selected: Some(0), .. }));
}

#[test]
fn only_key_presses_move_the_mark() {
    let mut system = running();
    let release = Event::Key(KeyEvent { code: KeyCode::Down, kind: KeyEventKind::Release });
    let repeat = Event::Key(KeyEvent { code: KeyCode::Down, kind: KeyEventKind::Repeat });
    for event in [release, repeat, Event::Other, Event::press(KeyCode::Other)] {
        let out = system.frame(Some(event), area()).unwrap();
        assert!(matches!(&out.commands[1].drawing, Drawing::List { selected: Some(0), .. }));
    }
}

#[test]
fn quitting_from_the_menu_stops_the_runtime() {
    let mut system = running();
    system.frame(Some(Event::press(KeyCode::Down)), area()).unwrap();
    let last = system.frame(Some(Event::press(KeyCode::Enter)), area()).unwrap();
    assert_eq!(last.commands.len(), 3);
    assert!(!system.is_run());
    assert_eq!(system.phase(), Phase::Stopped);
    assert!(matches!(system.frame(None, area()), Err(FrameError::NotRunning)));
    assert!(matches!(system.frame(Some(Event::press(KeyCode::Up)), area()), Err(FrameError::NotRunning)));
    assert_eq!(system.phase(), Phase::Stopped);
}

#[test]
fn quit_clears_the_flag() {
    let mut system = running();
    system.quit();
    assert!(!system.is_run());
    assert_eq!(system.phase(), Phase::Stopped);
    let mut early = System::nwe(SystemInfo { components: vec![screen()] }).unwrap();
    early.quit();
    assert_eq!(early.phase(), Phase::Constructing);
    early.start();
    assert_eq!(early.phase(), Phase::Stopped);
}

#[test]
fn lookup_finds_only_widgets_that_let_themselves_be_reached() {
    let mut system = running();
    assert!(system.lookup(&WidgetPath::new(vec![], 0)).is_none());
    assert!(system.lookup(&WidgetPath::new(vec![], 1)).is_none());
    assert!(system.lookup(&WidgetPath::new(vec![0], 2)).is_none());
    assert!(system.lookup(&WidgetPath::new(vec![1], 0)).is_none());
    assert!(system.lookup(&WidgetPath::new(vec![0, 0], 0)).is_none());
    assert!(!system.send(&WidgetPath::new(vec![], 0), &Message::Focus));
    assert!(matches!(system.lookup(&main_path()), Some(Component::MainMenu(_))));
    assert!(matches!(system.lookup(&side_path()), Some(Component::SideMenu(_))));
    assert!(!side_focused(&system));
    assert!(system.send(&side_path(), &Message::Focus));
    assert!(side_focused(&system));
}

#[test]
fn opening_the_decks_asks_the_host_and_hands_over_the_focus() {
    let mut system = running();
    assert!(main_focused(&system) && !side_focused(&system));
    let out = system.frame(Some(Event::press(KeyCode::Enter)), area()).unwrap();
    assert_eq!(out.host.len(), 1);
    assert_eq!(out.host[0].directory, "./assets/deck/");
    assert_eq!(out.host[0].reply_to.sub_layouts, vec![0]);
    assert_eq!(out.host[0].reply_to.widget, 1);
    assert!(!main_focused(&system) && !side_focused(&system));
    assert!(matches!(&out.commands[1].drawing, Drawing::List { title_style, .. } if *title_style == Modifier::empty()));
    assert!(system.send(&out.host[0].reply_to, &Message::Files(files())));
    assert!(!main_focused(&system) && side_focused(&system));
    let next = system.frame(None, area()).unwrap();
    match &next.commands[2].drawing {
        Drawing::List { items, selected, title_style, .. } => {
            assert_eq!(items, &vec![String::from("blue"), String::from("red")]);
            assert_eq!(*selected, Some(0));
            assert_eq!(*title_style, Modifier::reversed());
        }
        other => panic!("unexpected drawing {:?}", other),
    }
}

#[test]
fn escape_hands_the_focus_back_in_the_same_frame() {
    let mut system = running();
    let out = system.frame(Some(Event::press(KeyCode::Enter)), area()).unwrap();
    system.send(&out.host[0].reply_to, &Message::Files(files()));
    system.frame(Some(Event::press(KeyCode::Down)), area()).unwrap();
    let back = system.frame(Some(Event::press(KeyCode::Esc)), area()).unwrap();
    assert!(back.host.is_empty());
    assert!(main_focused(&system) && !side_focused(&system));
    assert!(matches!(&back.commands[1].drawing, Drawing::List { title_style, .. } if *title_style == Modifier::reversed()));
    match &back.commands[2].drawing {
        Drawing::List { items, selected, title_style, .. } => {
            assert!(items.is_empty());
            assert_eq!(*selected, None);
            assert_eq!(*title_style, Modifier::empty());
        }
        other => panic!("unexpected drawing {:?}", other),
    }
}

#[test]
fn at_most_one_menu_holds_the_focus_between_frames() {
    let mut system = running();
    let keys = [
        KeyCode::Down, KeyCode::Up, KeyCode::Esc, KeyCode::Enter, KeyCode::Enter, KeyCode::Down,
        KeyCode::Esc, KeyCode::Esc, KeyCode::Enter, KeyCode::Up, KeyCode::Other, KeyCode::Esc,
    ];
    for key in keys {
        let out = system.frame(Some(Event::press(key)), area()).unwrap();
        assert!(!(main_focused(&system) && side_focused(&system)));
        for request in &out.host {
            system.send(&request.reply_to, &Message::Files(files()));
            assert!(!(main_focused(&system) && side_focused(&system)));
        }
    }
    assert!(main_focused(&system));
}

#[test]
fn side_menu_mark_moves_through_the_decks() {
    let mut system = running();
    let out = system.frame(Some(Event::press(KeyCode::Enter)), area()).unwrap();
    system.send(&out.host[0].reply_to, &Message::Files(files()));
    let down = system.frame(Some(Event::press(KeyCode::Down)), area()).unwrap();
    assert!(matches!(&down.commands[2].drawing, Drawing::List { selected: Some(1), .. }));
    assert!(matches!(&down.commands[1].drawing, Drawing::List { selected: Some(0), .. }));
    let more = system.frame(Some(Event::press(KeyCode::Down)), area()).unwrap();
    assert!(matches!(&more.commands[2].drawing, Drawing::List { selected: Some(1), .. }));
}

#[test]
fn an_empty_deck_list_keeps_its_mark_in_place() {
    let mut system = running();
    let out = system.frame(Some(Event::press(KeyCode::Enter)), area()).unwrap();
    system.send(&out.host[0].reply_to, &Message::Files(vec![String::from("readme")]));
    let down = system.frame(Some(Event::press(KeyCode::Down)), area()).unwrap();
    assert!(matches!(&down.commands[2].drawing, Drawing::List { selected: Some(0), items, .. } if items.is_empty()));
}
