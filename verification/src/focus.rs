//! The hand-over of the input focus between the main menu and the side
//! menu, and why at most one of them holds it between two frames.

use vstd::prelude::*;
use crate::component::{Component, ComponentModel};
use crate::event::Event;
use crate::list::{main_menu_path, side_menu_path, MenuModel};
use crate::main_menu::{deck_directory, MainMenu};
use crate::side_menu::SideMenu;
use crate::system::{after_frame, carry_out, carry_out_all, frame_outcomes, handled, HostModel, Progress};
use crate::title::TitleModel;
use crate::tree::{components, delivered, flat_all, handling, results, taking, TreeModel};
use crate::widget::{MessageModel, OutcomeModel, RequestModel, WidgetComponent};

verus! {

/// The two menus after a frame with `event`: each has handled the event, and
/// the main menu has taken the message that the side menu sent, if it sent
/// one.
pub open spec fn menus_after_frame(main: MenuModel, side: MenuModel, event: Event) -> (MenuModel, MenuModel) {
    let main_handled = MainMenu::after_event(main, event);
    let side_handled = SideMenu::after_event(side, event);
    match SideMenu::event_outcome(side, event) {
        Ok(Some(RequestModel::Send { target, message })) => (
            MainMenu::after_message(main_handled, message),
            side_handled,
        ),
        _ => (main_handled, side_handled),
    }
}

/// The two menus after the host has answered the request of the main menu
/// with the names `file_names`.
pub open spec fn menus_after_reply(main: MenuModel, side: MenuModel, file_names: Seq<Seq<char>>) -> (
    MenuModel,
    MenuModel,
) {
    (main, SideMenu::after_message(side, MessageModel::Files(file_names)))
}

/// Whether the main menu asks the host for the deck files when it handles
/// `event`.
pub open spec fn asks_for_decks(main: MenuModel, event: Event) -> bool {
    MainMenu::event_outcome(main, event) matches Ok(Some(RequestModel::ListFiles { .. }))
}

/// A frame never leaves both menus with the focus: where at most one of the
/// two menus holds the focus before a frame, at most one holds it after.
pub proof fn lemma_frame_keeps_one_focus(main: MenuModel, side: MenuModel, event: Event)
    requires
        !(main.focus && side.focus),
    ensures
        !(menus_after_frame(main, side, event).0.focus && menus_after_frame(main, side, event).1.focus),
{
}

/// A frame in which the main menu asks for the deck files leaves neither
/// menu with the focus.
pub proof fn lemma_asking_gives_the_focus_up(main: MenuModel, side: MenuModel, event: Event)
    requires
        !(main.focus && side.focus),
        asks_for_decks(main, event),
    ensures
        !menus_after_frame(main, side, event).0.focus,
        !menus_after_frame(main, side, event).1.focus,
{
}

/// While neither menu holds the focus, frames change neither of them and
/// ask nothing of the runtime: the answer of the host finds them as the
/// request left them.
pub proof fn lemma_menus_wait_for_the_answer(main: MenuModel, side: MenuModel, event: Event)
    requires
        !main.focus,
        !side.focus,
    ensures
        menus_after_frame(main, side, event) == (main, side),
        MainMenu::event_outcome(main, event) == Ok::<Option<RequestModel>, Seq<char>>(None),
        SideMenu::event_outcome(side, event) == Ok::<Option<RequestModel>, Seq<char>>(None),
{
}

/// The answer of the host gives the focus to the side menu alone, where the
/// main menu gave it up to ask.
pub proof fn lemma_answer_gives_the_side_menu_the_focus(
    main: MenuModel,
    side: MenuModel,
    file_names: Seq<Seq<char>>,
)
    requires
        !main.focus,
    ensures
        menus_after_reply(main, side, file_names).1.focus,
        !menus_after_reply(main, side, file_names).0.focus,
{
}

/// The escape key in the side menu gives the focus back to the main menu
/// alone, within the frame.
pub proof fn lemma_escape_gives_the_focus_back(main: MenuModel, side: MenuModel)
    requires
        side.focus,
        !main.focus,
    ensures
        menus_after_frame(main, side, Event::press_of(crate::event::KeyCode::Esc)).0.focus,
        !menus_after_frame(main, side, Event::press_of(crate::event::KeyCode::Esc)).1.focus,
{
}

/// The tree has the shape of the screen of the application: the title at
/// the root, and one child node that holds the main menu and the side menu,
/// in that order.
pub open spec fn is_screen(
    tree: TreeModel<ComponentModel>,
    title: TitleModel,
    main: MenuModel,
    side: MenuModel,
) -> bool {
    &&& tree.widgets.len() == 1
    &&& tree.widgets[0].component == ComponentModel::Title(title)
    &&& tree.sub_layout.len() == 1
    &&& tree.sub_layout[0].widgets.len() == 2
    &&& tree.sub_layout[0].widgets[0].component == ComponentModel::MainMenu(main)
    &&& tree.sub_layout[0].widgets[1].component == ComponentModel::SideMenu(side)
    &&& tree.sub_layout[0].sub_layout.len() == 0
}

/// What the widgets of the screen make of `event`, in the order of the
/// visit.
pub proof fn lemma_screen_outcomes(
    tree: TreeModel<ComponentModel>,
    title: TitleModel,
    main: MenuModel,
    side: MenuModel,
    event: Event,
)
    requires
        is_screen(tree, title, main, side),
    ensures
        frame_outcomes::<Component>(tree, Some(event)) == seq![
            Ok::<Option<RequestModel>, Seq<char>>(None),
            MainMenu::event_outcome(main, event),
            SideMenu::event_outcome(side, event),
        ],
        is_screen(
            handled::<Component>(tree, Some(event)),
            title,
            MainMenu::after_event(main, event),
            SideMenu::after_event(side, event),
        ),
{
    let menus = tree.sub_layout[0];
    reveal_with_fuel(flat_all, 3);
    assert(flat_all(menus.sub_layout, 0) =~= Seq::<ComponentModel>::empty());
    assert(menus.flat() =~= components(menus.widgets));
    assert(flat_all(tree.sub_layout, 1) =~= menus.flat());
    let flat = tree.flat();
    assert(flat =~= seq![
        ComponentModel::Title(title),
        ComponentModel::MainMenu(main),
        ComponentModel::SideMenu(side),
    ]);
    assert(results::<Component>(flat, event) =~= seq![
        Ok::<Option<RequestModel>, Seq<char>>(None),
        MainMenu::event_outcome(main, event),
        SideMenu::event_outcome(side, event),
    ]);
    let step = handling::<Component>(event);
    let after = tree.map(step);
    assert(after.sub_layout[0] == menus.map(step));
    assert(menus.map(step).widgets[0].component == step(menus.widgets[0].component));
    assert(menus.map(step).widgets[1].component == step(menus.widgets[1].component));
    assert(after.widgets[0].component == step(tree.widgets[0].component));
}

/// Sending a message to the main menu of the screen changes the main menu
/// alone.
pub proof fn lemma_screen_delivery_to_main(
    tree: TreeModel<ComponentModel>,
    title: TitleModel,
    main: MenuModel,
    side: MenuModel,
    message: MessageModel,
)
    requires
        is_screen(tree, title, main, side),
    ensures
        is_screen(
            delivered::<Component>(tree, main_menu_path(), message),
            title,
            MainMenu::after_message(main, message),
            side,
        ),
{
    let step = taking::<Component>(message);
    let path = main_menu_path();
    assert(path.sub_layouts.drop_first() =~= Seq::<usize>::empty());
    let menus = tree.sub_layout[0];
    let inner = menus.update_at(path.sub_layouts.drop_first(), 0, step);
    assert(inner.widgets[0].component == step(menus.widgets[0].component));
    assert(inner.widgets[1] == menus.widgets[1]);
    let outer = tree.update_at(path.sub_layouts, 0, step);
    assert(outer.sub_layout[0] == inner);
}

/// Sending a message to the side menu of the screen changes the side menu
/// alone.
pub proof fn lemma_screen_delivery_to_side(
    tree: TreeModel<ComponentModel>,
    title: TitleModel,
    main: MenuModel,
    side: MenuModel,
    message: MessageModel,
)
    requires
        is_screen(tree, title, main, side),
    ensures
        is_screen(
            delivered::<Component>(tree, side_menu_path(), message),
            title,
            main,
            SideMenu::after_message(side, message),
        ),
{
    let step = taking::<Component>(message);
    let path = side_menu_path();
    assert(path.sub_layouts.drop_first() =~= Seq::<usize>::empty());
    let menus = tree.sub_layout[0];
    let inner = menus.update_at(path.sub_layouts.drop_first(), 1, step);
    assert(inner.widgets[1].component == step(menus.widgets[1].component));
    assert(inner.widgets[0] == menus.widgets[0]);
    let outer = tree.update_at(path.sub_layouts, 1, step);
    assert(outer.sub_layout[0] == inner);
}

/// A frame of the runtime on the screen of the application does to the two
/// menus what `menus_after_frame` says, and leaves the title as it is.
pub proof fn lemma_screen_frame(
    tree: TreeModel<ComponentModel>,
    title: TitleModel,
    main: MenuModel,
    side: MenuModel,
    event: Event,
)
    requires
        is_screen(tree, title, main, side),
    ensures
        is_screen(
            after_frame::<Component>(tree, Some(event)).tree,
            title,
            menus_after_frame(main, side, event).0,
            menus_after_frame(main, side, event).1,
        ),
        after_frame::<Component>(tree, Some(event)).running == !(MainMenu::event_outcome(main, event)
            == Ok::<Option<RequestModel>, Seq<char>>(Some(RequestModel::Quit))),
        after_frame::<Component>(tree, Some(event)).host == if asks_for_decks(main, event) {
            seq![HostModel { directory: deck_directory(), reply_to: side_menu_path() }]
        } else {
            Seq::<HostModel>::empty()
        },
{
    lemma_screen_outcomes(tree, title, main, side, event);
    let outcomes = frame_outcomes::<Component>(tree, Some(event));
    let main_handled = MainMenu::after_event(main, event);
    let side_handled = SideMenu::after_event(side, event);
    let start = Progress::<ComponentModel> {
        tree: handled::<Component>(tree, Some(event)),
        running: true,
        host: Seq::empty(),
    };
    reveal_with_fuel(carry_out_all, 4);
    let at_start = carry_out_all::<Component>(start, outcomes, 0);
    let after_title = carry_out_all::<Component>(start, outcomes, 1);
    let after_main = carry_out_all::<Component>(start, outcomes, 2);
    let after_side = carry_out_all::<Component>(start, outcomes, 3);
    assert(at_start == start);
    assert(after_title == carry_out::<Component>(at_start, outcomes[0]));
    assert(after_title == start);
    assert(after_main == carry_out::<Component>(after_title, outcomes[1]));
    assert(after_main.tree == start.tree);
    assert(after_side == carry_out::<Component>(after_main, outcomes[2]));
    assert(after_side == after_frame::<Component>(tree, Some(event)));
    match SideMenu::event_outcome(side, event) {
        Ok(Some(RequestModel::Send { target, message })) => {
            assert(target == main_menu_path());
            lemma_screen_delivery_to_main(start.tree, title, main_handled, side_handled, message);
        },
        _ => {},
    }
    if asks_for_decks(main, event) {
        assert(after_main.host =~= seq![HostModel { directory: deck_directory(), reply_to: side_menu_path() }]);
    } else {
        assert(after_main.host =~= Seq::<HostModel>::empty());
    }
}

/// At most one of the two menus of the screen holds the focus after a frame
/// of the runtime, where at most one held it before.
pub proof fn lemma_screen_keeps_one_focus(
    tree: TreeModel<ComponentModel>,
    title: TitleModel,
    main: MenuModel,
    side: MenuModel,
    event: Event,
)
    requires
        is_screen(tree, title, main, side),
        !(main.focus && side.focus),
    ensures
        exists|main_after: MenuModel, side_after: MenuModel|
            is_screen(after_frame::<Component>(tree, Some(event)).tree, title, main_after, side_after)
                && !(main_after.focus && side_after.focus),
{
    lemma_screen_frame(tree, title, main, side, event);
    lemma_frame_keeps_one_focus(main, side, event);
    let after = menus_after_frame(main, side, event);
    assert(is_screen(after_frame::<Component>(tree, Some(event)).tree, title, after.0, after.1));
}

} // verus!
