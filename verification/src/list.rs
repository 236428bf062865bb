//! What menus share: the selection of a list, and copies of lists of names.

use vstd::prelude::*;
use crate::widget::{texts, DrawingModel, Modifier, PathModel, SystemHandle, REVERSED_BIT};
use crate::layout::Rect;

verus! {

/// Which item of a list is marked, if any.
#[derive(Clone, Copy, Debug, PartialEq, Eq, Structural)]
pub struct ListState {
    pub selected: Option<usize>,
}

/// The selection after a step towards the start of the list.
pub open spec fn step_back(selected: Option<usize>) -> Option<usize> {
    match selected {
        Some(i) => if i > 0 {
            Some((i - 1) as usize)
        } else {
            selected
        },
        None => None,
    }
}

/// The selection after a step towards the end of a list of `len` items.
pub open spec fn step_forward(selected: Option<usize>, len: nat) -> Option<usize> {
    match selected {
        Some(i) => if i + 1 < len {
            Some((i + 1) as usize)
        } else {
            selected
        },
        None => None,
    }
}

impl ListState {
    /// A state with nothing selected.
    pub fn new() -> (state: ListState)
        ensures
            state.selected is None,
    {
        ListState { selected: None }
    }

    /// Marks the item at `index`, or none.
    pub fn select(&mut self, index: Option<usize>)
        ensures
            final(self).selected == index,
    {
        self.selected = index;
    }

    /// The index of the marked item.
    pub fn selected(&self) -> (index: Option<usize>)
        ensures
            index == self.selected,
    {
        self.selected
    }

    /// Moves the mark one item towards the start, where there is one.
    pub fn select_last_item(&mut self)
        ensures
            final(self).selected == step_back(old(self).selected),
    {
        if let Some(item_index) = self.selected {
            if item_index > 0 {
                self.selected = Some(item_index - 1);
            }
        }
    }

    /// Moves the mark one item towards the end of a list of `len` items,
    /// where there is one.
    pub fn select_next_item(&mut self, len: usize)
        ensures
            final(self).selected == step_forward(old(self).selected, len as nat),
    {
        if let Some(item_index) = self.selected {
            if item_index < usize::MAX && item_index + 1 < len {
                self.selected = Some(item_index + 1);
            }
        }
    }
}

/// A copy of a list of names.
pub fn copy_names(names: &Vec<String>) -> (copy: Vec<String>)
    ensures
        texts(copy@) == texts(names@),
        copy@.len() == names@.len(),
{
    let mut copy: Vec<String> = Vec::new();
    let mut i: usize = 0;
    while i < names.len()
        invariant
            i <= names@.len(),
            copy@.len() == i,
            forall|k: int| 0 <= k < i ==> copy@[k]@ == names@[k]@,
        decreases names.len() - i,
    {
        copy.push(names[i].clone());
        i = i + 1;
    }
    proof {
        assert(texts(copy@) =~= texts(names@));
    }
    copy
}

/// The mathematical value of a menu: its title and how the title is shown,
/// its items and which of them is marked, the handle of the runtime once the
/// menu is registered, and whether it holds the input focus.
pub ghost struct MenuModel {
    pub title: Seq<char>,
    pub title_style: Modifier,
    pub items: Seq<Seq<char>>,
    pub selected: Option<usize>,
    pub system: Option<SystemHandle>,
    pub focus: bool,
}

/// The attribute that marks the title of the menu that holds the focus.
pub open spec fn reversed() -> Modifier {
    Modifier { bits: REVERSED_BIT }
}

impl MenuModel {
    /// The menu with the focus taken from it.
    pub open spec fn unfocused(self) -> MenuModel {
        MenuModel { focus: false, title_style: self.title_style.spec_remove(reversed()), ..self }
    }

    /// The menu with the focus given to it.
    pub open spec fn focused(self) -> MenuModel {
        MenuModel { focus: true, title_style: self.title_style.spec_insert(reversed()), ..self }
    }

    /// What the menu shows in `area`.
    pub open spec fn shown(self, area: Rect) -> DrawingModel {
        if area.spec_is_empty() {
            DrawingModel::Blank
        } else {
            DrawingModel::List {
                title: self.title,
                title_style: self.title_style,
                items: self.items,
                selected: self.selected,
            }
        }
    }
}

/// The place of the main menu in the tree of the application.
pub open spec fn main_menu_path() -> PathModel {
    PathModel { sub_layouts: seq![0usize], widget: 0 }
}

/// The place of the side menu in the tree of the application.
pub open spec fn side_menu_path() -> PathModel {
    PathModel { sub_layouts: seq![0usize], widget: 1 }
}

} // verus!
