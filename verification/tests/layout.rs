use duelist_helper::layout::{Constraint, Direction, Layout, Rect};

#[test]
fn vertical_split_gives_the_fixed_length_and_the_rest() {
    let layout = Layout::new(Direction::Vertical, vec![Constraint::Length(3), Constraint::Min(0)]);
    let regions = layout.split(Rect::new(0, 0, 80, 24));
    assert_eq!(regions, vec![Rect::new(0, 0, 80, 3), Rect::new(0, 3, 80, 21)]);
}

#[test]
fn horizontal_split_keeps_the_rows_of_the_area() {
    let layout = Layout::new(Direction::Horizontal, vec![Constraint::Length(21), Constraint::Min(0)]);
    let regions = layout.split(Rect::new(0, 3, 80, 21));
    assert_eq!(regions, vec![Rect::new(0, 3, 21, 21), Rect::new(21, 3, 59, 21)]);
}

#[test]
fn split_is_not_the_area_handed_back() {
    let area = Rect::new(2, 2, 10, 10);
    let layout = Layout::new(Direction::Vertical, vec![Constraint::Length(5), Constraint::Min(0)]);
    let regions = layout.split(area);
    assert_eq!(regions, vec![Rect::new(2, 2, 10, 5), Rect::new(2, 7, 10, 5)]);
    assert!(regions.iter().all(|r| *r != area));
}

#[test]
fn proportional_rules_share_the_space_by_weight() {
    let layout = Layout::new(Direction::Horizontal, vec![Constraint::Fill(1), Constraint::Fill(2)]);
    let regions = layout.split(Rect::new(0, 0, 30, 1));
    assert_eq!(regions, vec![Rect::new(0, 0, 10, 1), Rect::new(10, 0, 20, 1)]);
}

#[test]
fn one_region_per_rule() {
    let rules = vec![Constraint::Length(1), Constraint::Min(2), Constraint::Fill(1), Constraint::Length(4)];
    let layout = Layout::new(Direction::Horizontal, rules);
    assert_eq!(layout.len(), 4);
    assert_eq!(layout.split(Rect::new(5, 5, 40, 3)).len(), 4);
    let none = Layout::new(Direction::Vertical, vec![]);
    assert_eq!(none.split(Rect::new(0, 0, 10, 10)).len(), 0);
}

#[test]
fn regions_lie_inside_the_area_and_do_not_overlap() {
    let area = Rect::new(7, 9, 33, 11);
    let rules = vec![Constraint::Length(10), Constraint::Min(5), Constraint::Fill(3), Constraint::Length(30)];
    let regions = Layout::new(Direction::Horizontal, rules).split(area);
    let mut edge = area.x;
    for r in &regions {
        assert_eq!((r.y, r.height), (area.y, area.height));
        assert!(edge <= r.x);
        assert!(r.right() <= area.right());
        edge = r.right();
    }
}

#[test]
fn empty_area_gives_empty_regions() {
    let rules = vec![Constraint::Length(3), Constraint::Min(0), Constraint::Fill(1)];
    for area in [Rect::new(0, 0, 0, 24), Rect::new(0, 0, 80, 0), Rect::new(4, 4, 0, 0)] {
        for direction in [Direction::Horizontal, Direction::Vertical] {
            let regions = Layout::new(direction, rules.clone()).split(area);
            assert_eq!(regions.len(), 3);
            assert!(regions.iter().all(|r| r.is_empty()));
        }
    }
}

#[test]
fn fixed_lengths_may_leave_part_of_the_area_free() {
    let layout = Layout::new(Direction::Horizontal, vec![Constraint::Length(3), Constraint::Length(3)]);
    let regions = layout.split(Rect::new(0, 0, 10, 1));
    assert_eq!(regions, vec![Rect::new(0, 0, 3, 1), Rect::new(3, 0, 3, 1)]);
}

#[test]
fn fixed_length_beyond_the_area_is_cut() {
    let layout = Layout::new(Direction::Vertical, vec![Constraint::Length(30), Constraint::Min(0)]);
    let regions = layout.split(Rect::new(0, 0, 10, 8));
    assert_eq!(regions, vec![Rect::new(0, 0, 10, 8), Rect::new(0, 8, 10, 0)]);
}

#[test]
fn rect_edges_saturate() {
    let r = Rect::new(u16::MAX - 1, 3, 5, u16::MAX);
    assert_eq!(r.right(), u16::MAX);
    assert_eq!(r.bottom(), u16::MAX);
    assert!(!r.is_empty());
    assert!(Rect::new(1, 1, 0, 9).is_empty());
}

#[test]
fn default_layout_is_vertical_without_rules() {
    let layout = Layout::default();
    assert_eq!(layout.direction, Direction::Vertical);
    assert_eq!(layout.len(), 0);
}
