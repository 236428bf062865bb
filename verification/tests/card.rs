use duelist_helper::deck::{deck_name_of, deck_names_of, Card, CardError, Deck};

#[test]
fn the_name_of_a_card_stands_in_the_heading_of_its_page() {
    let page = "<html><body><h2><span>青眼白龙</span></h2><p>x</p></body></html>";
    let card = Card::from_page(89631139, page).unwrap();
    assert_eq!(card.id, 89631139);
    assert_eq!(card.name, "青眼白龙");
}

#[test]
fn the_heading_is_taken_up_to_the_last_closing_tag_of_its_line() {
    let page = "<h2><span>a</span><span>b</span>\n<h2><span>c</span>";
    assert_eq!(Card::from_page(1, page).unwrap().name, "a</span><span>b");
}

#[test]
fn a_page_without_the_heading_gives_no_card() {
    assert_eq!(Card::from_page(1, "<h2>plain</h2>").err(), Some(CardError::NoMatch));
    assert_eq!(Card::from_page(1, "").err(), Some(CardError::NoMatch));
    assert_eq!(Card::from_page(1, "<h2><span>open\n</span>").err(), Some(CardError::NoMatch));
}

#[test]
fn a_capture_is_turned_into_a_card_or_into_its_error() {
    let card = Card::from_capture(7, Some(Some(String::from("seven")))).unwrap();
    assert_eq!((card.id, card.name.as_str()), (7, "seven"));
    assert_eq!(Card::from_capture(7, Some(None)).err(), Some(CardError::NoContent));
    assert_eq!(Card::from_capture(7, None).err(), Some(CardError::NoMatch));
}

#[test]
fn a_deck_name_is_what_stands_before_the_last_suffix() {
    assert_eq!(deck_name_of("blue.ydk"), Some(String::from("blue")));
    assert_eq!(deck_name_of("a.ydk.b.ydk"), Some(String::from("a.ydk.b")));
    assert_eq!(deck_name_of("red.ydk.bak"), Some(String::from("red")));
    assert_eq!(deck_name_of(".ydk"), Some(String::new()));
    assert_eq!(deck_name_of("卡组.ydk"), Some(String::from("卡组")));
    assert_eq!(deck_name_of("notes.txt"), None);
    assert_eq!(deck_name_of("ydk"), None);
    assert_eq!(deck_name_of(""), None);
}

#[test]
fn deck_names_keep_the_order_of_the_files() {
    let files = vec![String::from("b.ydk"), String::from("x"), String::from("a.ydk"), String::from("b.ydk")];
    assert_eq!(deck_names_of(&files), vec![String::from("b"), String::from("a"), String::from("b")]);
    assert!(deck_names_of(&vec![]).is_empty());
}

#[test]
fn a_deck_is_made_of_its_sections() {
    let card = Card::from_capture(1, Some(Some(String::from("one")))).unwrap();
    let deck = Deck::new(String::from("d"), vec![card], vec![], vec![]);
    assert!(format!("{:?}", deck).contains("one"));
}
