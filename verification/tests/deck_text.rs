use duelist_helper::deck::{Deck, DeckArea, DeckError};

fn sample() -> String {
    String::from("#created by a player\n#main\n89631139\n 89631139 \r\n55144522\n#extra\n23995346\n!side\n00000042\n")
}

#[test]
fn main_section_lists_its_card_numbers() {
    assert_eq!(Deck::read_deck_card_id(&sample(), DeckArea::Main), Ok(vec![89631139, 89631139, 55144522]));
}

#[test]
fn extra_section_lists_its_card_numbers() {
    assert_eq!(Deck::read_deck_card_id(&sample(), DeckArea::Extra), Ok(vec![23995346]));
}

#[test]
fn side_section_runs_to_the_end_of_the_text() {
    assert_eq!(Deck::read_deck_card_id(&sample(), DeckArea::Side), Ok(vec![42]));
}

#[test]
fn missing_end_marker_is_an_error() {
    let text = String::from("#main\n1\n2\n");
    assert_eq!(Deck::read_deck_card_id(&text, DeckArea::Main), Err(DeckError::MissingSection));
    assert_eq!(Deck::read_deck_card_id(&text, DeckArea::Side), Err(DeckError::MissingSection));
}

#[test]
fn end_marker_at_the_start_of_the_text_is_an_error() {
    let text = String::from("#extra\n1\n!side\n");
    assert_eq!(Deck::read_deck_card_id(&text, DeckArea::Main), Err(DeckError::MissingSection));
}

#[test]
fn markers_out_of_order_are_an_error() {
    let text = String::from("x#extra\n1\n#main\n2\n!side\n");
    assert_eq!(Deck::read_deck_card_id(&text, DeckArea::Main), Err(DeckError::SectionsOutOfOrder));
}

#[test]
fn empty_row_inside_a_section_is_an_error() {
    let text = String::from("#main\n1\n\n2\n#extra\n");
    assert_eq!(Deck::read_deck_card_id(&text, DeckArea::Main), Err(DeckError::EmptyRow));
}

#[test]
fn number_beyond_32_bits_is_an_error() {
    let text = String::from("#main\n4294967295\n4294967296\n#extra\n");
    assert_eq!(Deck::read_deck_card_id(&text, DeckArea::Main), Err(DeckError::IdTooLarge));
    let fits = String::from("#main\n4294967295\n#extra\n");
    assert_eq!(Deck::read_deck_card_id(&fits, DeckArea::Main), Ok(vec![4294967295]));
}

#[test]
fn rows_with_other_characters_are_passed_over() {
    let text = String::from("#main\n12a\n+5\n７\n 8\t\n#extra\n");
    assert_eq!(Deck::read_deck_card_id(&text, DeckArea::Main), Ok(vec![8]));
}

#[test]
fn missing_start_marker_stands_for_the_start_of_the_text() {
    let text = String::from("7\n8\n#extra\n9\n!side\n");
    assert_eq!(Deck::read_deck_card_id(&text, DeckArea::Main), Ok(vec![7, 8]));
}

#[test]
fn rows_are_trimmed_of_every_kind_of_white_space() {
    let text = String::from("#main\n\u{3000}12\u{3000}\n\u{a0}34\t\n\u{2003}5 6\n#extra\n");
    assert_eq!(Deck::read_deck_card_id(&text, DeckArea::Main), Ok(vec![12, 34]));
}

#[test]
fn the_section_itself_is_trimmed_before_it_is_split() {
    let text = String::from("\n\n  7\n8  \n\n\n#extra\n\n9\n\n!side");
    assert_eq!(Deck::read_deck_card_id(&text, DeckArea::Main), Ok(vec![7, 8]));
    assert_eq!(Deck::read_deck_card_id(&text, DeckArea::Extra), Err(DeckError::EmptyRow));
    assert_eq!(Deck::read_deck_card_id(&text, DeckArea::Side), Ok(vec![]));
}

#[test]
fn leading_zeros_do_not_change_the_number() {
    let text = String::from("#main\n0000000000000123\n0\n#extra\n");
    assert_eq!(Deck::read_deck_card_id(&text, DeckArea::Main), Ok(vec![123, 0]));
}
