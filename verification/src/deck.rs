//! Deck lists: the three sections of a deck text and the card numbers in them.
//!
//! A deck text holds a main section after the marker `#main`, an extra
//! section after `#extra` and a side section after `!side`. Every row of a
//! section that consists of decimal digits alone is a card number.

use vstd::prelude::*;
use vstd::string::StrSliceExecFns;
use crate::text::{
    all_digits, chars_of, decimal_value, digits_only, find, first_occurrence, last_occurrence,
    lemma_first_occurrence, lemma_last_occurrence, lemma_line_end, line_end, parse_decimal, rfind,
    trim_range, trimmed,
};
use crate::widget::texts;

verus! {

/// Where a deck comes from.
#[derive(Debug)]
pub enum DeckFromType {
    /// The deck text itself.
    Text(String),
    /// The path of a file that holds the deck text.
    File(String),
}

/// One of the three sections of a deck text.
#[derive(Clone, Copy, Debug, PartialEq, Eq, Structural)]
pub enum DeckArea {
    Main,
    Extra,
    Side,
}

/// Why a deck text could not be read.
#[derive(Clone, Copy, Debug, PartialEq, Eq, Structural)]
pub enum DeckError {
    /// The marker that ends the section is missing, or stands at the very
    /// start of the text.
    MissingSection,
    /// The marker that ends the section stands before the one that starts it.
    SectionsOutOfOrder,
    /// A row of the section is empty.
    EmptyRow,
    /// A row of digits writes a number that does not fit in 32 bits.
    IdTooLarge,
}

/// A card: its number and its name.
#[derive(Debug)]
pub struct Card {
    pub id: u32,
    pub name: String,
}

/// A named deck with its three sections.
#[derive(Debug)]
pub struct Deck {
    name: String,
    main: Vec<Card>,
    extra: Vec<Card>,
    side: Vec<Card>,
}

/// Position of the first occurrence of `marker`, or 0 where there is none.
pub open spec fn marker_position(text: Seq<char>, marker: Seq<char>) -> int {
    match first_occurrence(text, marker) {
        Some(at) => at,
        None => 0,
    }
}

/// Start and end of the part of `text` that belongs to `area`. An end of 0
/// says that the section cannot be told.
pub open spec fn section_bounds(text: Seq<char>, area: DeckArea) -> (int, int) {
    match area {
        DeckArea::Main => (marker_position(text, "#main"@), marker_position(text, "#extra"@)),
        DeckArea::Extra => (marker_position(text, "#extra"@), marker_position(text, "!side"@)),
        DeckArea::Side => match first_occurrence(text, "!side"@) {
            Some(at) => (at, text.len() as int),
            None => (0, 0),
        },
    }
}

/// What a row contributes: nothing where it holds anything but digits, else
/// the number it writes, or the reason why it writes none.
pub open spec fn row_id(row: Seq<char>) -> Option<Result<u32, DeckError>> {
    let digits = trimmed(row);
    if !all_digits(digits) {
        None
    } else if digits.len() == 0 {
        Some(Err(DeckError::EmptyRow))
    } else if decimal_value(digits) > u32::MAX {
        Some(Err(DeckError::IdTooLarge))
    } else {
        Some(Ok(decimal_value(digits) as u32))
    }
}

/// `ids` followed by what `rest` holds, or the error of `rest`.
pub open spec fn after(ids: Seq<u32>, rest: Result<Seq<u32>, DeckError>) -> Result<Seq<u32>, DeckError> {
    match rest {
        Ok(more) => Ok(ids + more),
        Err(e) => Err(e),
    }
}

/// The card numbers in the rows of `section`, in order, or the error of the
/// first row that has one.
pub open spec fn ids_in(section: Seq<char>) -> Result<Seq<u32>, DeckError>
    decreases section.len(),
{
    let n = line_end(section);
    let rest = if 0 <= n < section.len() {
        ids_in(section.skip(n + 1))
    } else {
        Ok(Seq::empty())
    };
    match row_id(section.take(n)) {
        Some(Err(e)) => Err(e),
        Some(Ok(id)) => after(seq![id], rest),
        None => rest,
    }
}

/// The card numbers of one section of a deck text.
pub open spec fn card_ids(text: Seq<char>, area: DeckArea) -> Result<Seq<u32>, DeckError> {
    let (start, end) = section_bounds(text, area);
    if end == 0 {
        Err(DeckError::MissingSection)
    } else if start > end {
        Err(DeckError::SectionsOutOfOrder)
    } else {
        ids_in(trimmed(text.subrange(start, end)))
    }
}

/// Position of the first occurrence of `marker` in `text`, or 0.
fn position_of(text: &Vec<char>, marker: &str) -> (at: usize)
    ensures
        at == marker_position(text@, marker@),
        at <= text.len(),
{
    let pattern = chars_of(marker);
    proof {
        lemma_first_occurrence(text@, pattern@, 0);
    }
    match find(text, &pattern) {
        Some(at) => at,
        None => 0,
    }
}

/// Start and end of the part of `text` that belongs to `area`.
fn bounds_of(text: &Vec<char>, area: DeckArea) -> (r: (usize, usize))
    ensures
        (r.0 as int, r.1 as int) == section_bounds(text@, area),
        r.0 <= text.len(),
        r.1 <= text.len(),
{
    match area {
        DeckArea::Main => (position_of(text, "#main"), position_of(text, "#extra")),
        DeckArea::Extra => (position_of(text, "#extra"), position_of(text, "!side")),
        DeckArea::Side => {
            let pattern = chars_of("!side");
            proof {
                lemma_first_occurrence(text@, pattern@, 0);
            }
            match find(text, &pattern) {
                Some(at) => (at, text.len()),
                None => (0, 0),
            }
        },
    }
}

/// The card numbers in the rows of `text[start..end]`.
fn read_rows(text: &Vec<char>, start: usize, end: usize) -> (r: Result<Vec<u32>, DeckError>)
    requires
        start <= end <= text.len(),
    ensures
        match (r, ids_in(text@.subrange(start as int, end as int))) {
            (Ok(ids), Ok(expected)) => ids@ == expected,
            (Err(e), Err(expected)) => e == expected,
            _ => false,
        },
{
    let ghost whole = ids_in(text@.subrange(start as int, end as int));
    let mut ids: Vec<u32> = Vec::new();
    let mut pos: usize = start;
    proof {
        assert(Seq::<u32>::empty() + whole->Ok_0 =~= whole->Ok_0);
    }
    loop
        invariant
            start <= pos <= end <= text.len(),
            whole == ids_in(text@.subrange(start as int, end as int)),
            whole == after(ids@, ids_in(text@.subrange(pos as int, end as int))),
        decreases end - pos,
    {
        let ghost rest = text@.subrange(pos as int, end as int);
        let mut j: usize = pos;
        while j < end && text[j] != '\n'
            invariant
                pos <= j <= end <= text.len(),
                forall|k: int| pos <= k < j ==> text@[k] != '\n',
            decreases end - j,
        {
            j = j + 1;
        }
        proof {
            lemma_line_end(rest, j - pos);
            assert(rest.take(j - pos) =~= text@.subrange(pos as int, j as int));
            if j < end {
                assert(rest.skip(j - pos + 1) =~= text@.subrange(j as int + 1, end as int));
            }
        }
        let ghost later = if j < end {
            ids_in(text@.subrange(j as int + 1, end as int))
        } else {
            Ok(Seq::<u32>::empty())
        };
        assert(ids_in(rest) == match row_id(text@.subrange(pos as int, j as int)) {
            Some(Err(e)) => Err(e),
            Some(Ok(id)) => after(seq![id], later),
            None => later,
        });
        let (from, to) = trim_range(text, pos, j);
        if digits_only(text, from, to) {
            if from == to {
                return Err(DeckError::EmptyRow);
            }
            match parse_decimal(text, from, to) {
                None => {
                    return Err(DeckError::IdTooLarge);
                },
                Some(id) => {
                    proof {
                        if later is Ok {
                            assert(ids@ + (seq![id] + later->Ok_0) =~= ids@.push(id) + later->Ok_0);
                        }
                    }
                    ids.push(id);
                },
            }
        }
        if j >= end {
            proof {
                assert(ids@ + Seq::<u32>::empty() =~= ids@);
            }
            return Ok(ids);
        }
        pos = j + 1;
    }
}

impl Deck {
    /// A deck with the given name and sections.
    pub fn new(name: String, main: Vec<Card>, extra: Vec<Card>, side: Vec<Card>) -> (deck: Deck)
        ensures
            deck.name_view() == name@,
            deck.main_view() == main@,
            deck.extra_view() == extra@,
            deck.side_view() == side@,
    {
        Deck { name, main, extra, side }
    }

    /// The name of the deck.
    pub fn name(&self) -> (name: &String)
        ensures
            name@ == self.name_view(),
    {
        &self.name
    }

    /// The cards of one section of the deck.
    pub fn cards(&self, area: DeckArea) -> (cards: &Vec<Card>)
        ensures
            cards@ == match area {
                DeckArea::Main => self.main_view(),
                DeckArea::Extra => self.extra_view(),
                DeckArea::Side => self.side_view(),
            },
    {
        match area {
            DeckArea::Main => &self.main,
            DeckArea::Extra => &self.extra,
            DeckArea::Side => &self.side,
        }
    }

    pub closed spec fn name_view(&self) -> Seq<char> {
        self.name@
    }

    pub closed spec fn main_view(&self) -> Seq<Card> {
        self.main@
    }

    pub closed spec fn extra_view(&self) -> Seq<Card> {
        self.extra@
    }

    pub closed spec fn side_view(&self) -> Seq<Card> {
        self.side@
    }

    /// Reads the card numbers of one section of a deck text.
    ///
    /// The main section runs from `#main` to `#extra`, the extra section from
    /// `#extra` to `!side`, the side section from `!side` to the end of the
    /// text; a start marker that is missing stands for the start of the text.
    /// The section is trimmed and taken row by row. A trimmed row that holds
    /// digits only is a card number; any other row is passed over.
    pub fn read_deck_card_id(deck_text: &String, deck_area: DeckArea) -> (r: Result<Vec<u32>, DeckError>)
        ensures
            match (r, card_ids(deck_text@, deck_area)) {
                (Ok(ids), Ok(expected)) => ids@ == expected,
                (Err(e), Err(expected)) => e == expected,
                _ => false,
            },
    {
        let text = chars_of(deck_text.as_str());
        let (start, end) = bounds_of(&text, deck_area);
        if end == 0 {
            return Err(DeckError::MissingSection);
        }
        if start > end {
            return Err(DeckError::SectionsOutOfOrder);
        }
        let (from, to) = trim_range(&text, start, end);
        read_rows(&text, from, to)
    }
}

/// The name of the deck that the file `file_name` holds: what stands before
/// the last `.ydk` in it. A file name without `.ydk` names no deck.
pub open spec fn deck_name(file_name: Seq<char>) -> Option<Seq<char>> {
    match last_occurrence(file_name, ".ydk"@) {
        Some(at) => Some(file_name.take(at)),
        None => None,
    }
}

/// The names of the decks that the files `file_names` hold, in order.
pub open spec fn deck_names(file_names: Seq<Seq<char>>) -> Seq<Seq<char>>
    decreases file_names.len(),
{
    if file_names.len() == 0 {
        Seq::empty()
    } else {
        let before = deck_names(file_names.drop_last());
        match deck_name(file_names.last()) {
            Some(name) => before.push(name),
            None => before,
        }
    }
}

/// The name of the deck that the file `file_name` holds.
pub fn deck_name_of(file_name: &str) -> (r: Option<String>)
    ensures
        match r {
            Some(name) => deck_name(file_name@) == Some(name@),
            None => deck_name(file_name@) is None,
        },
{
    let chars = chars_of(file_name);
    let suffix = chars_of(".ydk");
    proof {
        lemma_last_occurrence(chars@, suffix@, chars@.len() as int + 1);
    }
    match rfind(&chars, &suffix) {
        Some(at) => {
            let name = file_name.substring_char(0, at).to_owned();
            proof {
                assert(file_name@.subrange(0, at as int) =~= file_name@.take(at as int));
            }
            Some(name)
        },
        None => None,
    }
}

/// The names of the decks that the files `file_names` hold, in order.
pub fn deck_names_of(file_names: &Vec<String>) -> (names: Vec<String>)
    ensures
        texts(names@) == deck_names(texts(file_names@)),
{
    let mut names: Vec<String> = Vec::new();
    let mut i: usize = 0;
    proof {
        assert(texts(file_names@).take(0) =~= Seq::<Seq<char>>::empty());
        assert(texts(names@) =~= Seq::<Seq<char>>::empty());
    }
    while i < file_names.len()
        invariant
            i <= file_names@.len(),
            texts(names@) == deck_names(texts(file_names@).take(i as int)),
        decreases file_names.len() - i,
    {
        let ghost before = texts(names@);
        let ghost prefix = texts(file_names@).take(i + 1);
        proof {
            assert(prefix.drop_last() =~= texts(file_names@).take(i as int));
            assert(prefix.last() == file_names@[i as int]@);
        }
        match deck_name_of(file_names[i].as_str()) {
            Some(name) => {
                names.push(name);
                proof {
                    assert(texts(names@) =~= before.push(name@));
                }
            },
            None => {},
        }
        i = i + 1;
    }
    proof {
        assert(texts(file_names@).take(file_names@.len() as int) =~= texts(file_names@));
    }
    names
}

/// The error of the `regex` crate.
#[verifier::external_type_specification]
#[verifier::external_body]
pub struct ExPatternError(regex::Error);

/// Whether `regex::Regex::new` accepts `pattern`.
pub uninterp spec fn pattern_compiles(pattern: Seq<char>) -> bool;

/// What the first group of `pattern` captures in the leftmost match of
/// `pattern` in `text`, as `regex::Regex::captures` finds it: nothing where
/// there is no match, and an absent group where the match leaves the group
/// out.
pub uninterp spec fn first_group(pattern: Seq<char>, text: Seq<char>) -> Option<Option<Seq<char>>>;

/// The mathematical value of what a search captured.
pub open spec fn capture_model(capture: Option<Option<String>>) -> Option<Option<Seq<char>>> {
    match capture {
        Some(Some(content)) => Some(Some(content@)),
        Some(None) => Some(None),
        None => None,
    }
}

/// Calls `regex::Regex::new` on `pattern` and, where that succeeds,
/// `Regex::captures` on `text`, and copies out what group 1 holds.
///
/// Both results depend on the two texts alone. The contract gives them their
/// names and claims nothing else of them.
#[verifier::external_body]
fn search_first_group(pattern: &str, text: &str) -> (r: Result<Option<Option<String>>, regex::Error>)
    ensures
        r is Ok == pattern_compiles(pattern@),
        r matches Ok(capture) ==> capture_model(capture) == first_group(pattern@, text@),
{
    match regex::Regex::new(pattern) {
        Ok(compiled) => Ok(compiled.captures(text).map(|found| found.get(1).map(|m| m.as_str().to_string()))),
        Err(e) => Err(e),
    }
}

/// Why the name of a card could not be read from its page.
#[derive(Clone, Copy, Debug, PartialEq, Eq, Structural)]
pub enum CardError {
    /// The pattern for the heading was not accepted.
    Pattern,
    /// The page holds no heading of the expected form.
    NoMatch,
    /// The heading was found, but not its content.
    NoContent,
}

/// The pattern of the heading that holds the name of a card on its page.
pub open spec fn heading_pattern() -> Seq<char> {
    "<h2><span>(.*)</span>"@
}

impl Card {
    /// The card `id` with the name that the search of its page captured.
    pub fn from_capture(id: u32, capture: Option<Option<String>>) -> (r: Result<Card, CardError>)
        ensures
            match capture {
                Some(Some(content)) => r matches Ok(card) && card.id == id && card.name@ == content@,
                Some(None) => r == Err::<Card, CardError>(CardError::NoContent),
                None => r == Err::<Card, CardError>(CardError::NoMatch),
            },
    {
        match capture {
            Some(Some(content)) => Ok(Card { id, name: content }),
            Some(None) => Err(CardError::NoContent),
            None => Err(CardError::NoMatch),
        }
    }

    /// The card `id` with the name that its page gives it: what stands in
    /// the first heading of the form `<h2><span>..</span>` of the page.
    pub fn from_page(id: u32, page: &str) -> (r: Result<Card, CardError>)
        ensures
            match r {
                Ok(card) => pattern_compiles(heading_pattern()) && card.id == id && first_group(
                    heading_pattern(),
                    page@,
                ) == Some(Some(card.name@)),
                Err(CardError::Pattern) => !pattern_compiles(heading_pattern()),
                Err(CardError::NoMatch) => pattern_compiles(heading_pattern()) && first_group(
                    heading_pattern(),
                    page@,
                ) is None,
                Err(CardError::NoContent) => pattern_compiles(heading_pattern()) && first_group(
                    heading_pattern(),
                    page@,
                ) == Some(None::<Seq<char>>),
            },
    {
        match search_first_group("<h2><span>(.*)</span>", page) {
            Ok(capture) => Card::from_capture(id, capture),
            Err(_) => Err(CardError::Pattern),
        }
    }
}

} // verus!
