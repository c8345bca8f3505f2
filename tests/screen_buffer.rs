use telminal::screen::{diff, CellChange, Character, ScreenBuffer};
use telminal::style::{Color, Style};

fn cell(fg: Color, bg: Color, glyph: &str) -> Character {
    Character { foreground_color: fg, background_color: bg, character: String::from(glyph) }
}

fn positions(changes: &[CellChange]) -> Vec<(usize, usize)> {
    changes.iter().map(|c| (c.x, c.y)).collect()
}

#[test]
fn new_buffer_holds_default_cells() {
    let buf = ScreenBuffer::new(3, 2, Character::default());
    assert_eq!(buf.width(), 3);
    assert_eq!(buf.height(), 2);
    assert_eq!(buf.iter().count(), 6);
    for c in buf.iter() {
        assert_eq!(c.foreground_color, Color::Reset);
        assert_eq!(c.background_color, Color::Reset);
        assert_eq!(c.character, " ");
    }
}

#[test]
fn default_character_is_blank() {
    let c = Character::default();
    assert!(c == cell(Color::Reset, Color::Reset, " "));
}

#[test]
fn characters_equal_only_when_all_fields_match() {
    let a = cell(Color::Red, Color::Blue, "x");
    assert!(a == cell(Color::Red, Color::Blue, "x"));
    assert!(a != cell(Color::Green, Color::Blue, "x"));
    assert!(a != cell(Color::Red, Color::Reset, "x"));
    assert!(a != cell(Color::Red, Color::Blue, "y"));
    assert!(cell(Color::Rgb { r: 1, g: 2, b: 3 }, Color::Reset, " ")
        != cell(Color::Rgb { r: 1, g: 2, b: 4 }, Color::Reset, " "));
}

#[test]
fn set_glyph_keeps_colors_and_touches_one_cell() {
    let mut buf = ScreenBuffer::new(3, 2, cell(Color::Red, Color::Blue, " "));
    buf.set_glyph(2, 1, String::from("z"));
    assert_eq!(buf.get(2, 1).character, "z");
    assert_eq!(buf.get(2, 1).foreground_color, Color::Red);
    assert_eq!(buf.get(2, 1).background_color, Color::Blue);
    let glyphs: Vec<&str> = buf.iter().map(|c| c.character.as_str()).collect();
    assert_eq!(glyphs, vec![" ", " ", " ", " ", " ", "z"]);
}

#[test]
fn fill_cell_overrides_only_given_colors() {
    let mut buf = ScreenBuffer::new(2, 1, cell(Color::Red, Color::Blue, "q"));
    buf.fill_cell(0, 0, Style { color: None, background_color: Some(Color::Green) });
    let c = buf.get(0, 0);
    assert_eq!(c.foreground_color, Color::Red);
    assert_eq!(c.background_color, Color::Green);
    assert_eq!(c.character, " ");
    assert_eq!(buf.get(1, 0).character, "q");
    buf.fill_cell(1, 0, Style { color: Some(Color::White), background_color: None });
    let d = buf.get(1, 0);
    assert_eq!(d.foreground_color, Color::White);
    assert_eq!(d.background_color, Color::Blue);
}

#[test]
fn diff_of_buffer_with_itself_is_empty() {
    let mut buf = ScreenBuffer::new(4, 3, Character::default());
    buf.set_glyph(1, 2, String::from("a"));
    buf.fill_cell(3, 0, Style { color: Some(Color::Red), background_color: None });
    assert!(diff(&buf, &buf).is_empty());
    let copy = buf.clone();
    assert!(diff(&copy, &buf).is_empty());
}

#[test]
fn diff_lists_changed_cells_in_row_major_order() {
    let old = ScreenBuffer::new(3, 3, Character::default());
    let mut new = old.clone();
    new.set_glyph(2, 2, String::from("c"));
    new.set_glyph(0, 1, String::from("b"));
    new.fill_cell(1, 0, Style { color: None, background_color: Some(Color::Red) });
    new.set_glyph(2, 0, String::from(" "));
    let changes = diff(&new, &old);
    assert_eq!(positions(&changes), vec![(1, 0), (0, 1), (2, 2)]);
    assert_eq!(changes[0].cell.background_color, Color::Red);
    assert_eq!(changes[0].cell.character, " ");
    assert_eq!(changes[1].cell.character, "b");
    assert_eq!(changes[2].cell.character, "c");
}

#[test]
fn diff_reports_same_positions_both_ways() {
    let mut a = ScreenBuffer::new(5, 2, Character::default());
    let mut b = ScreenBuffer::new(5, 2, Character::default());
    a.set_glyph(4, 0, String::from("x"));
    b.set_glyph(1, 1, String::from("y"));
    b.fill_cell(4, 0, Style { color: None, background_color: Some(Color::Cyan) });
    let ab = diff(&a, &b);
    let ba = diff(&b, &a);
    assert_eq!(positions(&ab), vec![(4, 0), (1, 1)]);
    assert_eq!(positions(&ab), positions(&ba));
    assert_eq!(ab[0].cell.character, "x");
    assert_eq!(ba[0].cell.background_color, Color::Cyan);
    assert_eq!(ab[1].cell.character, " ");
    assert_eq!(ba[1].cell.character, "y");
}

#[test]
fn diff_of_empty_buffers_is_empty() {
    let a = ScreenBuffer::new(0, 0, Character::default());
    assert!(diff(&a, &a.clone()).is_empty());
}

#[test]
fn clone_copies_every_cell() {
    let mut a = ScreenBuffer::new(2, 2, Character::default());
    a.set_glyph(1, 1, String::from("k"));
    let b = a.clone();
    assert_eq!(b.width(), 2);
    assert_eq!(b.height(), 2);
    assert_eq!(b.get(1, 1).character, "k");
    assert!(diff(&a, &b).is_empty());
}
