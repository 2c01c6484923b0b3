use glyph_grid::color::Color;
use glyph_grid::rich_text::RichText;
use glyph_grid::tile::{default_background, default_foreground};

fn rgb(r: u8, g: u8, b: u8) -> Color {
    Color::rgb(r, g, b)
}

fn text(s: &str) -> RichText {
    RichText::from_literal(String::from(s))
}

#[test]
fn flatten_length_counts_characters() {
    // Deeply nested modifiers (depth 5) around one leaf.
    let deep = text("abc")
        .fg_color(rgb(1, 1, 1))
        .bg_color(rgb(2, 2, 2))
        .fg_color(rgb(3, 3, 3))
        .bg_color(rgb(4, 4, 4))
        .fg_color(rgb(5, 5, 5));
    assert_eq!(deep.tiles().len(), 3);

    // A sequence mixing empty and non-empty leaves.
    let mixed = text("")
        .combine(text("ab").bg_color(rgb(9, 9, 9)))
        .combine(text(""))
        .combine(text("cdef"));
    assert_eq!(mixed.tiles().len(), 6);

    assert_eq!(text("").tiles().len(), 0);
}

#[test]
fn glyph_indices_are_code_points() {
    let tiles = text("az").tiles();
    assert_eq!(tiles[0].sprite, 'a' as u32);
    assert_eq!(tiles[1].sprite, 'z' as u32);
}

#[test]
fn modifier_scoping_does_not_leak() {
    let c1 = rgb(200, 10, 20);
    let seq = text("ab").fg_color(c1).combine(text("cd"));
    let tiles = seq.tiles();
    assert_eq!(tiles.len(), 4);
    assert_eq!(tiles[0].fg_color, c1);
    assert_eq!(tiles[1].fg_color, c1);
    assert_eq!(tiles[0].bg_color, default_background());
    assert_eq!(tiles[1].bg_color, default_background());
    // The modifier must not leak past its subtree.
    assert_eq!(tiles[2].fg_color, default_foreground());
    assert_eq!(tiles[3].fg_color, default_foreground());
    assert_eq!(tiles[2].bg_color, default_background());
    assert_eq!(tiles[3].bg_color, default_background());
}

#[test]
fn innermost_modifier_of_a_kind_wins() {
    let inner = rgb(10, 20, 30);
    let outer = rgb(40, 50, 60);
    let bg = rgb(70, 80, 90);
    let t = text("x").fg_color(inner).bg_color(bg).fg_color(outer);
    let tiles = t.tiles();
    assert_eq!(tiles[0].fg_color, inner);
    assert_eq!(tiles[0].bg_color, bg);
}

#[test]
fn combine_flattens_instead_of_nesting() {
    let abc = text("a").combine(text("b")).combine(text("c"));
    match abc {
        RichText::Sequence(children) => {
            assert_eq!(children.len(), 3);
            for (child, expected) in children.iter().zip(["a", "b", "c"]) {
                match child {
                    RichText::Text(s) => assert_eq!(s, expected),
                    _ => panic!("child is not a text leaf"),
                }
            }
        },
        _ => panic!("combined value is not a sequence"),
    }
}

#[test]
fn append_matches_combine() {
    let mut t = text("a");
    t.append(text("b"));
    t.append(text("c"));
    match &t {
        RichText::Sequence(children) => assert_eq!(children.len(), 3),
        _ => panic!("appended value is not a sequence"),
    }
    let tiles = t.tiles();
    assert_eq!(tiles.len(), 3);
    assert_eq!(tiles[0].sprite, 'a' as u32);
    assert_eq!(tiles[1].sprite, 'b' as u32);
    assert_eq!(tiles[2].sprite, 'c' as u32);
}
