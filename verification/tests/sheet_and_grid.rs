use glyph_grid::color::Color;
use glyph_grid::draw::{DrawCommand, Rect};
use glyph_grid::error::RenderError;
use glyph_grid::grid::ScreenGrid;
use glyph_grid::rich_text::RichText;
use glyph_grid::sprite_sheet::SpriteSheet;
use glyph_grid::tile::{default_background, default_foreground, ScreenTile};

fn rgb(r: u8, g: u8, b: u8) -> Color {
    Color::rgb(r, g, b)
}

#[test]
fn sheet_geometry_from_image_size() {
    let sheet = SpriteSheet::new(128, 128, 8, 8).unwrap();
    assert_eq!(sheet.grid_width, 16);
    assert_eq!(sheet.grid_height, 16);
    assert_eq!(sheet.tile_width, 8);
    assert_eq!(sheet.tile_height, 8);
}

#[test]
fn sheet_rejects_non_divisible_geometry() {
    assert!(matches!(
        SpriteSheet::new(130, 128, 8, 8),
        Err(RenderError::NonDivisibleTileGeometry)
    ));
    assert!(matches!(
        SpriteSheet::new(128, 100, 8, 16),
        Err(RenderError::NonDivisibleTileGeometry)
    ));
}

#[test]
fn tile_rect_round_trip_on_square_sheet() {
    // A 16 x 16 sheet of 8 x 8 tiles: index i sits at column i mod 16 and
    // row i div 16.
    let n = 16u32;
    let sheet = SpriteSheet::new(128, 128, 8, 8).unwrap();
    for i in [0u32, 1, n - 1, n, n * n - 1] {
        let r = sheet.tile_rect(i);
        assert_eq!(r.x, ((i % n) * 8) as i32);
        assert_eq!(r.y, ((i / n) * 8) as i32);
        assert_eq!(r.w, 8);
        assert_eq!(r.h, 8);
    }
}

#[test]
fn tile_rect_row_uses_grid_height_as_divisor() {
    // A 4 x 2 sheet: the row of index 5 is 5 div 2 = 2, per the documented
    // addressing formula, even though the sheet has only 2 rows.
    let sheet = SpriteSheet::new(32, 16, 8, 8).unwrap();
    assert_eq!(sheet.grid_width, 4);
    assert_eq!(sheet.grid_height, 2);
    let r = sheet.tile_rect(5);
    assert_eq!(r.x, 8); // column 5 mod 4 = 1
    assert_eq!(r.y, 16); // row 5 div 2 = 2
}

#[test]
fn grid_starts_blank() {
    let grid = ScreenGrid::new(3, 2, 16, 16);
    for x in 0..3u32 {
        for y in 0..2u32 {
            let t = grid.tile(x, y);
            assert_eq!(t.sprite, 0);
            assert_eq!(t.fg_color, default_foreground());
            assert_eq!(t.bg_color, default_background());
        }
    }
}

#[test]
fn grid_set_and_get_one_cell() {
    let mut grid = ScreenGrid::new(4, 3, 8, 8);
    let t = ScreenTile { sprite: 42, fg_color: rgb(1, 2, 3), bg_color: rgb(4, 5, 6) };
    grid.set_tile(1, 2, t);
    assert_eq!(grid.tile(1, 2), t);
    assert_eq!(grid.tile(0, 0).sprite, 0);
    assert_eq!(grid.tile(2, 1).sprite, 0);
}

#[test]
fn grid_storage_stride_is_grid_height() {
    let grid = ScreenGrid::new(4, 3, 8, 8);
    assert_eq!(grid.tile_index(0, 0), 0);
    assert_eq!(grid.tile_index(2, 1), 2 * 3 + 1);
    assert_eq!(grid.tile_index(3, 2), 11);
}

#[test]
fn cell_rect_scales_by_tile_pixel_size() {
    let grid = ScreenGrid::new(30, 30, 16, 12);
    let r = grid.cell_rect(2, 3);
    assert_eq!(r, Rect { x: 32, y: 36, w: 16, h: 12 });
}

#[test]
fn write_text_end_to_end() {
    let fg = rgb(240, 40, 5);
    let bg = rgb(10, 40, 150);
    let text = RichText::from_literal(String::from("ab"))
        .fg_color(fg)
        .combine(RichText::from_literal(String::from("cd")).bg_color(bg));
    let mut grid = ScreenGrid::new(30, 30, 16, 16);
    grid.write_text(text, 1, 2);

    let a = grid.tile(1, 2);
    assert_eq!(a.sprite, 'a' as u32);
    assert_eq!(a.fg_color, fg);
    assert_eq!(a.bg_color, default_background());

    let b = grid.tile(2, 2);
    assert_eq!(b.sprite, 'b' as u32);
    assert_eq!(b.fg_color, fg);
    assert_eq!(b.bg_color, default_background());

    let c = grid.tile(3, 2);
    assert_eq!(c.sprite, 'c' as u32);
    assert_eq!(c.fg_color, default_foreground());
    assert_eq!(c.bg_color, bg);

    let d = grid.tile(4, 2);
    assert_eq!(d.sprite, 'd' as u32);
    assert_eq!(d.fg_color, default_foreground());
    assert_eq!(d.bg_color, bg);

    // Neighbors of the written run keep their default record.
    assert_eq!(grid.tile(0, 2).sprite, 0);
    assert_eq!(grid.tile(5, 2).sprite, 0);
    assert_eq!(grid.tile(1, 1).sprite, 0);
    assert_eq!(grid.tile(1, 3).sprite, 0);
}

#[test]
fn draw_commands_fill_background_before_glyph() {
    let sheet = SpriteSheet::new(128, 128, 8, 8).unwrap();
    let mut grid = ScreenGrid::new(2, 2, 16, 16);
    let t = ScreenTile { sprite: 'a' as u32, fg_color: rgb(1, 2, 3), bg_color: rgb(4, 5, 6) };
    grid.set_tile(1, 0, t);

    let cmds = grid.draw_commands(&sheet);
    assert_eq!(cmds.len(), 8);
    // Cells come out row-major; each cell issues its background fill
    // strictly before its glyph copy.
    for k in 0..4 {
        assert!(matches!(cmds[2 * k], DrawCommand::FillRect { .. }));
        assert!(matches!(cmds[2 * k + 1], DrawCommand::CopyTile { .. }));
    }
    // Cell (1, 0) is the second cell of the first row.
    let dst = Rect { x: 16, y: 0, w: 16, h: 16 };
    assert_eq!(
        cmds[2],
        DrawCommand::FillRect { color: rgb(4, 5, 6), rect: dst }
    );
    assert_eq!(
        cmds[3],
        DrawCommand::CopyTile { tint: rgb(1, 2, 3), src: sheet.tile_rect('a' as u32), dst }
    );
    // A blank cell fills with the default background and copies glyph 0.
    assert_eq!(
        cmds[0],
        DrawCommand::FillRect {
            color: default_background(),
            rect: Rect { x: 0, y: 0, w: 16, h: 16 },
        }
    );
    assert_eq!(
        cmds[1],
        DrawCommand::CopyTile {
            tint: default_foreground(),
            src: sheet.tile_rect(0),
            dst: Rect { x: 0, y: 0, w: 16, h: 16 },
        }
    );
}
