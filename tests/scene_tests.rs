use fabricof::fog::RevealTracker;
use fabricof::input::GameState;
use fabricof::scene::{
    compose_scene, get_background_picture, get_character_picture, get_landscape_picture,
    push_picture, render_frame, Glyph, Layer,
};
use fabricof::text::{paginate, TEXT_AREA_WIDTH, VISIBLE_LINES};
use fabricof::viewport::{CellRect, Viewport};

fn land_rows() -> usize {
    get_landscape_picture().len()
}

fn strings(items: &[&str]) -> Vec<String> {
    items.iter().map(|s| s.to_string()).collect()
}

#[test]
fn pictures_have_their_sizes() {
    let bg = get_background_picture();
    assert_eq!(bg.len(), 25);
    assert!(bg.iter().all(|r| r.chars().count() == 40));
    assert_eq!(bg[0], "#".repeat(40));
    let land = get_landscape_picture();
    assert_eq!(land.len(), 25);
    assert!(land.iter().all(|r| r.chars().count() == 40));
    assert_eq!(land[11], " START         ▒    ▒▒▒▒      ╰│        ");
    assert!(land[15..].iter().all(|r| r.chars().all(|c| c == ' ')));
    let sprite = get_character_picture();
    assert_eq!(sprite.len(), 7);
    assert!(sprite.iter().all(|r| r.chars().count() == 5));
    assert_eq!(sprite[0], " ╭#╮ ");
}

#[test]
fn background_skips_blank_cells() {
    let fog = RevealTracker::new(0, 0);
    let vp = Viewport::new(320, 200);
    let mut out = Vec::new();
    push_picture(&mut out, &strings(&["# #", " x"]), Layer::Background, 0, 0, &fog, &vp);
    let cells: Vec<(char, u32, u32)> = out.iter().map(|g| (g.ch, g.row, g.col)).collect();
    assert_eq!(cells, vec![('#', 0, 0), ('#', 0, 2), ('x', 1, 1)]);
    assert!(out.iter().all(|g| g.layer == Layer::Background));
}

#[test]
fn glyph_carries_scaled_rect() {
    let fog = RevealTracker::new(0, 0);
    let vp = Viewport::new(640, 400);
    let mut out = Vec::new();
    push_picture(&mut out, &strings(&["x"]), Layer::Character, 2, 3, &fog, &vp);
    assert_eq!(
        out,
        vec![Glyph {
            ch: 'x',
            layer: Layer::Character,
            row: 2,
            col: 3,
            rect: CellRect { x: 48, y: 32, w: 16, h: 16 },
        }]
    );
}

#[test]
fn landscape_drawn_only_where_revealed() {
    let mut fog = RevealTracker::new(2, 20);
    fog.update(0, 0);
    let vp = Viewport::new(320, 200);
    let mut out = Vec::new();
    let land = strings(&["abcdefghij", "klmnopqrst"]);
    push_picture(&mut out, &land, Layer::Landscape, 0, 0, &fog, &vp);
    let cells: String = out.iter().map(|g| g.ch).collect();
    assert_eq!(cells, "abcdefgklmnopq");
    assert!(out.iter().all(|g| g.col <= 6));
}

#[test]
fn sprite_cell_at_column_41_is_not_drawn() {
    let fog = RevealTracker::new(0, 0);
    let vp = Viewport::new(320, 200);
    let sprite = get_character_picture();
    // Sprite column 3 lands on logical column 41.
    let mut out = Vec::new();
    push_picture(&mut out, &sprite, Layer::Character, 8, 38, &fog, &vp);
    assert!(out.iter().all(|g| g.col < 40));
    assert!(out.iter().any(|g| g.col == 39));
    let drawn: String = out.iter().map(|g| g.ch).collect();
    assert_eq!(drawn, "╭○│╰╭▗@");
}

#[test]
fn sprite_far_off_grid_draws_nothing() {
    let fog = RevealTracker::new(0, 0);
    let vp = Viewport::new(1920, 1200);
    let sprite = get_character_picture();
    for &(row, col) in [(i64::MAX - 10, i64::MAX - 10), (i64::MIN, i64::MIN), (0, 40), (25, 0), (-7, 0), (0, -5)].iter() {
        let mut out = Vec::new();
        push_picture(&mut out, &sprite, Layer::Character, row, col, &fog, &vp);
        assert!(out.is_empty());
    }
}

#[test]
fn sprite_partly_off_left_edge() {
    let fog = RevealTracker::new(0, 0);
    let vp = Viewport::new(320, 200);
    let mut out = Vec::new();
    push_picture(&mut out, &strings(&["abc"]), Layer::Character, 0, -2, &fog, &vp);
    assert_eq!(out.len(), 1);
    assert_eq!((out[0].ch, out[0].row, out[0].col), ('c', 0, 0));
}

#[test]
fn scene_layers_come_in_order() {
    let mut fog = RevealTracker::new(25, 40);
    fog.update(7, 8);
    let vp = Viewport::new(320, 200);
    let text = strings(&["hi"]);
    let glyphs = compose_scene(
        &get_background_picture(),
        &get_landscape_picture(),
        &fog,
        &get_character_picture(),
        7,
        8,
        &text,
        &vp,
    );
    let order: Vec<Layer> = glyphs.iter().map(|g| g.layer).collect();
    let first = |l: Layer| order.iter().position(|x| *x == l).unwrap();
    let last = |l: Layer| order.iter().rposition(|x| *x == l).unwrap();
    assert!(last(Layer::Background) < first(Layer::Landscape));
    assert!(last(Layer::Landscape) < first(Layer::Character));
    assert!(last(Layer::Character) < first(Layer::Text));
    let text_cells: Vec<(char, u32, u32)> = glyphs
        .iter()
        .filter(|g| g.layer == Layer::Text)
        .map(|g| (g.ch, g.row, g.col))
        .collect();
    assert_eq!(text_cells, vec![('h', 16, 2), ('i', 16, 3)]);
    // The background frame: 3 full rows of 40, and 2 side bars on 14 rows.
    assert_eq!(order.iter().filter(|l| **l == Layer::Background).count(), 3 * 40 + 14 * 2);
}

#[test]
fn moving_right_three_cells_reveals_nearby_landscape() {
    let sizes = vec![(320, 200), (640, 400)];
    let mut state = GameState::new(7, 8, 1);
    assert_eq!((state.char_cell_x(), state.char_y), (7, 8));
    let events = vec![fabricof::input::InputEvent::MoveRight];
    // 8 cells/s * 1.5 * 0.25 s = 3 cells.
    state.handle_events(&events, 250_000, &sizes, 0);
    assert_eq!(state.char_cell_x(), 10);
    let mut fog = RevealTracker::new(25, 40);
    fog.update(state.char_cell_x(), state.char_y);
    assert!(fog.is_revealed(8, 10));
    assert!(!fog.is_revealed(0, 0));
}

#[test]
fn render_frame_reveals_then_composes() {
    let state = GameState::new(7, 8, 1);
    let mut fog = RevealTracker::new(land_rows(), 40);
    let vp = Viewport::new(640, 400);
    let bg = get_background_picture();
    let land = get_landscape_picture();
    let sprite = get_character_picture();
    let dialogue = strings(&["aaa bbb ccc", "ddd"]);
    let glyphs = render_frame(&state, &mut fog, &bg, &land, &sprite, &dialogue, &vp);
    assert!(fog.is_revealed(2, 1));
    assert!(fog.is_revealed(14, 13));
    assert!(!fog.is_revealed(1, 14));
    let shown = paginate(&dialogue, TEXT_AREA_WIDTH, VISIBLE_LINES, 0);
    assert_eq!(shown, strings(&["aaa bbb ccc", "ddd"]));
    let expected = compose_scene(&bg, &land, &fog, &sprite, 7, 8, &shown, &vp);
    assert_eq!(glyphs, expected);
    // "START" sits at row 11, columns 1 to 5, inside the revealed box.
    let start: String = glyphs
        .iter()
        .filter(|g| g.layer == Layer::Landscape && g.row == 11 && g.col <= 5)
        .map(|g| g.ch)
        .collect();
    assert_eq!(start, "START");
}
