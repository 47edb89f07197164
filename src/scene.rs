//! The picture layers and the scene compositor: which glyph is drawn where,
//! and in which order.

use vstd::prelude::*;
use crate::fog::{reveal_box, RevealTracker};
use crate::input::{cell_of, GameState};
use crate::text::{all_lines, lines_view, paginate, window, TEXT_AREA_WIDTH, VISIBLE_LINES};
use crate::viewport::{spec_cell_rect, CellRect, Viewport, GRID_COLS, GRID_ROWS};

verus! {
/// The static frame drawn behind everything.
pub open spec fn background_art() -> Seq<Seq<char>> {
    seq![
        "########################################"@,
        "#                                      #"@,
        "#                                      #"@,
        "#                                      #"@,
        "#                                      #"@,
        "#                                      #"@,
        "#                                      #"@,
        "                                        "@,
        "                                        "@,
        "                                        "@,
        "                                        "@,
        "                                        "@,
        "                                        "@,
        "                                        "@,
        "                                        "@,
        "########################################"@,
        "#                                      #"@,
        "#                                      #"@,
        "#                                      #"@,
        "#                                      #"@,
        "#                                      #"@,
        "#                                      #"@,
        "#                                      #"@,
        "#                                      #"@,
        "########################################"@,
    ]
}

/// The landscape, shown only where the character has been near.
pub open spec fn landscape_art() -> Seq<Seq<char>> {
    seq![
        "                                        "@,
        "                ▒▒                      "@,
        "                ▒▒▒▒          ♠♠♠       "@,
        "               ▒▒▒▒▒▒▒▒▒     ♠♠♠♠♠      "@,
        "               ▒ Sheep ▒     ♠tree♠ ♠   "@,
        "               ▒ Shop  ▒      ♠♠♠ ♠♠♠♠  "@,
        "               ▒▒▒▒▒▒▒▒▒       │ ♠╱♠♠♠  "@,
        "               ▒▒▒▒▒▒▒▒▒       │ ╱ ♠♠   "@,
        "               ▒    ▒▒▒▒     ♠♠│╱       "@,
        "               ▒    ▒  ▒     ♠Y│        "@,
        "               ▒    ▒  ▒      ││        "@,
        " START         ▒    ▒▒▒▒      ╰│        "@,
        "   │           ▒    ▒▒▒▒       │        "@,
        "   │           ▒    ▒▒▒▒       │        "@,
        "   │           ▒    ▒▒▒▒       │        "@,
        "                                        "@,
        "                                        "@,
        "                                        "@,
        "                                        "@,
        "                                        "@,
        "                                        "@,
        "                                        "@,
        "                                        "@,
        "                                        "@,
        "                                        "@,
    ]
}

/// The character's sprite.
pub open spec fn character_art() -> Seq<Seq<char>> {
    seq![
        " ╭#╮ "@,
        " ○ ○ "@,
        " │u│ "@,
        " ╰▅╯ "@,
        " ╭▒╮ "@,
        " ▗▒▖ "@,
        " @ @ "@,
    ]
}

/// The static frame drawn behind everything. One string per row.
pub fn get_background_picture() -> (r: Vec<String>)
    ensures
        lines_view(r@) == background_art(),
{
    let rows = vec![
        String::from_str("########################################"),
        String::from_str("#                                      #"),
        String::from_str("#                                      #"),
        String::from_str("#                                      #"),
        String::from_str("#                                      #"),
        String::from_str("#                                      #"),
        String::from_str("#                                      #"),
        String::from_str("                                        "),
        String::from_str("                                        "),
        String::from_str("                                        "),
        String::from_str("                                        "),
        String::from_str("                                        "),
        String::from_str("                                        "),
        String::from_str("                                        "),
        String::from_str("                                        "),
        String::from_str("########################################"),
        String::from_str("#                                      #"),
        String::from_str("#                                      #"),
        String::from_str("#                                      #"),
        String::from_str("#                                      #"),
        String::from_str("#                                      #"),
        String::from_str("#                                      #"),
        String::from_str("#                                      #"),
        String::from_str("#                                      #"),
        String::from_str("########################################"),
    ];
    assert(lines_view(rows@) =~= background_art());
    rows
}

/// The landscape, shown only where the character has been near. One string per row.
pub fn get_landscape_picture() -> (r: Vec<String>)
    ensures
        lines_view(r@) == landscape_art(),
{
    let rows = vec![
        String::from_str("                                        "),
        String::from_str("                ▒▒                      "),
        String::from_str("                ▒▒▒▒          ♠♠♠       "),
        String::from_str("               ▒▒▒▒▒▒▒▒▒     ♠♠♠♠♠      "),
        String::from_str("               ▒ Sheep ▒     ♠tree♠ ♠   "),
        String::from_str("               ▒ Shop  ▒      ♠♠♠ ♠♠♠♠  "),
        String::from_str("               ▒▒▒▒▒▒▒▒▒       │ ♠╱♠♠♠  "),
        String::from_str("               ▒▒▒▒▒▒▒▒▒       │ ╱ ♠♠   "),
        String::from_str("               ▒    ▒▒▒▒     ♠♠│╱       "),
        String::from_str("               ▒    ▒  ▒     ♠Y│        "),
        String::from_str("               ▒    ▒  ▒      ││        "),
        String::from_str(" START         ▒    ▒▒▒▒      ╰│        "),
        String::from_str("   │           ▒    ▒▒▒▒       │        "),
        String::from_str("   │           ▒    ▒▒▒▒       │        "),
        String::from_str("   │           ▒    ▒▒▒▒       │        "),
        String::from_str("                                        "),
        String::from_str("                                        "),
        String::from_str("                                        "),
        String::from_str("                                        "),
        String::from_str("                                        "),
        String::from_str("                                        "),
        String::from_str("                                        "),
        String::from_str("                                        "),
        String::from_str("                                        "),
        String::from_str("                                        "),
    ];
    assert(lines_view(rows@) =~= landscape_art());
    rows
}

/// The character's sprite. One string per row.
pub fn get_character_picture() -> (r: Vec<String>)
    ensures
        lines_view(r@) == character_art(),
{
    let rows = vec![
        String::from_str(" ╭#╮ "),
        String::from_str(" ○ ○ "),
        String::from_str(" │u│ "),
        String::from_str(" ╰▅╯ "),
        String::from_str(" ╭▒╮ "),
        String::from_str(" ▗▒▖ "),
        String::from_str(" @ @ "),
    ];
    assert(lines_view(rows@) =~= character_art());
    rows
}

/// The layers of the scene, from back to front. Each is drawn in one tint of
/// its own.
#[derive(Clone, Copy, Debug, PartialEq, Eq, Structural)]
pub enum Layer {
    Background,
    Landscape,
    Character,
    Text,
}

/// One glyph to draw: the character, its layer, the logical cell it covers
/// and the physical rectangle of that cell.
#[derive(Clone, Copy, Debug, PartialEq, Eq, Structural)]
pub struct Glyph {
    pub ch: char,
    pub layer: Layer,
    pub row: u32,
    pub col: u32,
    pub rect: CellRect,
}

/// Logical cell row of the first line of the dialogue box.
pub const TEXT_TOP_ROW: i64 = 16;

/// Logical cell column of the first character of each dialogue line.
pub const TEXT_LEFT_COL: i64 = 2;

/// Whether `(row, col)` lies on the logical grid.
pub open spec fn on_screen(row: int, col: int) -> bool {
    0 <= row < GRID_ROWS && 0 <= col < GRID_COLS
}

/// Whether the glyph `ch` at `(row, col)` of a picture of `layer`, placed with
/// its corner on logical cell `(row_offset, col_offset)`, is drawn: it is on
/// the grid, it is not blank (a blank cell is transparent), and, on the
/// landscape, its cell has been revealed.
pub open spec fn is_drawn(
    layer: Layer,
    ch: char,
    row: int,
    col: int,
    row_offset: int,
    col_offset: int,
    revealed: Set<(int, int)>,
) -> bool {
    &&& on_screen(row_offset + row, col_offset + col)
    &&& ch != ' '
    &&& (layer == Layer::Landscape ==> revealed.contains((row, col)))
}

/// The glyph for `ch` of `layer` on logical cell `(row, col)`.
pub open spec fn glyph_at(ch: char, layer: Layer, row: int, col: int, vp: Viewport) -> Glyph {
    Glyph { ch, layer, row: row as u32, col: col as u32, rect: spec_cell_rect(vp, row, col) }
}

/// The glyphs drawn for row `row` (characters `line`) of a picture, in column
/// order.
pub open spec fn row_glyphs(
    line: Seq<char>,
    row: int,
    layer: Layer,
    row_offset: int,
    col_offset: int,
    revealed: Set<(int, int)>,
    vp: Viewport,
) -> Seq<Glyph>
    decreases line.len(),
{
    if line.len() == 0 {
        Seq::empty()
    } else {
        let col = line.len() - 1;
        let before = row_glyphs(line.drop_last(), row, layer, row_offset, col_offset, revealed, vp);
        if is_drawn(layer, line.last(), row, col, row_offset, col_offset, revealed) {
            before.push(glyph_at(line.last(), layer, row_offset + row, col_offset + col, vp))
        } else {
            before
        }
    }
}

/// The glyphs drawn for a picture of `layer` placed with its corner on logical
/// cell `(row_offset, col_offset)`, row by row.
pub open spec fn picture_glyphs(
    picture: Seq<Seq<char>>,
    layer: Layer,
    row_offset: int,
    col_offset: int,
    revealed: Set<(int, int)>,
    vp: Viewport,
) -> Seq<Glyph>
    decreases picture.len(),
{
    if picture.len() == 0 {
        Seq::empty()
    } else {
        picture_glyphs(picture.drop_last(), layer, row_offset, col_offset, revealed, vp)
            + row_glyphs(
            picture.last(),
            picture.len() - 1,
            layer,
            row_offset,
            col_offset,
            revealed,
            vp,
        )
    }
}

/// Whether every cell of `picture`, placed with its corner on logical cell
/// `(row_offset, col_offset)`, has a logical row and column within the range
/// of `i64`. The sprite's cells are placed at the character's position, and a
/// position this close to the limit is an error of the caller, never a
/// coordinate to wrap around.
pub open spec fn placement_fits(picture: Seq<Seq<char>>, row_offset: int, col_offset: int) -> bool {
    &&& row_offset + picture.len() <= i64::MAX
    &&& forall|r: int| 0 <= r < picture.len() ==> col_offset + #[trigger] picture[r].len() <= i64::MAX
}

/// Appends the glyphs of `picture`, of `layer`, placed with its corner on
/// logical cell `(row_offset, col_offset)`. Cells that fall off the grid are
/// skipped, however far off they are.
pub fn push_picture(
    out: &mut Vec<Glyph>,
    picture: &Vec<String>,
    layer: Layer,
    row_offset: i64,
    col_offset: i64,
    fog: &RevealTracker,
    vp: &Viewport,
)
    requires
        layer == Layer::Character ==> placement_fits(
            lines_view(picture@),
            row_offset as int,
            col_offset as int,
        ),
    ensures
        final(out)@ == old(out)@ + picture_glyphs(
            lines_view(picture@),
            layer,
            row_offset as int,
            col_offset as int,
            fog@,
            *vp,
        ),
{
    let ghost pic = lines_view(picture@);
    let ghost start = out@;
    let mut row: usize = 0;
    proof {
        assert(pic.take(0) =~= Seq::<Seq<char>>::empty());
        assert(out@ =~= start + Seq::<Glyph>::empty());
    }
    while row < picture.len()
        invariant
            pic == lines_view(picture@),
            row <= picture@.len(),
            out@ == start + picture_glyphs(
                pic.take(row as int),
                layer,
                row_offset as int,
                col_offset as int,
                fog@,
                *vp,
            ),
        decreases picture@.len() - row,
    {
        let line = picture[row].as_str();
        let ghost chars = line@;
        let ghost row_start = out@;
        let n = line.unicode_len();
        let mut col: usize = 0;
        proof {
            assert(chars.take(0) =~= Seq::<char>::empty());
            assert(out@ =~= row_start + Seq::<Glyph>::empty());
        }
        while col < n
            invariant
                n == chars.len(),
                chars == line@,
                col <= n,
                out@ == row_start + row_glyphs(
                    chars.take(col as int),
                    row as int,
                    layer,
                    row_offset as int,
                    col_offset as int,
                    fog@,
                    *vp,
                ),
            decreases n - col,
        {
            let ch = line.get_char(col);
            let lrow: i128 = row_offset as i128 + row as i128;
            let lcol: i128 = col_offset as i128 + col as i128;
            let visible = 0 <= lrow && lrow < GRID_ROWS as i128 && 0 <= lcol && lcol
                < GRID_COLS as i128 && ch != ' ' && match layer {
                Layer::Landscape => fog.is_revealed(row, col),
                _ => true,
            };
            proof {
                let next = chars.take(col + 1);
                assert(next.drop_last() =~= chars.take(col as int));
                assert(next.last() == ch);
            }
            if visible {
                let rect = vp.cell_rect(lrow as u32, lcol as u32);
                out.push(Glyph { ch, layer, row: lrow as u32, col: lcol as u32, rect });
                proof {
                    assert(out@ =~= row_start + row_glyphs(
                        chars.take(col + 1),
                        row as int,
                        layer,
                        row_offset as int,
                        col_offset as int,
                        fog@,
                        *vp,
                    ));
                }
            }
            col = col + 1;
        }
        proof {
            assert(chars.take(n as int) =~= chars);
            assert(pic.take(row + 1).drop_last() =~= pic.take(row as int));
            assert(pic.take(row + 1).last() == chars);
            assert(out@ =~= start + picture_glyphs(
                pic.take(row + 1),
                layer,
                row_offset as int,
                col_offset as int,
                fog@,
                *vp,
            ));
        }
        row = row + 1;
    }
    proof {
        assert(pic.take(row as int) =~= pic);
    }
}

/// The whole frame, back to front: the background's glyphs, then the
/// landscape's where revealed, then the character's sprite with its corner
/// on cell `(char_y, char_x)`, then the dialogue lines `text_lines` in the
/// dialogue box.
pub open spec fn scene_glyphs(
    background: Seq<Seq<char>>,
    landscape: Seq<Seq<char>>,
    revealed: Set<(int, int)>,
    sprite: Seq<Seq<char>>,
    char_x: int,
    char_y: int,
    text_lines: Seq<Seq<char>>,
    vp: Viewport,
) -> Seq<Glyph> {
    picture_glyphs(background, Layer::Background, 0, 0, revealed, vp) + picture_glyphs(
        landscape,
        Layer::Landscape,
        0,
        0,
        revealed,
        vp,
    ) + picture_glyphs(sprite, Layer::Character, char_y, char_x, revealed, vp) + picture_glyphs(
        text_lines,
        Layer::Text,
        TEXT_TOP_ROW as int,
        TEXT_LEFT_COL as int,
        revealed,
        vp,
    )
}

/// Lists the glyphs of one frame in drawing order. The character may stand
/// anywhere off the grid (those of its cells are skipped), as long as its
/// cells' coordinates stay within the range of `i64`.
pub fn compose_scene(
    background: &Vec<String>,
    landscape: &Vec<String>,
    fog: &RevealTracker,
    sprite: &Vec<String>,
    char_x: i64,
    char_y: i64,
    text_lines: &Vec<String>,
    vp: &Viewport,
) -> (r: Vec<Glyph>)
    requires
        placement_fits(lines_view(sprite@), char_y as int, char_x as int),
    ensures
        r@ == scene_glyphs(
            lines_view(background@),
            lines_view(landscape@),
            fog@,
            lines_view(sprite@),
            char_x as int,
            char_y as int,
            lines_view(text_lines@),
            *vp,
        ),
{
    let mut out: Vec<Glyph> = Vec::new();
    push_picture(&mut out, background, Layer::Background, 0, 0, fog, vp);
    push_picture(&mut out, landscape, Layer::Landscape, 0, 0, fog, vp);
    push_picture(&mut out, sprite, Layer::Character, char_y, char_x, fog, vp);
    push_picture(&mut out, text_lines, Layer::Text, TEXT_TOP_ROW, TEXT_LEFT_COL, fog, vp);
    proof {
        assert(out@ =~= scene_glyphs(
            lines_view(background@),
            lines_view(landscape@),
            fog@,
            lines_view(sprite@),
            char_x as int,
            char_y as int,
            lines_view(text_lines@),
            *vp,
        ));
    }
    out
}

/// Builds one frame for `state`: first reveals the landscape around the
/// character, then lists the glyphs of all layers, with the dialogue box
/// showing the wrapped `dialogue` from line `state.scroll` on. The sprite's
/// cells must have coordinates within the range of `i64`.
pub fn render_frame(
    state: &GameState,
    fog: &mut RevealTracker,
    background: &Vec<String>,
    landscape: &Vec<String>,
    sprite: &Vec<String>,
    dialogue: &Vec<String>,
    vp: &Viewport,
) -> (r: Vec<Glyph>)
    requires
        placement_fits(lines_view(sprite@), state.char_y as int, cell_of(state.char_x_sub)),
    ensures
        final(fog)@ == old(fog)@.union(
            reveal_box(
                old(fog).spec_rows() as int,
                old(fog).spec_cols() as int,
                cell_of(state.char_x_sub),
                state.char_y as int,
            ),
        ),
        final(fog).spec_rows() == old(fog).spec_rows(),
        final(fog).spec_cols() == old(fog).spec_cols(),
        r@ == scene_glyphs(
            lines_view(background@),
            lines_view(landscape@),
            final(fog)@,
            lines_view(sprite@),
            cell_of(state.char_x_sub),
            state.char_y as int,
            window(
                all_lines(lines_view(dialogue@), TEXT_AREA_WIDTH as nat),
                state.scroll as nat,
                VISIBLE_LINES as nat,
            ),
            *vp,
        ),
{
    let char_x = state.char_cell_x();
    fog.update(char_x, state.char_y);
    let shown = paginate(dialogue, TEXT_AREA_WIDTH, VISIBLE_LINES, state.scroll);
    compose_scene(background, landscape, fog, sprite, char_x, state.char_y, &shown, vp)
}

proof fn lemma_row_glyphs_on_screen(
    line: Seq<char>,
    row: int,
    layer: Layer,
    row_offset: int,
    col_offset: int,
    revealed: Set<(int, int)>,
    vp: Viewport,
)
    ensures
        forall|i: int|
            0 <= i < row_glyphs(line, row, layer, row_offset, col_offset, revealed, vp).len()
                ==> on_screen(
                #[trigger] row_glyphs(
                    line,
                    row,
                    layer,
                    row_offset,
                    col_offset,
                    revealed,
                    vp,
                )[i].row as int,
                row_glyphs(line, row, layer, row_offset, col_offset, revealed, vp)[i].col as int,
            ),
    decreases line.len(),
{
    if line.len() > 0 {
        lemma_row_glyphs_on_screen(
            line.drop_last(),
            row,
            layer,
            row_offset,
            col_offset,
            revealed,
            vp,
        );
    }
}

/// Nothing is drawn off the grid: every glyph listed for a picture, placed
/// anywhere, lies on a logical cell in `[0, 25) x [0, 40)`.
pub proof fn lemma_glyphs_on_screen(
    picture: Seq<Seq<char>>,
    layer: Layer,
    row_offset: int,
    col_offset: int,
    revealed: Set<(int, int)>,
    vp: Viewport,
)
    ensures
        forall|i: int|
            0 <= i < picture_glyphs(picture, layer, row_offset, col_offset, revealed, vp).len()
                ==> on_screen(
                #[trigger] picture_glyphs(
                    picture,
                    layer,
                    row_offset,
                    col_offset,
                    revealed,
                    vp,
                )[i].row as int,
                picture_glyphs(picture, layer, row_offset, col_offset, revealed, vp)[i].col as int,
            ),
    decreases picture.len(),
{
    if picture.len() > 0 {
        let rest = picture.drop_last();
        lemma_glyphs_on_screen(rest, layer, row_offset, col_offset, revealed, vp);
        lemma_row_glyphs_on_screen(
            picture.last(),
            picture.len() - 1,
            layer,
            row_offset,
            col_offset,
            revealed,
            vp,
        );
        let a = picture_glyphs(rest, layer, row_offset, col_offset, revealed, vp);
        let b = row_glyphs(
            picture.last(),
            picture.len() - 1,
            layer,
            row_offset,
            col_offset,
            revealed,
            vp,
        );
        let all = picture_glyphs(picture, layer, row_offset, col_offset, revealed, vp);
        assert forall|i: int| 0 <= i < all.len() implies on_screen(
            #[trigger] all[i].row as int,
            all[i].col as int,
        ) by {
            if i < a.len() {
                assert(all[i] == a[i]);
            } else {
                assert(all[i] == b[i - a.len()]);
            }
        }
    }
}

} // verus!
