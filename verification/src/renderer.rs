//! Senior Tux as pixel art: each pair of rows of the picture becomes one
//! terminal line of upper half blocks, the top pixel in the foreground colour
//! and the bottom pixel in the background colour.
use vstd::prelude::*;

verus! {

/// A true colour.
#[derive(Debug, Clone, Copy, PartialEq, Eq, Structural)]
pub struct Rgb {
    pub r: u8,
    pub g: u8,
    pub b: u8,
}

/// A terminal colour setting: a true colour, or back to the default.
#[derive(Debug, Clone, Copy, PartialEq, Eq, Structural)]
pub enum Shade {
    Reset,
    Rgb(Rgb),
}

/// One step of drawing the picture on the terminal.
#[derive(Debug, Clone, Copy, PartialEq, Eq, Structural)]
pub enum DrawCommand {
    /// Print one blank column.
    Space,
    /// Set the foreground colour.
    Foreground(Shade),
    /// Set the background colour.
    Background(Shade),
    /// Print the upper half block (U+2580).
    UpperHalfBlock,
    /// End the terminal line.
    LineBreak,
}

/// The colour of each pixel letter of the picture; a blank or any other
/// letter is transparent.
pub open spec fn palette(c: char) -> Option<Rgb> {
    if c == 'B' {
        Some(Rgb { r: 34, g: 34, b: 34 })
    } else if c == 'W' {
        Some(Rgb { r: 240, g: 240, b: 240 })
    } else if c == 'Y' {
        Some(Rgb { r: 255, g: 174, b: 0 })
    } else if c == 'G' {
        Some(Rgb { r: 93, g: 93, b: 93 })
    } else if c == 'C' {
        Some(Rgb { r: 111, g: 78, b: 55 })
    } else if c == 'Z' {
        Some(Rgb { r: 170, g: 170, b: 170 })
    } else {
        None
    }
}

/// The colour setting for a pixel colour: transparent resets to the
/// terminal's default.
pub open spec fn shade_of(color: Option<Rgb>) -> Shade {
    match color {
        Some(c) => Shade::Rgb(c),
        None => Shade::Reset,
    }
}

/// How one column of a row pair is drawn: a blank where both pixels are
/// transparent; otherwise the top colour in front, the bottom colour behind,
/// an upper half block, and both colours reset.
pub open spec fn cell_commands(top: char, bottom: char) -> Seq<DrawCommand> {
    if palette(top) is None && palette(bottom) is None {
        seq![DrawCommand::Space]
    } else {
        seq![
            DrawCommand::Foreground(shade_of(palette(top))),
            DrawCommand::Background(shade_of(palette(bottom))),
            DrawCommand::UpperHalfBlock,
            DrawCommand::Background(Shade::Reset),
            DrawCommand::Foreground(Shade::Reset),
        ]
    }
}

/// The pixel of a row at a column, a blank past its end.
pub open spec fn pixel_at(row: Seq<char>, col: int) -> char {
    if 0 <= col < row.len() {
        row[col]
    } else {
        ' '
    }
}

/// The drawing of the first `n` columns of a row pair.
pub open spec fn columns_upto(top: Seq<char>, bottom: Seq<char>, n: nat) -> Seq<DrawCommand>
    decreases n,
{
    if n == 0 {
        Seq::empty()
    } else {
        columns_upto(top, bottom, (n - 1) as nat) + cell_commands(
            pixel_at(top, n - 1),
            pixel_at(bottom, n - 1),
        )
    }
}

/// The length of a row as `str::len` gives it: its UTF-8 bytes.
pub open spec fn byte_len(row: Seq<char>) -> nat {
    (vstd::utf8::encode_utf8(row).len() as usize) as nat
}

/// The width a row pair is drawn to: the longer of the two rows, counted in
/// UTF-8 bytes.
pub open spec fn pair_width(top: Seq<char>, bottom: Seq<char>) -> nat {
    let t = byte_len(top);
    let b = byte_len(bottom);
    if t >= b {
        t
    } else {
        b
    }
}

/// The terminal line drawn for a row pair.
pub open spec fn pair_commands(top: Seq<char>, bottom: Seq<char>) -> Seq<DrawCommand> {
    columns_upto(top, bottom, pair_width(top, bottom)).push(DrawCommand::LineBreak)
}

/// The row under row `i`, empty below the last row.
pub open spec fn row_below(rows: Seq<Seq<char>>, i: int) -> Seq<char> {
    if i + 1 < rows.len() {
        rows[i + 1]
    } else {
        Seq::empty()
    }
}

/// The drawing of the first `p` row pairs (rows 0 and 1, rows 2 and 3, ...).
pub open spec fn pairs_upto(rows: Seq<Seq<char>>, p: nat) -> Seq<DrawCommand>
    decreases p,
{
    if p == 0 {
        Seq::empty()
    } else {
        pairs_upto(rows, (p - 1) as nat) + pair_commands(
            rows[2 * (p - 1)],
            row_below(rows, 2 * (p - 1)),
        )
    }
}

/// The drawing of a whole picture: one terminal line per row pair, a last
/// odd row paired with an empty one.
pub open spec fn picture_commands(rows: Seq<Seq<char>>) -> Seq<DrawCommand> {
    pairs_upto(rows, ((rows.len() + 1) / 2) as nat)
}

/// The rows of Senior Tux, one letter per pixel.
pub open spec fn senior_tux_rows() -> Seq<Seq<char>> {
    seq![
        "           BBBBBBBBBBBB             "@,
        "        BBBWWWWWWWWWWWWBBB          "@,
        "      BBWWWWWWWWWWWWWWWWWWBB        "@,
        "     BWWW  BBB  WW  BBB  ZZBB       "@,
        "    BWWW   BBB  WW  BBB   ZZB       "@,
        "    BWWW        YY        ZZB       "@,
        "    BWWW      YYYYYY      ZZB       "@,
        "    BWWW      YYYYYY      ZZB       "@,
        "    BWWW                  ZZB       "@,
        "     BWWWWWWWWWWWWWWWWWWWWBB        "@,
        "      BBBBBBBBBBBBBBBBBBBB          "@,
        "    BBBWWWWWWWWWWWWWWWWWWBBB        "@,
        "   BWWWWWWWWWWWWWWWWWWWWWWWWB       "@,
        "  BWWWWWWWWWWWWWWWWWWWWWWWWWWB      "@,
        "  BWWWWWWW        WWWWWWWWWWWB      "@,
        " BWWWWWWWW GGGGGG WWWWWWWWWWWWB     "@,
        " BWWWWWWWW GCC CCG WWWWWWWWWWWWB    "@,
        " BWWWWWWWW GCC CCG WWWWWWWWWWWWB    "@,
        " BWWWWWWWW GGGGGGG WWWWWWWWWWWWB    "@,
        " BWWWWWWWW        WWWWWWWWWWWWWB    "@,
        " BWWWWWWWWWWWWWWWWWWWWWWWWWWWWWB    "@,
        "  BWWWWWWWWWWWWWWWWWWWWWWWWWWWB     "@,
        "   BBBBBBBBBBBBBBBBBBBBBBBBBBB      "@,
        "     YYY                 YYY        "@,
        "    YYYYY               YYYYY       "@,
        "                                    "@,
    ]
}

/// The colour that the last `Foreground` command of `cmds` sets, if any.
pub open spec fn last_foreground(cmds: Seq<DrawCommand>) -> Option<Shade>
    decreases cmds.len(),
{
    if cmds.len() == 0 {
        None
    } else {
        match cmds.last() {
            DrawCommand::Foreground(s) => Some(s),
            _ => last_foreground(cmds.drop_last()),
        }
    }
}

/// The colour that the last `Background` command of `cmds` sets, if any.
pub open spec fn last_background(cmds: Seq<DrawCommand>) -> Option<Shade>
    decreases cmds.len(),
{
    if cmds.len() == 0 {
        None
    } else {
        match cmds.last() {
            DrawCommand::Background(s) => Some(s),
            _ => last_background(cmds.drop_last()),
        }
    }
}

/// After `cmds`, both colours are the terminal's default: never set, or last
/// set to `Reset`.
pub open spec fn default_colours_after(cmds: Seq<DrawCommand>) -> bool {
    &&& (last_foreground(cmds) is None || last_foreground(cmds) == Some(Shade::Reset))
    &&& (last_background(cmds) is None || last_background(cmds) == Some(Shade::Reset))
}

/// A command that prints without colour: a blank column or a line break.
pub open spec fn is_plain(c: DrawCommand) -> bool {
    c is Space || c is LineBreak
}

/// Both colours are back to the default before every blank, before every
/// line break and at the end of `cmds`.
pub open spec fn colours_reset_when_plain(cmds: Seq<DrawCommand>) -> bool {
    forall|i: int|
        #![trigger cmds.take(i)]
        0 <= i <= cmds.len() && (i == cmds.len() || is_plain(cmds[i])) ==> default_colours_after(
            cmds.take(i),
        )
}

proof fn lemma_last_colours_append(a: Seq<DrawCommand>, b: Seq<DrawCommand>)
    ensures
        last_foreground(a + b) == (if last_foreground(b) is Some {
            last_foreground(b)
        } else {
            last_foreground(a)
        }),
        last_background(a + b) == (if last_background(b) is Some {
            last_background(b)
        } else {
            last_background(a)
        }),
    decreases b.len(),
{
    if b.len() == 0 {
        assert(a + b =~= a);
    } else {
        assert((a + b).drop_last() =~= a + b.drop_last());
        assert((a + b).last() == b.last());
        lemma_last_colours_append(a, b.drop_last());
    }
}

proof fn lemma_reset_append(a: Seq<DrawCommand>, b: Seq<DrawCommand>)
    requires
        colours_reset_when_plain(a),
        colours_reset_when_plain(b),
    ensures
        colours_reset_when_plain(a + b),
{
    let s = a + b;
    assert(a.take(a.len() as int) =~= a);
    assert forall|i: int|
        #![trigger s.take(i)]
        0 <= i <= s.len() && (i == s.len() || is_plain(s[i])) implies default_colours_after(
        s.take(i),
    ) by {
        if i < a.len() {
            assert(s[i] == a[i]);
            assert(s.take(i) =~= a.take(i));
            assert(default_colours_after(a.take(i)));
        } else if i == a.len() {
            assert(s.take(i) =~= a);
            assert(default_colours_after(a.take(a.len() as int)));
        } else {
            let j = i - a.len();
            assert(j == b.len() || s[i] == b[j]);
            assert(j == b.len() || is_plain(b[j]));
            assert(default_colours_after(b.take(j)));
            assert(default_colours_after(a.take(a.len() as int)));
            assert(s.take(i) =~= a + b.take(j));
            lemma_last_colours_append(a, b.take(j));
        }
    }
}

proof fn lemma_reset_cell(top: char, bottom: char)
    ensures
        colours_reset_when_plain(cell_commands(top, bottom)),
{
    let c = cell_commands(top, bottom);
    reveal_with_fuel(last_foreground, 6);
    reveal_with_fuel(last_background, 6);
    assert forall|i: int|
        #![trigger c.take(i)]
        0 <= i <= c.len() && (i == c.len() || is_plain(c[i])) implies default_colours_after(
        c.take(i),
    ) by {
        if i == 0 {
            assert(c.take(0) =~= Seq::<DrawCommand>::empty());
        } else if c.len() == 1 {
            assert(c.take(1) =~= c);
            assert(c.take(1).drop_last() =~= Seq::<DrawCommand>::empty());
        } else {
            assert(i == 5);
            assert(c.take(5) =~= c);
            assert(c.drop_last().drop_last() =~= c.take(3));
        }
    }
}

proof fn lemma_reset_line_break()
    ensures
        colours_reset_when_plain(seq![DrawCommand::LineBreak]),
{
    let c = seq![DrawCommand::LineBreak];
    reveal_with_fuel(last_foreground, 2);
    reveal_with_fuel(last_background, 2);
    assert(c.take(0) =~= Seq::<DrawCommand>::empty());
    assert(c.take(1) =~= c);
    assert(c.drop_last() =~= Seq::<DrawCommand>::empty());
    assert(default_colours_after(c.take(0)));
    assert(default_colours_after(c.take(1)));
}

proof fn lemma_reset_columns(top: Seq<char>, bottom: Seq<char>, n: nat)
    ensures
        colours_reset_when_plain(columns_upto(top, bottom, n)),
    decreases n,
{
    if n == 0 {
        assert(Seq::<DrawCommand>::empty().take(0) =~= Seq::<DrawCommand>::empty());
    } else {
        lemma_reset_columns(top, bottom, (n - 1) as nat);
        lemma_reset_cell(pixel_at(top, n - 1), pixel_at(bottom, n - 1));
        lemma_reset_append(
            columns_upto(top, bottom, (n - 1) as nat),
            cell_commands(pixel_at(top, n - 1), pixel_at(bottom, n - 1)),
        );
    }
}

proof fn lemma_reset_pairs(rows: Seq<Seq<char>>, p: nat)
    ensures
        colours_reset_when_plain(pairs_upto(rows, p)),
    decreases p,
{
    if p == 0 {
        assert(Seq::<DrawCommand>::empty().take(0) =~= Seq::<DrawCommand>::empty());
    } else {
        let top = rows[2 * (p - 1)];
        let bottom = row_below(rows, 2 * (p - 1));
        let cols = columns_upto(top, bottom, pair_width(top, bottom));
        lemma_reset_pairs(rows, (p - 1) as nat);
        lemma_reset_columns(top, bottom, pair_width(top, bottom));
        lemma_reset_line_break();
        lemma_reset_append(cols, seq![DrawCommand::LineBreak]);
        assert(cols.push(DrawCommand::LineBreak) =~= cols + seq![DrawCommand::LineBreak]);
        lemma_reset_append(pairs_upto(rows, (p - 1) as nat), pair_commands(top, bottom));
    }
}

/// No colour bleeds: in the drawing of any picture, both colours are back to
/// the terminal's default before every blank, before every line break and at
/// the end, since each coloured column resets both colours after its half
/// block.
pub proof fn colours_never_bleed(rows: Seq<Seq<char>>)
    ensures
        colours_reset_when_plain(picture_commands(rows)),
{
    lemma_reset_pairs(rows, ((rows.len() + 1) / 2) as nat);
}

/// A column with a coloured pixel is one upper half block: the top pixel's
/// colour in front, the bottom pixel's colour behind (each fixed by its own
/// pixel alone, whatever the other one is), then both colours reset; a
/// column of two transparent pixels is a blank.
pub proof fn half_block_colours(top: char, bottom: char)
    ensures
        palette(top) is Some || palette(bottom) is Some ==> cell_commands(top, bottom) == seq![
            DrawCommand::Foreground(shade_of(palette(top))),
            DrawCommand::Background(shade_of(palette(bottom))),
            DrawCommand::UpperHalfBlock,
            DrawCommand::Background(Shade::Reset),
            DrawCommand::Foreground(Shade::Reset),
        ],
        palette(top) is None && palette(bottom) is None ==> cell_commands(top, bottom) == seq![
            DrawCommand::Space,
        ],
{
}

/// A picture of two rows is one terminal line, the first row on top and the
/// second below; a picture of one row is that row over an empty one.
pub proof fn one_line_per_row_pair(top: Seq<char>, bottom: Seq<char>)
    ensures
        picture_commands(seq![top, bottom]) == pair_commands(top, bottom),
        picture_commands(seq![top]) == pair_commands(top, Seq::empty()),
        picture_commands(Seq::empty()) == Seq::<DrawCommand>::empty(),
{
    let two = seq![top, bottom];
    let one = seq![top];
    assert(pairs_upto(two, 0) =~= Seq::<DrawCommand>::empty());
    assert(row_below(two, 0) == bottom);
    assert(pairs_upto(two, 1) =~= pair_commands(top, bottom));
    assert(pairs_upto(one, 0) =~= Seq::<DrawCommand>::empty());
    assert(row_below(one, 0) =~= Seq::<char>::empty());
    assert(one[0] == top);
    assert(pairs_upto(one, 1) =~= pair_commands(top, Seq::empty()));
}

proof fn lemma_pairs_shift(rows: Seq<Seq<char>>, p: nat)
    requires
        rows.len() >= 2,
        2 * p <= rows.len() - 1,
    ensures
        pairs_upto(rows, p + 1) == pair_commands(rows[0], rows[1]) + pairs_upto(rows.skip(2), p),
    decreases p,
{
    let rest = rows.skip(2);
    if p == 0 {
        assert(row_below(rows, 0) == rows[1]);
        assert(pairs_upto(rows, 0) =~= Seq::<DrawCommand>::empty());
        assert(pairs_upto(rows, 1) =~= pair_commands(rows[0], rows[1]) + pairs_upto(rest, 0));
    } else {
        lemma_pairs_shift(rows, (p - 1) as nat);
        assert(rows[2 * p as int] == rest[2 * (p - 1)]);
        assert(row_below(rows, 2 * p as int) == row_below(rest, 2 * (p - 1)));
        assert(pairs_upto(rows, p + 1) == pairs_upto(rows, p) + pair_commands(
            rows[2 * p as int],
            row_below(rows, 2 * p as int),
        ));
        assert(pairs_upto(rest, p) == pairs_upto(rest, (p - 1) as nat) + pair_commands(
            rest[2 * (p - 1)],
            row_below(rest, 2 * (p - 1)),
        ));
        assert(pairs_upto(rows, p + 1) =~= pair_commands(rows[0], rows[1]) + pairs_upto(rest, p));
    }
}

/// A picture is drawn pair by pair from the top: the drawing of a picture
/// of two or more rows is the drawing of its first two rows followed by the
/// drawing of the rows after them, so every terminal line shows its upper
/// row on top, wherever it stands.
pub proof fn drawn_pair_by_pair(rows: Seq<Seq<char>>)
    requires
        rows.len() >= 2,
    ensures
        picture_commands(rows) == picture_commands(rows.take(2)) + picture_commands(rows.skip(2)),
{
    let p = ((rows.len() - 1) / 2) as nat;
    assert(((rows.len() + 1) / 2) as nat == p + 1);
    assert(((rows.skip(2).len() + 1) / 2) as nat == p);
    lemma_pairs_shift(rows, p);
    one_line_per_row_pair(rows[0], rows[1]);
    assert(rows.take(2) =~= seq![rows[0], rows[1]]);
}

/// The pixel colour of a letter of the picture.
pub fn get_color(c: char) -> (color: Option<Rgb>)
    ensures
        color == palette(c),
{
    match c {
        'B' => Some(Rgb { r: 34, g: 34, b: 34 }),
        'W' => Some(Rgb { r: 240, g: 240, b: 240 }),
        'Y' => Some(Rgb { r: 255, g: 174, b: 0 }),
        'G' => Some(Rgb { r: 93, g: 93, b: 93 }),
        'C' => Some(Rgb { r: 111, g: 78, b: 55 }),
        'Z' => Some(Rgb { r: 170, g: 170, b: 170 }),
        _ => None,
    }
}

fn shade(color: Option<Rgb>) -> (s: Shade)
    ensures
        s == shade_of(color),
{
    match color {
        Some(c) => Shade::Rgb(c),
        None => Shade::Reset,
    }
}

fn draw_cell(top: char, bottom: char, out: &mut Vec<DrawCommand>)
    ensures
        final(out)@ == old(out)@ + cell_commands(top, bottom),
{
    let top_color = get_color(top);
    let bottom_color = get_color(bottom);
    if top_color.is_none() && bottom_color.is_none() {
        out.push(DrawCommand::Space);
        return ;
    }
    out.push(DrawCommand::Foreground(shade(top_color)));
    out.push(DrawCommand::Background(shade(bottom_color)));
    out.push(DrawCommand::UpperHalfBlock);
    out.push(DrawCommand::Background(Shade::Reset));
    out.push(DrawCommand::Foreground(Shade::Reset));
}

fn pixel(row: &str, row_chars: usize, col: usize) -> (c: char)
    requires
        row_chars == row@.len(),
    ensures
        c == pixel_at(row@, col as int),
{
    if col < row_chars {
        row.get_char(col)
    } else {
        ' '
    }
}

fn draw_pair(top: &str, bottom: &str, out: &mut Vec<DrawCommand>)
    ensures
        final(out)@ == old(out)@ + pair_commands(top@, bottom@),
{
    let top_chars = top.unicode_len();
    let bottom_chars = bottom.unicode_len();
    let width = if top.len() >= bottom.len() {
        top.len()
    } else {
        bottom.len()
    };
    let ghost start = out@;
    let mut col: usize = 0;
    while col < width
        invariant
            top_chars == top@.len(),
            bottom_chars == bottom@.len(),
            width == pair_width(top@, bottom@),
            col <= width,
            out@ == start + columns_upto(top@, bottom@, col as nat),
        decreases width - col,
    {
        let t = pixel(top, top_chars, col);
        let b = pixel(bottom, bottom_chars, col);
        draw_cell(t, b, out);
        col = col + 1;
    }
    out.push(DrawCommand::LineBreak);
}

/// The drawing of a picture given as rows of pixel letters.
pub fn picture_drawing(rows: &Vec<&str>) -> (cmds: Vec<DrawCommand>)
    ensures
        cmds@ == picture_commands(rows@.map_values(|s: &str| s@)),
{
    let ghost grid = rows@.map_values(|s: &str| s@);
    let mut out: Vec<DrawCommand> = Vec::new();
    let len = rows.len();
    let pairs = len / 2 + len % 2;
    assert(pairs == (grid.len() + 1) / 2);
    let mut p: usize = 0;
    while p < pairs
        invariant
            len == rows.len(),
            pairs == (len + 1) / 2,
            grid == rows@.map_values(|s: &str| s@),
            p <= pairs,
            out@ == pairs_upto(grid, p as nat),
        decreases pairs - p,
    {
        let i = 2 * p;
        let top = rows[i];
        let bottom = if i + 1 < len {
            rows[i + 1]
        } else {
            ""
        };
        proof {
            reveal_strlit("");
        }
        assert(bottom@ == row_below(grid, i as int));
        draw_pair(top, bottom, &mut out);
        p = p + 1;
    }
    out
}

/// The rows of Senior Tux.
pub fn senior_tux() -> (rows: Vec<&'static str>)
    ensures
        rows@.map_values(|s: &str| s@) == senior_tux_rows(),
{
    let rows: Vec<&'static str> = vec![
        "           BBBBBBBBBBBB             ",
        "        BBBWWWWWWWWWWWWBBB          ",
        "      BBWWWWWWWWWWWWWWWWWWBB        ",
        "     BWWW  BBB  WW  BBB  ZZBB       ",
        "    BWWW   BBB  WW  BBB   ZZB       ",
        "    BWWW        YY        ZZB       ",
        "    BWWW      YYYYYY      ZZB       ",
        "    BWWW      YYYYYY      ZZB       ",
        "    BWWW                  ZZB       ",
        "     BWWWWWWWWWWWWWWWWWWWWBB        ",
        "      BBBBBBBBBBBBBBBBBBBB          ",
        "    BBBWWWWWWWWWWWWWWWWWWBBB        ",
        "   BWWWWWWWWWWWWWWWWWWWWWWWWB       ",
        "  BWWWWWWWWWWWWWWWWWWWWWWWWWWB      ",
        "  BWWWWWWW        WWWWWWWWWWWB      ",
        " BWWWWWWWW GGGGGG WWWWWWWWWWWWB     ",
        " BWWWWWWWW GCC CCG WWWWWWWWWWWWB    ",
        " BWWWWWWWW GCC CCG WWWWWWWWWWWWB    ",
        " BWWWWWWWW GGGGGGG WWWWWWWWWWWWB    ",
        " BWWWWWWWW        WWWWWWWWWWWWWB    ",
        " BWWWWWWWWWWWWWWWWWWWWWWWWWWWWWB    ",
        "  BWWWWWWWWWWWWWWWWWWWWWWWWWWWB     ",
        "   BBBBBBBBBBBBBBBBBBBBBBBBBBB      ",
        "     YYY                 YYY        ",
        "    YYYYY               YYYYY       ",
        "                                    ",
    ];
    assert(rows@.map_values(|s: &str| s@) =~= senior_tux_rows());
    rows
}

/// The drawing of Senior Tux.
pub fn render() -> (cmds: Vec<DrawCommand>)
    ensures
        cmds@ == picture_commands(senior_tux_rows()),
{
    picture_drawing(&senior_tux())
}

} // verus!
