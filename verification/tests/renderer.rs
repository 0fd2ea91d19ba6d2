use linux_teasing::renderer::{get_color, picture_drawing, render, senior_tux, DrawCommand, Rgb, Shade};

fn rgb(r: u8, g: u8, b: u8) -> Rgb {
    Rgb { r, g, b }
}

#[test]
fn palette_colours() {
    assert_eq!(get_color('B'), Some(rgb(34, 34, 34)));
    assert_eq!(get_color('W'), Some(rgb(240, 240, 240)));
    assert_eq!(get_color('Y'), Some(rgb(255, 174, 0)));
    assert_eq!(get_color('G'), Some(rgb(93, 93, 93)));
    assert_eq!(get_color('C'), Some(rgb(111, 78, 55)));
    assert_eq!(get_color('Z'), Some(rgb(170, 170, 170)));
}

#[test]
fn blank_and_unknown_letters_are_transparent() {
    assert_eq!(get_color(' '), None);
    assert_eq!(get_color('b'), None);
    assert_eq!(get_color('X'), None);
}

#[test]
fn senior_tux_has_26_rows_of_36_pixels() {
    let rows = senior_tux();
    assert_eq!(rows.len(), 26);
    assert!(rows.iter().all(|r| r.len() == 36));
}

#[test]
fn render_draws_13_lines() {
    let cmds = render();
    assert_eq!(cmds.len(), 1685);
    assert_eq!(cmds.iter().filter(|c| **c == DrawCommand::LineBreak).count(), 13);
    assert_eq!(cmds.iter().filter(|c| **c == DrawCommand::UpperHalfBlock).count(), 301);
    assert_eq!(cmds.iter().filter(|c| **c == DrawCommand::Space).count(), 167);
    assert_eq!(cmds.last(), Some(&DrawCommand::LineBreak));
}

#[test]
fn render_first_pixels() {
    let cmds = render();
    for c in &cmds[0..8] {
        assert_eq!(*c, DrawCommand::Space);
    }
    assert_eq!(
        &cmds[8..13],
        &[
            DrawCommand::Foreground(Shade::Reset),
            DrawCommand::Background(Shade::Rgb(rgb(34, 34, 34))),
            DrawCommand::UpperHalfBlock,
            DrawCommand::Background(Shade::Reset),
            DrawCommand::Foreground(Shade::Reset),
        ]
    );
}

#[test]
fn odd_last_row_is_paired_with_blank() {
    let rows = vec!["BW", "W ", "Y"];
    let cmds = picture_drawing(&rows);
    let white = Shade::Rgb(rgb(240, 240, 240));
    let black = Shade::Rgb(rgb(34, 34, 34));
    let yellow = Shade::Rgb(rgb(255, 174, 0));
    let expected = vec![
        DrawCommand::Foreground(black),
        DrawCommand::Background(white),
        DrawCommand::UpperHalfBlock,
        DrawCommand::Background(Shade::Reset),
        DrawCommand::Foreground(Shade::Reset),
        DrawCommand::Foreground(white),
        DrawCommand::Background(Shade::Reset),
        DrawCommand::UpperHalfBlock,
        DrawCommand::Background(Shade::Reset),
        DrawCommand::Foreground(Shade::Reset),
        DrawCommand::LineBreak,
        DrawCommand::Foreground(yellow),
        DrawCommand::Background(Shade::Reset),
        DrawCommand::UpperHalfBlock,
        DrawCommand::Background(Shade::Reset),
        DrawCommand::Foreground(Shade::Reset),
        DrawCommand::LineBreak,
    ];
    assert_eq!(cmds, expected);
}

#[test]
fn shorter_row_is_padded_with_blanks() {
    let rows = vec!["", "  C"];
    let cmds = picture_drawing(&rows);
    assert_eq!(cmds.len(), 2 + 5 + 1);
    assert_eq!(cmds[0], DrawCommand::Space);
    assert_eq!(cmds[1], DrawCommand::Space);
    assert_eq!(cmds[2], DrawCommand::Foreground(Shade::Reset));
    assert_eq!(cmds[3], DrawCommand::Background(Shade::Rgb(rgb(111, 78, 55))));
    assert_eq!(cmds[7], DrawCommand::LineBreak);
}

#[test]
fn width_counts_utf8_bytes() {
    // "é" is two bytes: the line is two columns wide, the second one past the last character
    let rows = vec!["é"];
    let cmds = picture_drawing(&rows);
    assert_eq!(cmds, vec![DrawCommand::Space, DrawCommand::Space, DrawCommand::LineBreak]);
}

#[test]
fn empty_picture_draws_nothing() {
    let rows: Vec<&str> = vec![];
    assert!(picture_drawing(&rows).is_empty());
}

fn colours_default_before(cmds: &[DrawCommand]) -> bool {
    let fg = cmds.iter().rev().find_map(|c| match c {
        DrawCommand::Foreground(s) => Some(*s),
        _ => None,
    });
    let bg = cmds.iter().rev().find_map(|c| match c {
        DrawCommand::Background(s) => Some(*s),
        _ => None,
    });
    matches!(fg, None | Some(Shade::Reset)) && matches!(bg, None | Some(Shade::Reset))
}

#[test]
fn colours_never_bleed_into_blanks_or_line_ends() {
    let cmds = render();
    for i in 0..cmds.len() {
        if matches!(cmds[i], DrawCommand::Space | DrawCommand::LineBreak) {
            assert!(colours_default_before(&cmds[..i]), "colour left set before command {}", i);
        }
    }
    assert!(colours_default_before(&cmds));
}
