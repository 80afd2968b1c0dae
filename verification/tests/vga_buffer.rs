use kernel_core::task::shell::test::{anim, graphics};
use kernel_core::task::shell::{can_perform, perform, ShellAction};
use kernel_core::vga_buffer::{
    line_points, Color, DisplayOp, GraphicsMode, ScreenCharacter, TextMode, Writer,
};

fn cell(character: u8) -> ScreenCharacter {
    ScreenCharacter { character, foreground: Color::White, background: Color::Black }
}

fn cursor(row: usize, col: usize) -> Vec<DisplayOp> {
    let place = row * 80 + col;
    vec![
        DisplayOp::PortWrite { port: 0x3d4, value: 0x0f },
        DisplayOp::PortWrite { port: 0x3d5, value: (place & 0xff) as u8 },
        DisplayOp::PortWrite { port: 0x3d4, value: 0x0e },
        DisplayOp::PortWrite { port: 0x3d5, value: (place >> 8) as u8 },
    ]
}

#[test]
fn colors_have_their_numbers() {
    let all = [
        Color::Black,
        Color::Blue,
        Color::Green,
        Color::Cyan,
        Color::Red,
        Color::Magenta,
        Color::Brown,
        Color::LightGrey,
        Color::DarkGrey,
        Color::LightBlue,
        Color::LightGreen,
        Color::LightCyan,
        Color::LightRed,
        Color::Pink,
        Color::Yellow,
        Color::White,
    ];
    for (number, color) in all.iter().enumerate() {
        assert_eq!(color.code() as usize, number);
        assert_eq!(Color::from_code(number as u8), *color);
        assert_eq!(Color::from_code(number as u8 | 0xf0), *color);
    }
}

#[test]
fn cells_are_decoded() {
    assert_eq!(
        ScreenCharacter::decode(0x0f41),
        ScreenCharacter { character: b'A', foreground: Color::White, background: Color::Black }
    );
    assert_eq!(
        ScreenCharacter::decode(0x4e20),
        ScreenCharacter { character: b' ', foreground: Color::Yellow, background: Color::Red }
    );
    assert_eq!(
        ScreenCharacter::decode(0xffff),
        ScreenCharacter { character: 0xff, foreground: Color::White, background: Color::White }
    );
    assert_eq!(ScreenCharacter::offset(0, 0), 0);
    assert_eq!(ScreenCharacter::offset(79, 24), 1999);
    assert_eq!(ScreenCharacter::offset(5, 2), 165);
}

#[test]
fn text_mode_starts_clean() {
    let (text, ops) = TextMode::new();
    assert_eq!(ops, vec![DisplayOp::SetTextMode, DisplayOp::ClearText]);
    assert_eq!(text.get_cursor_position(), (0, 0));
    assert_eq!(text.column_position(), 0);
}

#[test]
fn bytes_go_to_the_cursor() {
    let (mut text, _) = TextMode::new();
    let mut expected = vec![DisplayOp::WriteCharacter { col: 0, row: 0, character: cell(b'h') }];
    expected.extend(cursor(0, 1));
    assert_eq!(text.write_byte(b'h'), expected);
    assert_eq!(text.get_cursor_position(), (0, 1));
    assert_eq!(text.write_byte(b'\n'), cursor(1, 0));
    assert_eq!(text.get_cursor_position(), (1, 0));
    text.set_color(Color::Yellow, Color::Blue);
    let mut expected = vec![DisplayOp::WriteCharacter {
        col: 0,
        row: 1,
        character: ScreenCharacter {
            character: 0x01,
            foreground: Color::Yellow,
            background: Color::Blue,
        },
    }];
    expected.extend(cursor(1, 1));
    assert_eq!(text.write_byte(0x01), expected);
}

#[test]
fn a_full_row_wraps() {
    let (mut text, _) = TextMode::new();
    for _ in 0..80 {
        text.write_byte(b'x');
    }
    assert_eq!(text.get_cursor_position(), (0, 80));
    let mut expected = cursor(1, 0);
    expected.push(DisplayOp::WriteCharacter { col: 0, row: 1, character: cell(b'y') });
    expected.extend(cursor(1, 1));
    assert_eq!(text.write_byte(b'y'), expected);
    assert_eq!(text.get_cursor_position(), (1, 1));
}

#[test]
fn the_last_row_scrolls() {
    let (mut text, _) = TextMode::new();
    for _ in 0..24 {
        text.write_byte(b'\n');
    }
    assert_eq!(text.get_cursor_position(), (24, 0));
    text.write_byte(b'z');
    let ops = text.write_byte(b'\n');
    assert_eq!(ops.len(), 24 * 80 + 80 + 4);
    assert_eq!(ops[0], DisplayOp::CopyCharacter { col: 0, from_row: 1, to_row: 0 });
    assert_eq!(ops[1], DisplayOp::CopyCharacter { col: 1, from_row: 1, to_row: 0 });
    assert_eq!(ops[80], DisplayOp::CopyCharacter { col: 0, from_row: 2, to_row: 1 });
    assert_eq!(ops[1919], DisplayOp::CopyCharacter { col: 79, from_row: 24, to_row: 23 });
    assert_eq!(ops[1920], DisplayOp::WriteCharacter { col: 0, row: 24, character: cell(b' ') });
    assert_eq!(ops[1999], DisplayOp::WriteCharacter { col: 79, row: 24, character: cell(b' ') });
    assert_eq!(ops[2000..].to_vec(), cursor(24, 0));
    assert_eq!(text.get_cursor_position(), (24, 0));
}

#[test]
fn backspace_blanks_the_cell_before() {
    let (mut text, _) = TextMode::new();
    assert_eq!(text.backspace(), Vec::<DisplayOp>::new());
    text.write_string("ab");
    let mut expected = vec![DisplayOp::WriteCharacter { col: 1, row: 0, character: cell(b' ') }];
    expected.extend(cursor(0, 1));
    assert_eq!(text.backspace(), expected);
    assert_eq!(text.get_cursor_position(), (0, 1));
}

#[test]
fn strings_are_written_byte_by_byte() {
    let (mut text, _) = TextMode::new();
    let ops = text.write_string("a\u{7f}é\n~");
    let mut expected = Vec::new();
    for (col, byte) in [b'a', 0xfe, 0xfe, 0xfe].into_iter().enumerate() {
        expected.push(DisplayOp::WriteCharacter { col, row: 0, character: cell(byte) });
        expected.extend(cursor(0, col + 1));
    }
    expected.extend(cursor(1, 0));
    expected.push(DisplayOp::WriteCharacter { col: 0, row: 1, character: cell(b'~') });
    expected.extend(cursor(1, 1));
    assert_eq!(ops, expected);
    assert_eq!(text.write_string(""), Vec::<DisplayOp>::new());
}

#[test]
fn the_cursor_moves_within_the_screen() {
    let (mut text, _) = TextMode::new();
    text.set_cursor_position(24, 79);
    assert_eq!(text.get_cursor_position(), (24, 79));
    text.set_cursor_position(25, 0);
    text.set_cursor_position(0, 80);
    assert_eq!(text.get_cursor_position(), (24, 79));
    assert_eq!(text.move_cursor(3, 4), cursor(3, 4));
    assert_eq!(text.get_cursor_position(), (3, 4));
    assert_eq!(text.move_cursor(30, 4), cursor(30, 4));
    assert_eq!(text.get_cursor_position(), (3, 4));
    let mut expected = vec![DisplayOp::ClearText];
    expected.extend(cursor(0, 0));
    assert_eq!(text.clear_buffer(), expected);
    assert_eq!(text.get_cursor_position(), (0, 0));
}

#[test]
fn the_hardware_cursor_is_read_from_two_bytes() {
    assert_eq!(TextMode::get_hardware_cursor_position(0, 0), (0, 0));
    assert_eq!(TextMode::get_hardware_cursor_position(0xcf, 0x07), (24, 79));
    assert_eq!(TextMode::get_hardware_cursor_position(0x51, 0x00), (1, 1));
    assert_eq!(TextMode::get_hardware_cursor_position(0xff, 0xff), (819, 15));
}

#[test]
fn lines_run_from_start_to_end() {
    assert_eq!(line_points((3, 3), (3, 3)), vec![(3, 3)]);
    assert_eq!(line_points((0, 0), (3, 0)), vec![(0, 0), (1, 0), (2, 0), (3, 0)]);
    assert_eq!(line_points((0, 3), (0, 0)), vec![(0, 3), (0, 2), (0, 1), (0, 0)]);
    assert_eq!(line_points((0, 0), (3, 3)), vec![(0, 0), (1, 1), (2, 2), (3, 3)]);
    assert_eq!(
        line_points((0, 0), (5, 2)),
        vec![(0, 0), (1, 0), (2, 1), (3, 1), (4, 2), (5, 2)]
    );
    assert_eq!(
        line_points((5, 2), (0, 0)),
        vec![(5, 2), (4, 2), (3, 1), (2, 1), (1, 0), (0, 0)]
    );
    assert_eq!(
        line_points((1, 1), (2, 6)),
        vec![(1, 1), (1, 2), (1, 3), (2, 4), (2, 5), (2, 6)]
    );
}

fn reference_line(start: (usize, usize), end: (usize, usize)) -> Vec<(usize, usize)> {
    let dx = (end.0 as isize - start.0 as isize).abs();
    let dy = (end.1 as isize - start.1 as isize).abs();
    let sx = if start.0 < end.0 { 1 } else { -1 };
    let sy = if start.1 < end.1 { 1 } else { -1 };
    let mut err = dx - dy;
    let mut x = start.0 as isize;
    let mut y = start.1 as isize;
    let mut points = Vec::new();
    loop {
        points.push((x as usize, y as usize));
        if x == end.0 as isize && y == end.1 as isize {
            break;
        }
        let e2 = 2 * err;
        if e2 > -dy {
            err -= dy;
            x += sx;
        }
        if e2 < dx {
            err += dx;
            y += sy;
        }
    }
    points
}

#[test]
fn lines_are_bresenham_lines() {
    let corners = [(0, 0), (7, 0), (0, 7), (7, 7), (3, 5), (6, 1), (2, 2), (5, 4)];
    for start in corners {
        for end in corners {
            assert_eq!(line_points(start, end), reference_line(start, end));
        }
    }
    assert_eq!(line_points((80, 60), (540, 0)), reference_line((80, 60), (540, 0)));
    assert_eq!(line_points((80, 60), (540, 0)).len(), 461);
}

#[test]
fn graphics_mode_writes_at_its_cursor() {
    let (mut gfx, ops) = GraphicsMode::new();
    assert_eq!(
        ops,
        vec![DisplayOp::SetGraphicsMode, DisplayOp::ClearGraphics { color: Color::Black }]
    );
    assert_eq!(
        gfx.write_string("a\nb"),
        vec![
            DisplayOp::DrawCharacter { x: 0, y: 0, character: 'a', color: Color::White },
            DisplayOp::DrawCharacter { x: 0, y: 16, character: 'b', color: Color::White },
        ]
    );
    gfx.set_cursor_position(632, 32);
    gfx.set_color(Color::Green, Color::Blue);
    assert_eq!(
        gfx.write_string("éz"),
        vec![
            DisplayOp::DrawCharacter { x: 632, y: 32, character: 'é', color: Color::Green },
            DisplayOp::DrawCharacter { x: 0, y: 48, character: 'z', color: Color::Green },
        ]
    );
    assert_eq!(gfx.clear_screen(Color::Red), DisplayOp::ClearGraphics { color: Color::Red });
    assert_eq!(
        gfx.set_pixel(1, 2, Color::Pink),
        DisplayOp::SetPixel { x: 1, y: 2, color: Color::Pink }
    );
    assert_eq!(
        gfx.draw_character(3, 4, 'q', Color::Cyan),
        DisplayOp::DrawCharacter { x: 3, y: 4, character: 'q', color: Color::Cyan }
    );
    assert_eq!(
        gfx.draw_line((1, 1), (3, 2), Color::Brown),
        vec![
            DisplayOp::SetPixel { x: 1, y: 1, color: Color::Brown },
            DisplayOp::SetPixel { x: 2, y: 1, color: Color::Brown },
            DisplayOp::SetPixel { x: 3, y: 2, color: Color::Brown },
        ]
    );
}

#[test]
fn the_writer_goes_by_its_mode() {
    let (mut writer, _) = Writer::new_text();
    writer.write_string("abc");
    assert_eq!(writer.column_position(), 3);
    assert_eq!(writer.set_column_position(2), cursor(0, 2));
    assert_eq!(writer.set_column_position(80), Vec::<DisplayOp>::new());
    assert_eq!(writer.column_position(), 2);
    assert!(writer.get_graphics().is_none());
    assert!(writer.get_text().is_some());
    assert_eq!(writer.move_cursor(2, 5), cursor(2, 5));
    assert!(writer.has_room_for(usize::MAX));

    assert_eq!(
        writer.switch_to_graphics(),
        vec![DisplayOp::SetGraphicsMode, DisplayOp::ClearGraphics { color: Color::Black }]
    );
    assert!(writer.get_text().is_none());
    assert_eq!(
        writer.write_byte(b'A'),
        vec![DisplayOp::DrawCharacter { x: 0, y: 0, character: 'A', color: Color::White }]
    );
    assert_eq!(
        writer.write_byte(0xc3),
        vec![DisplayOp::DrawCharacter { x: 8, y: 0, character: '?', color: Color::White }]
    );
    assert_eq!(writer.column_position(), 2);
    writer.set_color(Color::Red, Color::Blue);
    assert_eq!(
        writer.backspace(),
        vec![DisplayOp::DrawCharacter { x: 8, y: 0, character: ' ', color: Color::Blue }]
    );
    writer.backspace();
    assert_eq!(writer.backspace(), Vec::<DisplayOp>::new());
    assert_eq!(writer.clear_buffer(), vec![DisplayOp::ClearGraphics { color: Color::Blue }]);
    assert_eq!(writer.set_column_position(100), Vec::<DisplayOp>::new());
    assert_eq!(writer.column_position(), 100);
    assert_eq!(writer.move_cursor(3, 4), Vec::<DisplayOp>::new());
    assert_eq!(
        writer.write_string("x"),
        vec![DisplayOp::DrawCharacter { x: 32, y: 48, character: 'x', color: Color::Red }]
    );
    assert!(writer.has_room_for(1000));
    assert!(!writer.has_room_for(usize::MAX));
    writer.get_graphics().unwrap().set_cursor_position(usize::MAX - 3, 0);
    assert!(!writer.has_room_for(0));
    assert_eq!(writer.switch_to_text(), vec![DisplayOp::SetTextMode, DisplayOp::ClearText]);
    let (other, ops) = Writer::new_graphics();
    assert_eq!(ops.len(), 2);
    assert_eq!(other.column_position(), 0);
}

#[test]
fn shell_actions_become_display_steps() {
    let (mut writer, _) = Writer::new_text();
    let action = ShellAction::Print("$ ".to_string());
    assert!(can_perform(&writer, &action));
    let ops = perform(&mut writer, &action);
    assert_eq!(ops.len(), 2 * 5);
    assert_eq!(ops[0], DisplayOp::WriteCharacter { col: 0, row: 0, character: cell(b'$') });
    assert_eq!(perform(&mut writer, &ShellAction::SetColumn(2)), cursor(0, 2));
    perform(&mut writer, &ShellAction::Print("x".to_string()));
    let mut expected = vec![DisplayOp::WriteCharacter { col: 2, row: 0, character: cell(b' ') }];
    expected.extend(cursor(0, 2));
    assert_eq!(perform(&mut writer, &ShellAction::Backspace), expected);
    let mut expected = vec![DisplayOp::ClearText];
    expected.extend(cursor(0, 0));
    assert_eq!(perform(&mut writer, &ShellAction::ClearScreen), expected);
    assert!(can_perform(&writer, &ShellAction::SetColumn(usize::MAX / 8)));
    assert!(!can_perform(&writer, &ShellAction::SetColumn(usize::MAX / 8 + 1)));
    assert!(can_perform(&writer, &ShellAction::PlayAnimation));
    assert!(can_perform(&writer, &ShellAction::PlayGraphics));
}

#[test]
fn the_animation_draws_a_comb() {
    let (mut writer, _) = Writer::new_text();
    writer.write_string("before\n");
    let ops = anim::play(&mut writer);
    let pauses = ops.iter().filter(|op| **op == DisplayOp::Pause { spins: 1_000_000 }).count();
    assert_eq!(pauses, 9);
    let written: Vec<(usize, usize, u8)> = ops
        .iter()
        .filter_map(|op| match op {
            DisplayOp::WriteCharacter { col, row, character } => {
                Some((*col, *row, character.character))
            }
            _ => None,
        })
        .collect();
    assert_eq!(written.len(), 10 * 15 + 9 * 14);
    assert_eq!(written[0], (0, 0, b'#'));
    assert_eq!(written[15], (0, 1, b' '));
    assert_eq!(written[16], (1, 1, b'#'));
    assert_eq!(written.last(), Some(&(14, 18, b'#')));
    assert_eq!(ops[0], DisplayOp::ClearText);
    assert_eq!(writer.get_text().unwrap().get_cursor_position(), (19, 0));
    assert_eq!(anim::BAR, "###############\n");
    assert_eq!(anim::TEETH, " #  #  #  #  #\n");
}

#[test]
fn the_graphics_demonstration_draws_a_triangle() {
    let (mut writer, _) = Writer::new_text();
    let ops = graphics::play(&mut writer);
    assert_eq!(
        ops[..3].to_vec(),
        vec![
            DisplayOp::SetGraphicsMode,
            DisplayOp::ClearGraphics { color: Color::Black },
            DisplayOp::ClearGraphics { color: Color::Black },
        ]
    );
    assert_eq!(ops[3], DisplayOp::SetPixel { x: 80, y: 60, color: Color::White });
    assert_eq!(ops[3 + 460], DisplayOp::SetPixel { x: 540, y: 0, color: Color::White });
    assert_eq!(ops[3 + 461], DisplayOp::SetPixel { x: 80, y: 60, color: Color::LightRed });
    assert_eq!(ops[3 + 461 + 460], DisplayOp::SetPixel { x: 540, y: 60, color: Color::LightRed });
    assert_eq!(ops[3 + 922], DisplayOp::SetPixel { x: 540, y: 0, color: Color::Yellow });
    assert_eq!(ops[3 + 922 + 60], DisplayOp::SetPixel { x: 540, y: 60, color: Color::Yellow });
    assert_eq!(
        ops[3 + 922 + 61..].to_vec(),
        vec![
            DisplayOp::Pause { spins: 10_000_000 },
            DisplayOp::SetTextMode,
            DisplayOp::ClearText,
        ]
    );
    assert!(writer.get_text().is_some());
}
