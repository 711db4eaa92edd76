use typeplay::editor::{Doc, Editor, Viewport};
use typeplay::instruction::{Instruction, Rgb};
use typeplay::pacer::{pacer_action, PacerAction, DELAY_MAX_MS, DELAY_MIN_MS};

fn setup(height: usize) -> (Editor, Doc, Viewport) {
    (
        Editor::new(),
        Doc::new(String::from("demo")),
        Viewport { offset_y: 0, height },
    )
}

#[test]
fn typing_inserts_styled_cell_and_advances() {
    let (mut ed, mut doc, mut vp) = setup(5);
    ed.apply_inst(Instruction::SetForeground(Rgb { r: 9, g: 8, b: 7 }), &mut doc, &mut vp);
    ed.apply_inst(Instruction::Type('a', true), &mut doc, &mut vp);
    assert_eq!(doc.lines.len(), 1);
    assert_eq!(doc.lines[0].spans.len(), 1);
    assert_eq!(doc.lines[0].spans[0].text, 'a');
    assert_eq!(doc.lines[0].spans[0].bold, true);
    assert_eq!(doc.lines[0].spans[0].foreground, Rgb { r: 9, g: 8, b: 7 });
    assert_eq!(doc.buf_cursor_x, 1);
    assert_eq!(doc.screen_cursor_x, 1);
    assert_eq!(doc.screen_cursor_y, 0);
}

#[test]
fn typing_inserts_not_overwrites() {
    let (mut ed, mut doc, mut vp) = setup(5);
    ed.apply_inst(Instruction::Type('b', false), &mut doc, &mut vp);
    ed.apply_inst(Instruction::SetX(0), &mut doc, &mut vp);
    ed.apply_inst(Instruction::Type('a', false), &mut doc, &mut vp);
    let text: Vec<char> = doc.lines[0].spans.iter().map(|s| s.text).collect();
    assert_eq!(text, vec!['a', 'b']);
}

#[test]
fn newline_resets_column_and_pads_with_blanks() {
    let (mut ed, mut doc, mut vp) = setup(5);
    ed.apply_inst(Instruction::Newline { x: 2 }, &mut doc, &mut vp);
    assert_eq!(doc.lines.len(), 2);
    assert_eq!(doc.buf_cursor_x, 2);
    assert_eq!(doc.buf_cursor_y, 1);
    // The new row is padded with two blank cells so the cursor can sit at
    // column 2.
    assert_eq!(doc.lines[1].spans.len(), 2);
    assert_eq!(doc.lines[1].spans[0].text, ' ');
    assert_eq!(doc.lines[1].spans[1].text, ' ');
}

#[test]
fn move_cursor_below_window_scrolls_down() {
    let (mut ed, mut doc, mut vp) = setup(2);
    ed.apply_inst(Instruction::MoveCursor(0, 5), &mut doc, &mut vp);
    assert_eq!(doc.lines.len(), 6);
    assert_eq!(vp.offset_y, 4);
    assert_eq!(doc.screen_cursor_y, 1);
}

#[test]
fn move_cursor_above_window_scrolls_up() {
    let (mut ed, mut doc, mut vp) = setup(2);
    ed.apply_inst(Instruction::MoveCursor(0, 5), &mut doc, &mut vp);
    ed.apply_inst(Instruction::MoveCursor(0, 1), &mut doc, &mut vp);
    assert_eq!(vp.offset_y, 1);
    assert_eq!(doc.screen_cursor_y, 0);
}

#[test]
fn screen_row_stays_inside_window() {
    let (mut ed, mut doc, mut vp) = setup(3);
    let moves = vec![
        Instruction::MoveCursor(0, 9),
        Instruction::Type('x', false),
        Instruction::Newline { x: 0 },
        Instruction::MoveCursor(4, 0),
        Instruction::SetX(7),
    ];
    for inst in moves {
        ed.apply_inst(inst, &mut doc, &mut vp);
        assert!(doc.screen_cursor_y < vp.height);
    }
}

#[test]
fn settling_twice_publishes_the_same_cursor() {
    let (mut ed, mut doc, mut vp) = setup(2);
    ed.apply_inst(Instruction::MoveCursor(3, 7), &mut doc, &mut vp);
    let offset = vp.offset_y;
    let sx = doc.screen_cursor_x;
    let sy = doc.screen_cursor_y;
    let rows = doc.lines.len();
    ed.update_cursor(&mut doc, &mut vp);
    assert_eq!(vp.offset_y, offset);
    assert_eq!(doc.screen_cursor_x, sx);
    assert_eq!(doc.screen_cursor_y, sy);
    assert_eq!(doc.lines.len(), rows);
}

#[test]
fn document_never_shrinks() {
    let (mut ed, mut doc, mut vp) = setup(4);
    let stream = vec![
        Instruction::SetX(3),
        Instruction::Type('q', false),
        Instruction::Newline { x: 0 },
        Instruction::MoveCursor(0, 0),
        Instruction::Type('r', false),
        Instruction::MoveCursor(2, 6),
        Instruction::Wait,
        Instruction::HideCursor,
    ];
    let mut rows = doc.lines.len();
    let mut lens: Vec<usize> = doc.lines.iter().map(|l| l.spans.len()).collect();
    for inst in stream {
        ed.apply_inst(inst, &mut doc, &mut vp);
        assert!(doc.lines.len() >= rows);
        for (i, len) in lens.iter().enumerate() {
            assert!(doc.lines[i].spans.len() >= *len);
        }
        rows = doc.lines.len();
        lens = doc.lines.iter().map(|l| l.spans.len()).collect();
    }
}

#[test]
fn wait_raises_flag_until_one_acknowledgment() {
    let (mut ed, mut doc, mut vp) = setup(5);
    assert!(!doc.waiting);
    ed.apply_inst(Instruction::Wait, &mut doc, &mut vp);
    assert!(doc.waiting);
    ed.on_key(&mut doc);
    assert!(!doc.waiting);
    // The next queued instruction proceeds as usual.
    ed.apply_inst(Instruction::Type('z', false), &mut doc, &mut vp);
    assert_eq!(doc.lines[0].spans[0].text, 'z');
    assert!(!doc.waiting);
}

#[test]
fn hide_cursor_only_drops_visibility() {
    let (mut ed, mut doc, mut vp) = setup(5);
    assert!(doc.show_cursor);
    ed.apply_inst(Instruction::HideCursor, &mut doc, &mut vp);
    assert!(!doc.show_cursor);
    assert_eq!(doc.lines.len(), 1);
}

#[test]
fn pacer_consumes_pause_without_forwarding() {
    let a = pacer_action(&Instruction::Pause(250));
    assert_eq!(a, PacerAction::SleepOnly(250));
}

#[test]
fn pacer_forwards_wait_and_blocks_for_ack() {
    let a = pacer_action(&Instruction::Wait);
    assert_eq!(a, PacerAction::ForwardAndAwait);
}

#[test]
fn pacer_delays_ordinary_instructions_within_range() {
    for _ in 0..50 {
        match pacer_action(&Instruction::Type('k', false)) {
            PacerAction::ForwardAfter(d) => {
                assert!((DELAY_MIN_MS..DELAY_MAX_MS).contains(&d));
            }
            other => panic!("expected a delayed forward, got {:?}", other),
        }
    }
}
