use typeplay::instruction::{Instruction, Rgb};
use typeplay::parse::{insts, Parser};
use typeplay::syntax::{Line, Span};

fn rgb(r: u8, g: u8, b: u8) -> Rgb {
    Rgb { r, g, b }
}

fn span(text: &str, fg: Rgb, bold: bool) -> Span {
    Span { src: text.chars().collect(), fg, bold }
}

fn compile(lines: Vec<Line>) -> Vec<Instruction> {
    Parser::new(lines).instructions()
}

#[test]
fn unindented_line_starts_with_setx_zero() {
    let c = rgb(10, 20, 30);
    let line = Line { head: span("foo\n", c, false), tail: vec![] };
    let out = compile(vec![line]);
    assert_eq!(
        out,
        vec![
            Instruction::SetX(0),
            Instruction::SetForeground(c),
            Instruction::Type('f', false),
            Instruction::Type('o', false),
            Instruction::Type('o', false),
            Instruction::Newline { x: 0 },
        ]
    );
}

#[test]
fn indented_two_run_line() {
    // Two runs of one color: two leading spaces, then "foo" with the line
    // terminator. The spaces are stripped into SetX(2) and the newline
    // resets to the same column.
    let c = rgb(200, 100, 50);
    let line = Line { head: span("  ", c, false), tail: vec![span("foo\n", c, false)] };
    let out = compile(vec![line]);
    assert_eq!(
        out,
        vec![
            Instruction::SetX(2),
            Instruction::SetForeground(c),
            Instruction::Type('f', false),
            Instruction::Type('o', false),
            Instruction::Type('o', false),
            Instruction::Newline { x: 2 },
        ]
    );
}

#[test]
fn indented_spaces_never_typed() {
    let c = rgb(1, 1, 1);
    let line = Line { head: span("    if\n", c, true), tail: vec![] };
    let out = compile(vec![line]);
    assert_eq!(out[0], Instruction::SetX(4));
    for inst in &out {
        assert!(!matches!(inst, Instruction::Type(' ', _)));
    }
}

#[test]
fn same_color_runs_emit_one_setforeground() {
    let c = rgb(5, 6, 7);
    let line = Line { head: span("a", c, false), tail: vec![span("b", c, false)] };
    let out = compile(vec![line]);
    let changes = out
        .iter()
        .filter(|i| matches!(i, Instruction::SetForeground(_)))
        .count();
    assert_eq!(changes, 1);
}

#[test]
fn color_change_emits_exactly_one_setforeground() {
    let c1 = rgb(5, 6, 7);
    let c2 = rgb(8, 9, 10);
    let line = Line { head: span("a", c1, false), tail: vec![span("b", c2, false)] };
    let out = compile(vec![line]);
    assert_eq!(
        out,
        vec![
            Instruction::SetX(0),
            Instruction::SetForeground(c1),
            Instruction::Type('a', false),
            Instruction::SetForeground(c2),
            Instruction::Type('b', false),
        ]
    );
}

#[test]
fn black_head_run_needs_no_setforeground() {
    // The tracked color starts at black, so a black first run changes
    // nothing.
    let line = Line { head: span("x", rgb(0, 0, 0), false), tail: vec![] };
    let out = compile(vec![line]);
    assert_eq!(out, vec![Instruction::SetX(0), Instruction::Type('x', false)]);
}

#[test]
fn wait_marker_line_is_one_wait() {
    let c = rgb(90, 90, 90);
    let line = Line {
        head: span("// stop", c, false),
        tail: vec![span(" here [WAIT] please", c, false)],
    };
    let out = compile(vec![line]);
    assert_eq!(out, vec![Instruction::Wait]);
}

#[test]
fn comment_without_marker_compiles_normally() {
    let c = rgb(90, 90, 90);
    let line = Line { head: span("//x", c, false), tail: vec![span("y", c, false)] };
    let out = compile(vec![line]);
    assert_eq!(out[0], Instruction::SetX(0));
    assert!(out.contains(&Instruction::Type('/', false)));
}

#[test]
fn comment_with_no_second_run_compiles_normally() {
    let c = rgb(90, 90, 90);
    let line = Line { head: span("// alone\n", c, false), tail: vec![] };
    let out = compile(vec![line]);
    assert_eq!(out[0], Instruction::SetX(0));
}

#[test]
fn empty_run_may_still_change_color() {
    let c = rgb(40, 40, 40);
    let line = Line { head: span("", c, false), tail: vec![] };
    let out = compile(vec![line]);
    assert_eq!(out, vec![Instruction::SetX(0), Instruction::SetForeground(c)]);
}

#[test]
fn color_tracking_carries_across_lines() {
    let c = rgb(3, 3, 3);
    let l1 = Line { head: span("a\n", c, false), tail: vec![] };
    let l2 = Line { head: span("b\n", c, false), tail: vec![] };
    let out = compile(vec![l1, l2]);
    let changes = out
        .iter()
        .filter(|i| matches!(i, Instruction::SetForeground(_)))
        .count();
    assert_eq!(changes, 1);
}

#[test]
fn wait_line_keeps_tracked_color() {
    let c = rgb(3, 3, 3);
    let l1 = Line { head: span("a\n", c, false), tail: vec![] };
    let w = Line { head: span("//", c, false), tail: vec![span("[WAIT]", c, false)] };
    let l3 = Line { head: span("b\n", c, false), tail: vec![] };
    let out = compile(vec![l1, w, l3]);
    let changes = out
        .iter()
        .filter(|i| matches!(i, Instruction::SetForeground(_)))
        .count();
    assert_eq!(changes, 1);
    assert!(out.contains(&Instruction::Wait));
}

#[test]
fn insts_trims_trailing_newline_and_prepends_pause() {
    let c = rgb(7, 7, 7);
    let line = Line { head: span("a\n", c, false), tail: vec![] };
    let out = insts(vec![line]);
    assert_eq!(
        out,
        vec![
            Instruction::Pause(1000),
            Instruction::SetX(0),
            Instruction::SetForeground(c),
            Instruction::Type('a', false),
        ]
    );
}

#[test]
fn insts_of_nothing_is_just_the_pause() {
    let out = insts(vec![]);
    assert_eq!(out, vec![Instruction::Pause(1000)]);
}

#[test]
fn take_space_counts_and_strips() {
    let s = span("   ab", rgb(0, 0, 0), false);
    let (count, rest) = s.take_space();
    assert_eq!(count, 3);
    assert_eq!(rest, vec!['a', 'b']);
}

#[test]
fn take_space_of_unindented_text() {
    let s = span("ab ", rgb(0, 0, 0), false);
    let (count, rest) = s.take_space();
    assert_eq!(count, 0);
    assert_eq!(rest, vec!['a', 'b', ' ']);
}

#[test]
fn take_space_of_all_spaces() {
    let s = span("  ", rgb(0, 0, 0), false);
    let (count, rest) = s.take_space();
    assert_eq!(count, 2);
    assert!(rest.is_empty());
}
