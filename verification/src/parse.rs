use vstd::prelude::*;

use crate::instruction::{initial_fg, Instruction, Rgb};
use crate::syntax::{leading_spaces, Line, Span};

verus! {

/// The wait-marker token the compiler looks for inside a comment line.
pub open spec fn marker() -> Seq<char> {
    seq!['[', 'W', 'A', 'I', 'T', ']']
}

/// The marker occurs at position `i` of `s`.
pub open spec fn marker_at(s: Seq<char>, i: int) -> bool {
    0 <= i && i + 6 <= s.len() && s.subrange(i, i + 6) == marker()
}

/// The marker occurs somewhere in `s`.
pub open spec fn has_marker(s: Seq<char>) -> bool {
    exists|i: int| marker_at(s, i)
}

/// The run's text opens a line comment.
pub open spec fn opens_comment(s: Seq<char>) -> bool {
    s.len() >= 2 && s[0] == '/' && s[1] == '/'
}

/// The line is a scripted wait: a comment whose second run carries the marker.
pub open spec fn is_wait_line(l: Line) -> bool {
    opens_comment(l.head.src@) && l.tail@.len() >= 1 && has_marker(l.tail@[0].src@)
}

/// The instruction one character of a run becomes: a newline resets the
/// column to the line's indent, anything else is typed.
pub open spec fn char_inst(c: char, bold: bool, line_start: usize) -> Instruction {
    if c == '\n' {
        Instruction::Newline { x: line_start }
    } else {
        Instruction::Type(c, bold)
    }
}

/// The instructions for the characters of one run.
pub open spec fn chars_insts(src: Seq<char>, bold: bool, line_start: usize) -> Seq<Instruction> {
    Seq::new(src.len(), |i: int| char_inst(src[i], bold, line_start))
}

/// The color change emitted before a run: one instruction if its foreground
/// differs from the tracked one, none otherwise.
pub open spec fn fg_insts(fg: Rgb, cur: Rgb) -> Seq<Instruction> {
    if fg == cur {
        Seq::empty()
    } else {
        seq![Instruction::SetForeground(fg)]
    }
}

/// The instructions for a sequence of runs, threading the tracked foreground.
pub open spec fn spans_insts(spans: Seq<Span>, cur: Rgb, line_start: usize) -> Seq<Instruction>
    decreases spans.len(),
{
    if spans.len() == 0 {
        Seq::empty()
    } else {
        fg_insts(spans[0].fg, cur) + chars_insts(spans[0].src@, spans[0].bold, line_start)
            + spans_insts(spans.drop_first(), spans[0].fg, line_start)
    }
}

/// The tracked foreground after a sequence of runs.
pub open spec fn spans_final_fg(spans: Seq<Span>, cur: Rgb) -> Rgb
    decreases spans.len(),
{
    if spans.len() == 0 {
        cur
    } else {
        spans_final_fg(spans.drop_first(), spans[0].fg)
    }
}

/// The instructions one source line compiles to, given the tracked
/// foreground: a lone `Wait` for a wait-marker line; otherwise the indent
/// column, the head run with its spaces stripped, then the remaining runs.
pub open spec fn line_insts(l: Line, cur: Rgb) -> Seq<Instruction> {
    if is_wait_line(l) {
        seq![Instruction::Wait]
    } else {
        let n = leading_spaces(l.head.src@);
        seq![Instruction::SetX(n as usize)] + fg_insts(l.head.fg, cur)
            + chars_insts(l.head.src@.skip(n as int), l.head.bold, n as usize)
            + spans_insts(l.tail@, l.head.fg, n as usize)
    }
}

/// The tracked foreground after one line.
pub open spec fn line_final_fg(l: Line, cur: Rgb) -> Rgb {
    if is_wait_line(l) {
        cur
    } else {
        spans_final_fg(l.tail@, l.head.fg)
    }
}

/// The whole compilation: every line's instructions, in source order.
pub open spec fn compile_insts(lines: Seq<Line>, cur: Rgb) -> Seq<Instruction>
    decreases lines.len(),
{
    if lines.len() == 0 {
        Seq::empty()
    } else {
        line_insts(lines[0], cur) + compile_insts(
            lines.drop_first(),
            line_final_fg(lines[0], cur),
        )
    }
}

/// The tracked foreground after a whole compilation.
pub open spec fn compile_final_fg(lines: Seq<Line>, cur: Rgb) -> Rgb
    decreases lines.len(),
{
    if lines.len() == 0 {
        cur
    } else {
        compile_final_fg(lines.drop_first(), line_final_fg(lines[0], cur))
    }
}

/// Compiling one more line appends exactly that line's instructions.
pub proof fn lemma_compile_push(lines: Seq<Line>, l: Line, cur: Rgb)
    ensures
        compile_insts(lines.push(l), cur) == compile_insts(lines, cur) + line_insts(
            l,
            compile_final_fg(lines, cur),
        ),
        compile_final_fg(lines.push(l), cur) == line_final_fg(l, compile_final_fg(lines, cur)),
    decreases lines.len(),
{
    if lines.len() == 0 {
        assert(lines.push(l)[0] == l);
        assert(lines.push(l).drop_first() =~= Seq::<Line>::empty());
        assert(compile_insts(Seq::<Line>::empty(), line_final_fg(l, cur))
            == Seq::<Instruction>::empty());
        assert(compile_insts(lines, cur) == Seq::<Instruction>::empty());
        assert(compile_final_fg(Seq::<Line>::empty(), line_final_fg(l, cur)) == line_final_fg(
            l,
            cur,
        ));
        assert(compile_final_fg(lines, cur) == cur);
        assert(compile_insts(lines.push(l), cur) =~= compile_insts(lines, cur) + line_insts(
            l,
            compile_final_fg(lines, cur),
        ));
    } else {
        let rest = lines.drop_first();
        let fg1 = line_final_fg(lines[0], cur);
        assert(lines.push(l)[0] == lines[0]);
        assert(lines.push(l).drop_first() =~= rest.push(l));
        lemma_compile_push(rest, l, fg1);
        assert(compile_insts(lines.push(l), cur) =~= compile_insts(lines, cur) + line_insts(
            l,
            compile_final_fg(lines, cur),
        ));
    }
}

/// Appending one more run to a sequence of runs appends its color change
/// and its characters.
pub proof fn lemma_spans_push(spans: Seq<Span>, s: Span, cur: Rgb, ls: usize)
    ensures
        spans_insts(spans.push(s), cur, ls) == spans_insts(spans, cur, ls) + fg_insts(
            s.fg,
            spans_final_fg(spans, cur),
        ) + chars_insts(s.src@, s.bold, ls),
        spans_final_fg(spans.push(s), cur) == s.fg,
    decreases spans.len(),
{
    if spans.len() == 0 {
        assert(spans.push(s)[0] == s);
        assert(spans.push(s).drop_first() =~= Seq::<Span>::empty());
        assert(spans_insts(Seq::<Span>::empty(), s.fg, ls) == Seq::<Instruction>::empty());
        assert(spans_insts(spans, cur, ls) == Seq::<Instruction>::empty());
        assert(spans_final_fg(Seq::<Span>::empty(), s.fg) == s.fg);
        assert(spans_final_fg(spans, cur) == cur);
        assert(spans_insts(spans.push(s), cur, ls) =~= spans_insts(spans, cur, ls) + fg_insts(
            s.fg,
            spans_final_fg(spans, cur),
        ) + chars_insts(s.src@, s.bold, ls));
    } else {
        let rest = spans.drop_first();
        let fg1 = spans[0].fg;
        assert(spans.push(s)[0] == spans[0]);
        assert(spans.push(s).drop_first() =~= rest.push(s));
        lemma_spans_push(rest, s, fg1, ls);
        assert(spans_insts(spans.push(s), cur, ls) =~= spans_insts(spans, cur, ls) + fg_insts(
            s.fg,
            spans_final_fg(spans, cur),
        ) + chars_insts(s.src@, s.bold, ls));
    }
}

/// The compiler: turns styled source lines into the instruction stream.
pub struct Parser {
    pub lines: Vec<Line>,
    pub instructions: Vec<Instruction>,
    pub foreground: Rgb,
}

/// Whether the run's text contains the wait marker. Relied on by the
/// compiler's wait-line detection.
fn contains_marker(src: &Vec<char>) -> (b: bool)
    ensures
        b == has_marker(src@),
{
    let n = src.len();
    if n < 6 {
        return false;
    }
    let mut i: usize = 0;
    while i <= n - 6
        invariant
            6 <= n,
            i <= n - 5,
            n == src@.len(),
            forall|k: int| 0 <= k < i ==> !marker_at(src@, k),
        decreases n - i,
    {
        if src[i] == '[' && src[i + 1] == 'W' && src[i + 2] == 'A' && src[i + 3] == 'I' && src[i
            + 4] == 'T' && src[i + 5] == ']' {
            proof {
                assert(src@.subrange(i as int, i as int + 6) =~= marker());
                assert(marker_at(src@, i as int));
            }
            return true;
        }
        proof {
            assert(!marker_at(src@, i as int)) by {
                if marker_at(src@, i as int) {
                    let s6 = src@.subrange(i as int, i as int + 6);
                    assert(s6 == marker());
                    assert(s6[0] == src@[i as int]);
                    assert(s6[1] == src@[i as int + 1]);
                    assert(s6[2] == src@[i as int + 2]);
                    assert(s6[3] == src@[i as int + 3]);
                    assert(s6[4] == src@[i as int + 4]);
                    assert(s6[5] == src@[i as int + 5]);
                }
            }
        }
        i = i + 1;
    }
    proof {
        assert forall|k: int| !marker_at(src@, k) by {
            if 0 <= k < i {
            } else if k >= i {
                assert(k + 6 > n);
            }
        }
    }
    false
}

/// Whether the line is a scripted wait line.
fn is_wait(line: &Line) -> (b: bool)
    ensures
        b == is_wait_line(*line),
{
    if line.head.src.len() >= 2 {
        if line.head.src[0] == '/' && line.head.src[1] == '/' {
            if line.tail.len() >= 1 {
                return contains_marker(&line.tail[0].src);
            }
        }
    }
    false
}

impl Parser {
    pub fn new(lines: Vec<Line>) -> (p: Parser)
        ensures
            p.lines == lines,
            p.instructions@ == Seq::<Instruction>::empty(),
            p.foreground == initial_fg(),
    {
        Parser { lines, instructions: Vec::new(), foreground: Rgb::black() }
    }

    /// Emit the run's color change, if its foreground differs from the
    /// tracked one, and track it.
    fn set_foreground(&mut self, span: &Span)
        ensures
            final(self).instructions@ == old(self).instructions@ + fg_insts(
                span.fg,
                old(self).foreground,
            ),
            final(self).foreground == span.fg,
            final(self).lines == old(self).lines,
    {
        if span.fg != self.foreground {
            self.instructions.push(Instruction::SetForeground(span.fg));
            self.foreground = span.fg;
            proof {
                assert(self.instructions@ =~= old(self).instructions@ + fg_insts(
                    span.fg,
                    old(self).foreground,
                ));
            }
        } else {
            proof {
                assert(self.instructions@ =~= old(self).instructions@ + fg_insts(
                    span.fg,
                    old(self).foreground,
                ));
            }
        }
    }

    /// Emit one instruction per character of the run's remaining text.
    fn push_chars(&mut self, src: &Vec<char>, bold: bool, line_start: usize)
        ensures
            final(self).instructions@ == old(self).instructions@ + chars_insts(src@, bold, line_start),
            final(self).foreground == old(self).foreground,
            final(self).lines == old(self).lines,
    {
        let ghost insts0 = self.instructions@;
        let ghost fg0 = self.foreground;
        let ghost lines0 = self.lines;
        let n = src.len();
        let mut j: usize = 0;
        while j < n
            invariant
                j <= n,
                n == src@.len(),
                self.instructions@ == insts0 + chars_insts(
                    src@.subrange(0, j as int),
                    bold,
                    line_start,
                ),
                self.foreground == fg0,
                self.lines == lines0,
            decreases n - j,
        {
            let c = src[j];
            if c == '\n' {
                self.instructions.push(Instruction::Newline { x: line_start });
            } else {
                self.instructions.push(Instruction::Type(c, bold));
            }
            proof {
                assert(chars_insts(src@.subrange(0, j + 1), bold, line_start) =~= chars_insts(
                    src@.subrange(0, j as int),
                    bold,
                    line_start,
                ).push(char_inst(src@[j as int], bold, line_start)));
            }
            j = j + 1;
        }
        proof {
            assert(src@.subrange(0, n as int) =~= src@);
        }
    }

    /// Compile every line, in order, appending to the held instruction
    /// stream; the tracked foreground starts at the sentinel the parser was
    /// built with.
    pub fn instructions(self) -> (r: Vec<Instruction>)
        ensures
            r@ == self.instructions@ + compile_insts(self.lines@, self.foreground),
    {
        let ghost insts0 = self.instructions@;
        let ghost fg0 = self.foreground;
        let ghost lines_v = self.lines@;
        let mut this = self;
        let mut lines: Vec<Line> = Vec::new();
        core::mem::swap(&mut this.lines, &mut lines);
        let n = lines.len();
        let mut i: usize = 0;
        proof {
            assert(lines@.subrange(0, 0) =~= Seq::<Line>::empty());
            assert(this.instructions@ =~= insts0 + compile_insts(lines@.subrange(0, 0), fg0));
        }
        while i < n
            invariant
                i <= n,
                n == lines@.len(),
                lines@ == lines_v,
                this.instructions@ == insts0 + compile_insts(lines@.subrange(0, i as int), fg0),
                this.foreground == compile_final_fg(lines@.subrange(0, i as int), fg0),
            decreases n - i,
        {
            let ghost pre = this.instructions@;
            let ghost fg_pre = this.foreground;
            let line = &lines[i];
            if is_wait(line) {
                this.instructions.push(Instruction::Wait);
                proof {
                    assert(this.instructions@ =~= pre + line_insts(lines@[i as int], fg_pre));
                }
            } else {
                let (count, rest) = line.head.take_space();
                this.instructions.push(Instruction::SetX(count));
                this.set_foreground(&line.head);
                this.push_chars(&rest, line.head.bold, count);
                let ghost head_done = this.instructions@;
                let m = line.tail.len();
                let mut j: usize = 0;
                proof {
                    assert(line.tail@.subrange(0, 0) =~= Seq::<Span>::empty());
                    assert(this.instructions@ =~= head_done + spans_insts(
                        line.tail@.subrange(0, 0),
                        line.head.fg,
                        count,
                    ));
                }
                while j < m
                    invariant
                        j <= m,
                        m == line.tail@.len(),
                        this.instructions@ == head_done + spans_insts(
                            line.tail@.subrange(0, j as int),
                            line.head.fg,
                            count,
                        ),
                        this.foreground == spans_final_fg(
                            line.tail@.subrange(0, j as int),
                            line.head.fg,
                        ),
                    decreases m - j,
                {
                    let span = &line.tail[j];
                    let ghost fg_run = this.foreground;
                    this.set_foreground(span);
                    this.push_chars(&span.src, span.bold, count);
                    proof {
                        assert(line.tail@.subrange(0, j + 1) =~= line.tail@.subrange(
                            0,
                            j as int,
                        ).push(line.tail@[j as int]));
                        lemma_spans_push(
                            line.tail@.subrange(0, j as int),
                            line.tail@[j as int],
                            line.head.fg,
                            count,
                        );
                        assert(this.instructions@ =~= head_done + spans_insts(
                            line.tail@.subrange(0, j + 1),
                            line.head.fg,
                            count,
                        ));
                    }
                    j = j + 1;
                }
                proof {
                    assert(line.tail@.subrange(0, m as int) =~= line.tail@);
                    assert(this.instructions@ =~= pre + line_insts(lines@[i as int], fg_pre));
                    assert(this.foreground == line_final_fg(lines@[i as int], fg_pre));
                }
            }
            proof {
                assert(lines@.subrange(0, i + 1) =~= lines@.subrange(0, i as int).push(
                    lines@[i as int],
                ));
                lemma_compile_push(lines@.subrange(0, i as int), lines@[i as int], fg0);
            }
            i = i + 1;
        }
        proof {
            assert(lines@.subrange(0, n as int) =~= lines@);
        }
        this.instructions
    }
}

/// The stream with its trailing entry trimmed, when there is one.
pub open spec fn trim_last(s: Seq<Instruction>) -> Seq<Instruction> {
    if s.len() == 0 {
        s
    } else {
        s.drop_last()
    }
}

/// Build the full playback stream for a document: compile every line, drop
/// the trailing newline the highlighter's line convention introduces, and
/// prepend the initial settle pause.
pub fn insts(lines: Vec<Line>) -> (r: Vec<Instruction>)
    ensures
        r@ == seq![Instruction::Pause(1000)] + trim_last(compile_insts(lines@, initial_fg())),
{
    let p = Parser::new(lines);
    let ghost lines_v = p.lines@;
    let mut v = p.instructions();
    proof {
        assert(v@ =~= compile_insts(lines_v, initial_fg()));
    }
    v.pop();
    v.insert(0, Instruction::Pause(1000));
    proof {
        assert(v@ =~= seq![Instruction::Pause(1000)] + trim_last(
            compile_insts(lines_v, initial_fg()),
        ));
    }
    v
}

/// The first instruction of any compiled non-wait line sets the column to
/// the line's leading indentation; with no leading spaces that is an
/// explicit `SetX(0)`.
pub proof fn lemma_line_starts_with_setx(l: Line, cur: Rgb)
    requires
        !is_wait_line(l),
    ensures
        line_insts(l, cur).len() >= 1,
        line_insts(l, cur)[0] == Instruction::SetX(leading_spaces(l.head.src@) as usize),
{
}

/// The instruction is a typed space character.
pub open spec fn types_space(i: Instruction) -> bool {
    i matches Instruction::Type(c, _) && c == ' '
}

/// The text holds no space character.
pub open spec fn no_space(s: Seq<char>) -> bool {
    forall|k: int| 0 <= k < s.len() ==> s[k] != ' '
}

proof fn lemma_chars_no_space(src: Seq<char>, bold: bool, ls: usize)
    requires
        no_space(src),
    ensures
        forall|k: int|
            0 <= k < chars_insts(src, bold, ls).len() ==> !types_space(
                chars_insts(src, bold, ls)[k],
            ),
{
    assert forall|k: int| 0 <= k < chars_insts(src, bold, ls).len() implies !types_space(
        chars_insts(src, bold, ls)[k],
    ) by {
        assert(chars_insts(src, bold, ls)[k] == char_inst(src[k], bold, ls));
        assert(src[k] != ' ');
    }
}

proof fn lemma_spans_no_space(spans: Seq<Span>, cur: Rgb, ls: usize)
    requires
        forall|j: int| 0 <= j < spans.len() ==> no_space(spans[j].src@),
    ensures
        forall|k: int|
            0 <= k < spans_insts(spans, cur, ls).len() ==> !types_space(
                spans_insts(spans, cur, ls)[k],
            ),
    decreases spans.len(),
{
    if spans.len() == 0 {
    } else {
        let rest = spans.drop_first();
        assert forall|j: int| 0 <= j < rest.len() implies no_space(rest[j].src@) by {
            assert(rest[j] == spans[j + 1]);
        }
        lemma_chars_no_space(spans[0].src@, spans[0].bold, ls);
        lemma_spans_no_space(rest, spans[0].fg, ls);
        let head_part = fg_insts(spans[0].fg, cur) + chars_insts(spans[0].src@, spans[0].bold, ls);
        assert forall|k: int| 0 <= k < spans_insts(spans, cur, ls).len() implies !types_space(
            spans_insts(spans, cur, ls)[k],
        ) by {
            if k < head_part.len() {
                if k < fg_insts(spans[0].fg, cur).len() {
                    assert(spans_insts(spans, cur, ls)[k] == Instruction::SetForeground(
                        spans[0].fg,
                    ));
                } else {
                    assert(spans_insts(spans, cur, ls)[k] == chars_insts(
                        spans[0].src@,
                        spans[0].bold,
                        ls,
                    )[k - fg_insts(spans[0].fg, cur).len()]);
                }
            } else {
                assert(spans_insts(spans, cur, ls)[k] == spans_insts(rest, spans[0].fg, ls)[k
                    - head_part.len()]);
            }
        }
    }
}

/// Stripped indentation never reappears: for a line whose runs carry no
/// space characters beyond its leading indentation, no compiled
/// instruction types a space.
pub proof fn lemma_spaces_stripped(l: Line, cur: Rgb)
    requires
        !is_wait_line(l),
        no_space(l.head.src@.skip(leading_spaces(l.head.src@) as int)),
        forall|j: int| 0 <= j < l.tail@.len() ==> no_space(l.tail@[j].src@),
    ensures
        forall|k: int|
            0 <= k < line_insts(l, cur).len() ==> !types_space(line_insts(l, cur)[k]),
{
    let n = leading_spaces(l.head.src@);
    let stripped = l.head.src@.skip(n as int);
    lemma_chars_no_space(stripped, l.head.bold, n as usize);
    lemma_spans_no_space(l.tail@, l.head.fg, n as usize);
    let a = seq![Instruction::SetX(n as usize)];
    let b = fg_insts(l.head.fg, cur);
    let c = chars_insts(stripped, l.head.bold, n as usize);
    let d = spans_insts(l.tail@, l.head.fg, n as usize);
    assert forall|k: int| 0 <= k < line_insts(l, cur).len() implies !types_space(
        line_insts(l, cur)[k],
    ) by {
        assert(line_insts(l, cur) == a + b + c + d);
        if k < a.len() {
            assert(line_insts(l, cur)[k] == a[k]);
        } else if k < a.len() + b.len() {
            assert(line_insts(l, cur)[k] == b[k - a.len()]);
        } else if k < a.len() + b.len() + c.len() {
            assert(line_insts(l, cur)[k] == c[k - a.len() - b.len()]);
        } else {
            assert(line_insts(l, cur)[k] == d[k - a.len() - b.len() - c.len()]);
        }
    }
}

/// The text a compiled stream types: one character per typed character
/// and a line feed per newline instruction, in stream order.
pub open spec fn emitted_text(s: Seq<Instruction>) -> Seq<char>
    decreases s.len(),
{
    if s.len() == 0 {
        Seq::empty()
    } else {
        let rest = emitted_text(s.drop_first());
        match s[0] {
            Instruction::Type(c, _) => seq![c] + rest,
            Instruction::Newline { x } => seq!['\n'] + rest,
            _ => rest,
        }
    }
}

proof fn lemma_emitted_add(a: Seq<Instruction>, b: Seq<Instruction>)
    ensures
        emitted_text(a + b) == emitted_text(a) + emitted_text(b),
    decreases a.len(),
{
    if a.len() == 0 {
        assert(a + b =~= b);
        assert(emitted_text(a) + emitted_text(b) =~= emitted_text(b));
    } else {
        assert((a + b)[0] == a[0]);
        assert((a + b).drop_first() =~= a.drop_first() + b);
        lemma_emitted_add(a.drop_first(), b);
        assert(emitted_text(a + b) =~= emitted_text(a) + emitted_text(b));
    }
}

proof fn lemma_emitted_chars(src: Seq<char>, bold: bool, ls: usize)
    ensures
        emitted_text(chars_insts(src, bold, ls)) == src,
    decreases src.len(),
{
    if src.len() == 0 {
    } else {
        assert(chars_insts(src, bold, ls)[0] == char_inst(src[0], bold, ls));
        assert(chars_insts(src, bold, ls).drop_first() =~= chars_insts(
            src.drop_first(),
            bold,
            ls,
        ));
        lemma_emitted_chars(src.drop_first(), bold, ls);
        assert(emitted_text(chars_insts(src, bold, ls)) =~= src);
    }
}

proof fn lemma_emitted_fg(fg: Rgb, cur: Rgb)
    ensures
        emitted_text(fg_insts(fg, cur)) == Seq::<char>::empty(),
{
    if fg == cur {
    } else {
        assert(fg_insts(fg, cur).drop_first() =~= Seq::<Instruction>::empty());
        assert(emitted_text(Seq::<Instruction>::empty()) == Seq::<char>::empty());
        assert(emitted_text(fg_insts(fg, cur)) =~= Seq::<char>::empty());
    }
}

/// The text of a sequence of runs, concatenated in order.
pub open spec fn spans_text(spans: Seq<Span>) -> Seq<char>
    decreases spans.len(),
{
    if spans.len() == 0 {
        Seq::empty()
    } else {
        spans[0].src@ + spans_text(spans.drop_first())
    }
}

proof fn lemma_spans_emit_their_text(spans: Seq<Span>, cur: Rgb, ls: usize)
    ensures
        emitted_text(spans_insts(spans, cur, ls)) == spans_text(spans),
    decreases spans.len(),
{
    if spans.len() == 0 {
    } else {
        let rest = spans.drop_first();
        lemma_emitted_add(fg_insts(spans[0].fg, cur), chars_insts(spans[0].src@, spans[0].bold, ls));
        lemma_emitted_add(
            fg_insts(spans[0].fg, cur) + chars_insts(spans[0].src@, spans[0].bold, ls),
            spans_insts(rest, spans[0].fg, ls),
        );
        lemma_emitted_fg(spans[0].fg, cur);
        lemma_emitted_chars(spans[0].src@, spans[0].bold, ls);
        lemma_spans_emit_their_text(rest, spans[0].fg, ls);
        assert(emitted_text(spans_insts(spans, cur, ls)) =~= spans_text(spans));
    }
}

/// What a compiled non-wait line types is exactly the line's text with its
/// leading indentation stripped: the head run past its spaces, then every
/// later run in order, nothing reordered, added or lost.
pub proof fn lemma_line_emits_stripped_text(l: Line, cur: Rgb)
    requires
        !is_wait_line(l),
    ensures
        emitted_text(line_insts(l, cur)) == l.head.src@.skip(leading_spaces(l.head.src@) as int)
            + spans_text(l.tail@),
{
    let n = leading_spaces(l.head.src@);
    let a = seq![Instruction::SetX(n as usize)];
    let b = fg_insts(l.head.fg, cur);
    let c = chars_insts(l.head.src@.skip(n as int), l.head.bold, n as usize);
    let d = spans_insts(l.tail@, l.head.fg, n as usize);
    lemma_emitted_add(a, b);
    lemma_emitted_add(a + b, c);
    lemma_emitted_add(a + b + c, d);
    assert(a.drop_first() =~= Seq::<Instruction>::empty());
    assert(emitted_text(Seq::<Instruction>::empty()) == Seq::<char>::empty());
    assert(emitted_text(a) =~= Seq::<char>::empty());
    lemma_emitted_fg(l.head.fg, cur);
    lemma_emitted_chars(l.head.src@.skip(n as int), l.head.bold, n as usize);
    lemma_spans_emit_their_text(l.tail@, l.head.fg, n as usize);
    assert(emitted_text(line_insts(l, cur)) =~= l.head.src@.skip(n as int) + spans_text(l.tail@));
}

/// How many color-change instructions a stream holds.
pub open spec fn count_setfg(s: Seq<Instruction>) -> nat
    decreases s.len(),
{
    if s.len() == 0 {
        0
    } else {
        (if s[0] matches Instruction::SetForeground(_) {
            1nat
        } else {
            0nat
        }) + count_setfg(s.drop_first())
    }
}

proof fn lemma_count_setfg_add(a: Seq<Instruction>, b: Seq<Instruction>)
    ensures
        count_setfg(a + b) == count_setfg(a) + count_setfg(b),
    decreases a.len(),
{
    if a.len() == 0 {
        assert(a + b =~= b);
    } else {
        assert((a + b)[0] == a[0]);
        assert((a + b).drop_first() =~= a.drop_first() + b);
        lemma_count_setfg_add(a.drop_first(), b);
    }
}

proof fn lemma_count_setfg_chars(src: Seq<char>, bold: bool, ls: usize)
    ensures
        count_setfg(chars_insts(src, bold, ls)) == 0,
    decreases src.len(),
{
    if src.len() == 0 {
    } else {
        assert(chars_insts(src, bold, ls)[0] == char_inst(src[0], bold, ls));
        assert(chars_insts(src, bold, ls).drop_first() =~= chars_insts(
            src.drop_first(),
            bold,
            ls,
        ));
        lemma_count_setfg_chars(src.drop_first(), bold, ls);
    }
}

proof fn lemma_count_setfg_fg(fg: Rgb, cur: Rgb)
    ensures
        count_setfg(fg_insts(fg, cur)) == (if fg == cur {
            0nat
        } else {
            1nat
        }),
{
    if fg == cur {
    } else {
        let s = fg_insts(fg, cur);
        assert(s[0] == Instruction::SetForeground(fg));
        assert(s.drop_first() =~= Seq::<Instruction>::empty());
        assert(count_setfg(s.drop_first()) == 0);
    }
}

/// Color run-length deduplication: two consecutive runs sharing a
/// foreground produce at most one color change between them, and a change
/// of color always produces exactly one.
pub proof fn lemma_color_dedup(a: Span, b: Span, cur: Rgb, ls: usize)
    ensures
        count_setfg(spans_insts(seq![a, b], cur, ls)) == (if a.fg == cur {
            0nat
        } else {
            1nat
        }) + (if b.fg == a.fg {
            0nat
        } else {
            1nat
        }),
{
    let two = seq![a, b];
    let one = seq![b];
    assert(two.drop_first() =~= one);
    assert(one.drop_first() =~= Seq::<Span>::empty());
    assert(spans_insts(Seq::<Span>::empty(), b.fg, ls) == Seq::<Instruction>::empty());
    assert(count_setfg(Seq::<Instruction>::empty()) == 0);
    assert(spans_insts(one, a.fg, ls) == fg_insts(b.fg, a.fg) + chars_insts(b.src@, b.bold, ls)
        + spans_insts(Seq::<Span>::empty(), b.fg, ls));
    assert(spans_insts(two, cur, ls) == fg_insts(a.fg, cur) + chars_insts(a.src@, a.bold, ls)
        + spans_insts(one, a.fg, ls));
    lemma_count_setfg_fg(a.fg, cur);
    lemma_count_setfg_fg(b.fg, a.fg);
    lemma_count_setfg_chars(a.src@, a.bold, ls);
    lemma_count_setfg_chars(b.src@, b.bold, ls);
    lemma_count_setfg_add(fg_insts(a.fg, cur), chars_insts(a.src@, a.bold, ls));
    lemma_count_setfg_add(
        fg_insts(a.fg, cur) + chars_insts(a.src@, a.bold, ls),
        spans_insts(one, a.fg, ls),
    );
    lemma_count_setfg_add(fg_insts(b.fg, a.fg), chars_insts(b.src@, b.bold, ls));
    lemma_count_setfg_add(
        fg_insts(b.fg, a.fg) + chars_insts(b.src@, b.bold, ls),
        spans_insts(Seq::<Span>::empty(), b.fg, ls),
    );
}

/// How many of the runs differ in foreground from the tracked color as it
/// stands when they are reached.
pub open spec fn count_changes(spans: Seq<Span>, cur: Rgb) -> nat
    decreases spans.len(),
{
    if spans.len() == 0 {
        0
    } else {
        (if spans[0].fg == cur {
            0nat
        } else {
            1nat
        }) + count_changes(spans.drop_first(), spans[0].fg)
    }
}

/// Color run-length deduplication over a whole run sequence: the compiled
/// stream holds exactly one color-change instruction per run whose
/// foreground differs from the tracked color before it, and none for a run
/// that repeats it.
pub proof fn lemma_color_changes_counted(spans: Seq<Span>, cur: Rgb, ls: usize)
    ensures
        count_setfg(spans_insts(spans, cur, ls)) == count_changes(spans, cur),
    decreases spans.len(),
{
    if spans.len() == 0 {
    } else {
        let rest = spans.drop_first();
        lemma_count_setfg_fg(spans[0].fg, cur);
        lemma_count_setfg_chars(spans[0].src@, spans[0].bold, ls);
        lemma_color_changes_counted(rest, spans[0].fg, ls);
        lemma_count_setfg_add(fg_insts(spans[0].fg, cur), chars_insts(spans[0].src@, spans[0].bold, ls));
        lemma_count_setfg_add(
            fg_insts(spans[0].fg, cur) + chars_insts(spans[0].src@, spans[0].bold, ls),
            spans_insts(rest, spans[0].fg, ls),
        );
    }
}

/// A wait-marker line compiles to exactly one instruction, the wait, and
/// leaves the tracked color untouched: no column, color or character
/// instruction is emitted for it.
pub proof fn lemma_wait_line(l: Line, cur: Rgb)
    requires
        is_wait_line(l),
    ensures
        line_insts(l, cur) == seq![Instruction::Wait],
        line_insts(l, cur).len() == 1,
        line_final_fg(l, cur) == cur,
{
}

} // verus!
