use vstd::prelude::*;

use crate::instruction::Rgb;

verus! {

/// One styled run as the external highlighter hands it over: a stretch of
/// text sharing one foreground color and bold flag.
pub struct Span {
    pub src: Vec<char>,
    pub fg: Rgb,
    pub bold: bool,
}

/// A physical source line: at least one run (`head`), then the remaining
/// runs of the line in left-to-right order.
pub struct Line {
    pub head: Span,
    pub tail: Vec<Span>,
}

impl Line {
    /// Split a line's runs into the leading run and the rest, in order. A
    /// line with no runs at all breaks the highlighter's contract of at
    /// least one run per line: `None`.
    pub fn from_spans(spans: Vec<Span>) -> (r: Option<Line>)
        ensures
            (match r {
                Some(l) => spans@.len() >= 1 && l.head == spans@[0] && l.tail@ == spans@.skip(1),
                None => spans@.len() == 0,
            }),
    {
        if spans.len() == 0 {
            None
        } else {
            let mut rest = spans;
            let ghost spans0 = rest@;
            let head = rest.remove(0);
            proof {
                assert(rest@ =~= spans0.skip(1));
            }
            Some(Line { head, tail: rest })
        }
    }
}

/// The number of spaces a run's text begins with.
pub open spec fn leading_spaces(s: Seq<char>) -> nat
    decreases s.len(),
{
    if s.len() == 0 || s[0] != ' ' {
        0
    } else {
        1 + leading_spaces(s.drop_first())
    }
}

pub proof fn lemma_leading_spaces_le(s: Seq<char>)
    ensures
        leading_spaces(s) <= s.len(),
    decreases s.len(),
{
    if s.len() > 0 && s[0] == ' ' {
        lemma_leading_spaces_le(s.drop_first());
    }
}

/// `leading_spaces` is pinned down by its two boundary facts: everything
/// before it is a space and it is either the end or a non-space.
pub proof fn lemma_leading_spaces_eq(s: Seq<char>, m: nat)
    requires
        m <= s.len(),
        forall|k: int| 0 <= k < m ==> s[k] == ' ',
        m < s.len() ==> s[m as int] != ' ',
    ensures
        leading_spaces(s) == m,
    decreases s.len(),
{
    if m == 0 {
    } else {
        assert(s[0] == ' ');
        let t = s.drop_first();
        assert forall|k: int| 0 <= k < m - 1 implies t[k] == ' ' by {
            assert(t[k] == s[k + 1]);
        }
        lemma_leading_spaces_eq(t, (m - 1) as nat);
    }
}

impl Span {
    /// Split off the run's leading spaces: their count and the text after them.
    pub fn take_space(&self) -> (r: (usize, Vec<char>))
        ensures
            r.0 as nat == leading_spaces(self.src@),
            r.1@ == self.src@.skip(r.0 as int),
    {
        let n = self.src.len();
        let mut count: usize = 0;
        while count < n && self.src[count] == ' '
            invariant
                count <= n,
                n == self.src@.len(),
                forall|k: int| 0 <= k < count ==> self.src@[k] == ' ',
            decreases n - count,
        {
            count = count + 1;
        }
        proof {
            lemma_leading_spaces_eq(self.src@, count as nat);
        }
        let mut rest: Vec<char> = Vec::new();
        let mut i: usize = count;
        while i < n
            invariant
                count <= i <= n,
                n == self.src@.len(),
                rest@ == self.src@.subrange(count as int, i as int),
            decreases n - i,
        {
            rest.push(self.src[i]);
            proof {
                assert(rest@ =~= self.src@.subrange(count as int, i + 1));
            }
            i = i + 1;
        }
        proof {
            assert(rest@ =~= self.src@.skip(count as int));
        }
        (count, rest)
    }
}

} // verus!
