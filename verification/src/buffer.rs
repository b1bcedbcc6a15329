use vstd::prelude::*;

use crate::grammar::is_whitespace;
use crate::model::{
    buf_init, is_dedent_line, merge_span, move_line, trim_back, trim_front, trim_ws, BufModel,
};
use crate::text::extend_from;

verus! {

/// The two-stage token accumulator: the in-progress token (`span`), the
/// committed logical line (`line`), and the two lookback flags needed for
/// spacing and unary-operator disambiguation. One instance lives per nesting
/// scope and is discarded when the scope closes.
pub struct Buffer {
    pub line: Vec<char>,
    pub span: Vec<char>,
    pub last_identifier: bool,
    pub begin_statement: bool,
}

impl View for Buffer {
    type V = BufModel;

    open spec fn view(&self) -> BufModel {
        BufModel {
            line: self.line@,
            span: self.span@,
            last_identifier: self.last_identifier,
            begin_statement: self.begin_statement,
        }
    }
}

impl Buffer {
    pub fn new() -> (b: Buffer)
        ensures
            b@ == buf_init(),
    {
        let b = Buffer {
            line: Vec::new(),
            span: Vec::new(),
            last_identifier: false,
            begin_statement: true,
        };
        proof {
            assert(b@.line =~= buf_init().line);
            assert(b@.span =~= buf_init().span);
        }
        b
    }

    /// Flush the pending span into the line, separated by one space when the
    /// line is not empty.
    pub fn merge_span_to_line(&mut self)
        ensures
            final(self)@ == merge_span(old(self)@),
    {
        if self.span.len() != 0 {
            if self.line.len() != 0 {
                self.line.push(' ');
                let mut moved: Vec<char> = Vec::new();
                core::mem::swap(&mut moved, &mut self.span);
                self.line.append(&mut moved);
                proof {
                    assert(self@.line =~= merge_span(old(self)@).line);
                    assert(self@ =~= merge_span(old(self)@));
                }
            } else {
                core::mem::swap(&mut self.line, &mut self.span);
                self.span.clear();
                proof {
                    assert(self@ =~= merge_span(old(self)@));
                }
            }
        }
    }

    /// Turn the committed line into the pending span, leaving the line empty.
    pub fn move_line_to_span(&mut self)
        ensures
            final(self)@ == move_line(old(self)@),
    {
        core::mem::swap(&mut self.line, &mut self.span);
        self.line.clear();
    }


    /// Flush the span and emit the line as one body line of a block: the
    /// first body line continues directly after the header, every other line
    /// is prefixed by the outer indent (an `else`/`elif` line of an `if`
    /// block) or the inner indent (anything else).
    pub fn move_line_to_stage_with_indent(
        &mut self,
        stage: &mut Vec<char>,
        first_line: &mut bool,
        is_if: bool,
        outer_sp: &Vec<char>,
        inner_sp: &Vec<char>,
    )
        ensures
            final(self)@ == (BufModel { line: Seq::empty(), ..merge_span(old(self)@) }),
            *final(first_line) == false,
            final(stage)@ == (if *old(first_line) {
                old(stage)@ + merge_span(old(self)@).line
            } else if is_if && is_dedent_line(merge_span(old(self)@).line) {
                old(stage)@ + outer_sp@ + merge_span(old(self)@).line
            } else {
                old(stage)@ + inner_sp@ + merge_span(old(self)@).line
            }),
    {
        self.merge_span_to_line();
        if *first_line {
            *first_line = false;
        } else if is_if && is_dedent(&self.line) {
            extend_from(stage, outer_sp);
        } else {
            extend_from(stage, inner_sp);
        }
        *first_line = false;
        extend_from(stage, &self.line);
        self.line.clear();
    }

    /// Flush the span, append the line to `stage`, and clear the line.
    pub fn move_line_to_stage(&mut self, stage: &mut Vec<char>)
        ensures
            final(self)@ == (BufModel { line: Seq::empty(), ..merge_span(old(self)@) }),
            final(stage)@ == old(stage)@ + merge_span(old(self)@).line,
    {
        self.merge_span_to_line();
        extend_from(stage, &self.line);
        self.line.clear();
    }
}


/// Is this line an `else` or `elif ` line once trimmed?
pub fn is_dedent(line: &Vec<char>) -> (r: bool)
    ensures
        r == is_dedent_line(line@),
{
    let n = line.len();
    let mut a: usize = 0;
    proof {
        assert(line@.skip(0) =~= line@);
    }
    while a < n && is_whitespace(line[a])
        invariant
            a <= n,
            n == line@.len(),
            trim_front(line@) == trim_front(line@.skip(a as int)),
        decreases n - a,
    {
        proof {
            assert(line@.skip(a as int).drop_first() =~= line@.skip(a + 1));
        }
        a += 1;
    }
    proof {
        if a == n {
            assert(line@.skip(a as int) =~= Seq::<char>::empty());
        }
        assert(trim_front(line@) == line@.skip(a as int));
        assert(line@.subrange(a as int, n as int) =~= line@.skip(a as int));
    }
    let mut b: usize = n;
    while b > a && is_whitespace(line[b - 1])
        invariant
            a <= b <= n,
            n == line@.len(),
            trim_back(line@.skip(a as int)) == trim_back(line@.subrange(a as int, b as int)),
        decreases b,
    {
        proof {
            assert(line@.subrange(a as int, b as int).drop_last() =~= line@.subrange(
                a as int,
                b - 1,
            ));
        }
        b -= 1;
    }
    proof {
        assert(trim_ws(line@) == line@.subrange(a as int, b as int));
    }
    let len = b - a;
    if len == 4 && line[a] == 'e' && line[a + 1] == 'l' && line[a + 2] == 's' && line[a + 3]
        == 'e' {
        proof {
            assert(line@.subrange(a as int, b as int) =~= crate::grammar::kw_else());
        }
        return true;
    }
    if len >= 5 && line[a] == 'e' && line[a + 1] == 'l' && line[a + 2] == 'i' && line[a + 3] == 'f'
        && line[a + 4] == ' ' {
        proof {
            assert(line@.subrange(a as int, b as int).take(5) =~= crate::grammar::kw_elif()
                + seq![' ']);
        }
        return true;
    }
    proof {
        assert(!(trim_ws(line@) == crate::grammar::kw_else()));
        let t = trim_ws(line@);
        if t.len() >= 5 && t.take(5) == crate::grammar::kw_elif() + seq![' '] {
            let pat = crate::grammar::kw_elif() + seq![' '];
            assert(t.take(5)[0] == pat[0] && t.take(5)[1] == pat[1] && t.take(5)[2] == pat[2]
                && t.take(5)[3] == pat[3] && t.take(5)[4] == pat[4]);
            assert(line@[a as int] == 'e' && line@[a + 1] == 'l' && line@[a + 2] == 'i' && line@[a
                + 3] == 'f' && line@[a + 4] == ' ');
            assert(false);
        }
    }
    false
}

} // verus!
