use vstd::prelude::*;

use crate::command::command_of;
use crate::kernel::{Kernel, Reply, Response, outcome};
use crate::keyboard::{Keyboard, NO_CHAR, decoded_char, next_shift};

verus! {

/// Size of the line buffer; its last slot is never written.
pub const BUFFER_SIZE: usize = 79;

/// Number of bytes a line can hold.
pub const LINE_LIMIT: usize = 78;

/// The character that ends a line.
pub const LINE_END: char = '\n';

/// The bytes of the line typed so far, bounded by the buffer.
pub struct Buffer {
    buffer: Vec<u8>,
}

impl View for Buffer {
    type V = Seq<u8>;

    closed spec fn view(&self) -> Seq<u8> {
        self.buffer@
    }
}

impl Buffer {
    pub open spec fn wf(&self) -> bool {
        self@.len() <= LINE_LIMIT
    }

    pub fn new() -> (b: Buffer)
        ensures
            b.wf(),
            b@ == Seq::<u8>::empty(),
    {
        Buffer { buffer: Vec::new() }
    }

    /// Number of bytes held.
    pub fn index(&self) -> (n: usize)
        ensures
            n == self@.len(),
    {
        self.buffer.len()
    }

    /// Adds a byte if a usable slot is left; otherwise drops it.
    pub fn add_char(&mut self, c: u8)
        requires
            old(self).wf(),
        ensures
            final(self).wf(),
            final(self)@ == if old(self)@.len() < LINE_LIMIT {
                old(self)@.push(c)
            } else {
                old(self)@
            },
    {
        if self.buffer.len() < BUFFER_SIZE - 1 {
            self.buffer.push(c);
        }
    }

    /// Discards the line.
    pub fn reset(&mut self)
        ensures
            final(self).wf(),
            final(self)@ == Seq::<u8>::empty(),
    {
        self.buffer = Vec::new();
    }

    /// The bytes held.
    pub fn get_input(&self) -> (r: &[u8])
        ensures
            r@ == self@,
    {
        self.buffer.as_slice()
    }
}

/// What the line editor does with one character.
pub enum LineEvent {
    /// The "no character" sentinel: nothing happens.
    Ignored,
    /// The character is shown and kept.
    Echo,
    /// The character is shown, filled the line and the line was thrown away.
    Abandoned,
    /// The line ended; here it is, terminator included.
    Completed(Seq<u8>),
}

/// The line after one character, and what happened.
pub open spec fn line_step(line: Seq<u8>, c: char) -> (Seq<u8>, LineEvent) {
    if c == NO_CHAR {
        (line, LineEvent::Ignored)
    } else {
        let kept = if line.len() < LINE_LIMIT {
            line.push(c as u8)
        } else {
            line
        };
        if kept.len() == LINE_LIMIT && c != LINE_END {
            (Seq::empty(), LineEvent::Abandoned)
        } else if c == LINE_END {
            (Seq::empty(), LineEvent::Completed(kept))
        } else {
            (kept, LineEvent::Echo)
        }
    }
}

/// The line after a run of characters.
pub open spec fn line_after(line: Seq<u8>, cs: Seq<char>) -> Seq<u8>
    decreases cs.len(),
{
    if cs.len() == 0 {
        line
    } else {
        line_after(line_step(line, cs[0]).0, cs.drop_first())
    }
}

/// The bytes that a run of characters is stored as.
pub open spec fn bytes_of(cs: Seq<char>) -> Seq<u8> {
    cs.map_values(|c: char| c as u8)
}

/// A plain character: neither the sentinel nor the line end.
pub open spec fn is_plain(c: char) -> bool {
    c != NO_CHAR && c != LINE_END
}

proof fn lemma_line_after_plain(line: Seq<u8>, cs: Seq<char>)
    requires
        line.len() + cs.len() < LINE_LIMIT,
        forall|i: int| 0 <= i < cs.len() ==> is_plain(#[trigger] cs[i]),
    ensures
        line_after(line, cs) == line + bytes_of(cs),
    decreases cs.len(),
{
    if cs.len() == 0 {
        assert(line + bytes_of(cs) =~= line);
    } else {
        let next = line.push(cs[0] as u8);
        assert(line_step(line, cs[0]).0 == next);
        lemma_line_after_plain(next, cs.drop_first());
        assert(next + bytes_of(cs.drop_first()) =~= line + bytes_of(cs));
    }
}

/// A character that fills the line to its last usable slot, other than the line
/// end, throws the line away; a line typed after that and ended is handed on
/// exactly as typed, untouched by what was thrown away.
pub proof fn lemma_overflow_abandons(line: Seq<u8>, c: char, next: Seq<char>)
    requires
        line.len() == LINE_LIMIT - 1,
        is_plain(c),
        next.len() < LINE_LIMIT,
        forall|i: int| 0 <= i < next.len() ==> is_plain(#[trigger] next[i]),
    ensures
        line_step(line, c) == (Seq::<u8>::empty(), LineEvent::Abandoned),
        line_step(line_after(line_step(line, c).0, next), LINE_END) == (
            Seq::<u8>::empty(),
            LineEvent::Completed(bytes_of(next).push(LINE_END as u8)),
        ),
{
    lemma_line_after_plain(Seq::empty(), next);
    assert(Seq::<u8>::empty() + bytes_of(next) =~= bytes_of(next));
}

/// What the shell did with one key.
#[derive(Debug, PartialEq, Eq)]
pub enum Step {
    Ignored,
    Echo(char),
    Abandoned(char),
    Executed(Response),
}

/// The mathematical form of a `Step`.
pub enum StepView {
    Ignored,
    Echo(char),
    Abandoned(char),
    Executed(Reply),
}

impl View for Step {
    type V = StepView;

    open spec fn view(&self) -> StepView {
        match self {
            Step::Ignored => StepView::Ignored,
            Step::Echo(c) => StepView::Echo(*c),
            Step::Abandoned(c) => StepView::Abandoned(*c),
            Step::Executed(r) => StepView::Executed(r@),
        }
    }
}

/// How the line and the kernel of `before` become those of `after` when the shell
/// takes character `c`, reporting `step`.
pub open spec fn reacts(before: Shell, after: Shell, c: char, step: StepView) -> bool {
    &&& after.line@ == line_step(before.line@, c).0
    &&& match line_step(before.line@, c).1 {
        LineEvent::Ignored => step == StepView::Ignored && after.kernel == before.kernel,
        LineEvent::Echo => step == StepView::Echo(c) && after.kernel == before.kernel,
        LineEvent::Abandoned => step == StepView::Abandoned(c) && after.kernel == before.kernel,
        LineEvent::Completed(l) => {
            let (s, e, r) = outcome(before.kernel.store@, command_of(l));
            &&& step == StepView::Executed(r)
            &&& after.kernel.store@ == s
            &&& after.kernel.error == e
        },
    }
}

/// The interactive shell: the decoder, the line being typed and the kernel.
pub struct Shell {
    pub keyboard: Keyboard,
    pub line: Buffer,
    pub kernel: Kernel,
}

impl Shell {
    pub open spec fn wf(&self) -> bool {
        self.line.wf() && self.kernel.wf()
    }

    pub fn new() -> (s: Shell)
        ensures
            s.wf(),
            !s.keyboard.shift_pressed,
            s.line@ == Seq::<u8>::empty(),
            s.kernel.store@ == Seq::<u8>::empty(),
            !s.kernel.error,
    {
        Shell { keyboard: Keyboard::new(), line: Buffer::new(), kernel: Kernel::new() }
    }

    /// Takes one decoded character: a plain one is shown and kept, unless it fills
    /// the line, which is then thrown away; the line end hands the line to the
    /// kernel and starts a new one.
    pub fn on_char(&mut self, c: char) -> (step: Step)
        requires
            old(self).wf(),
        ensures
            final(self).wf(),
            final(self).keyboard == old(self).keyboard,
            reacts(*old(self), *final(self), c, step@),
    {
        if c == NO_CHAR {
            return Step::Ignored;
        }
        self.line.add_char(c as u8);
        if self.line.index() == BUFFER_SIZE - 1 && c != LINE_END {
            self.line.reset();
            return Step::Abandoned(c);
        }
        if c == LINE_END {
            let r = self.kernel.execute(self.line.get_input());
            self.line.reset();
            return Step::Executed(r);
        }
        Step::Echo(c)
    }

    /// Decodes one raw scancode and takes the character it yields.
    pub fn on_scancode(&mut self, scancode: u8) -> (step: Step)
        requires
            old(self).wf(),
        ensures
            final(self).wf(),
            final(self).keyboard.shift_pressed == next_shift(
                old(self).keyboard.shift_pressed,
                scancode,
            ),
            reacts(
                *old(self),
                *final(self),
                decoded_char(old(self).keyboard.shift_pressed, scancode),
                step@,
            ),
    {
        let c = self.keyboard.decode(scancode);
        self.on_char(c)
    }
}

} // verus!
