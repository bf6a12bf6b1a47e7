use vstd::prelude::*;

use crate::command::{
    Color, Command, CommandView, Fault, Service, command_of, parse_color, color_named,
    parse_command,
};
use crate::store::{TextStore, appended, overflows, removed, tokens};
use crate::text::{SPACE, push_all, trim, trim_bytes};

verus! {

/// What the machine around the shell is asked to do after a command.
#[derive(Debug, PartialEq, Eq)]
pub enum Response {
    /// Nothing to show.
    Silent,
    /// Show this text as a line.
    Show(Vec<u8>),
    /// Show one error line for each fault, in order.
    Report(Vec<Fault>),
    /// Draw further text in this color, on black.
    SetColor(Color),
    /// Carry out a command that lies outside the shell.
    Run(Service),
}

/// The mathematical form of a `Response`.
pub enum Reply {
    Silent,
    Show(Seq<u8>),
    Report(Seq<Fault>),
    SetColor(Color),
    Run(Service),
}

impl View for Response {
    type V = Reply;

    open spec fn view(&self) -> Reply {
        match self {
            Response::Silent => Reply::Silent,
            Response::Show(t) => Reply::Show(t@),
            Response::Report(f) => Reply::Report(f@),
            Response::SetColor(c) => Reply::SetColor(*c),
            Response::Run(s) => Reply::Run(*s),
        }
    }
}

/// The reply that reports the given faults, or none.
pub open spec fn report(faults: Seq<Fault>) -> Reply {
    if faults.len() == 0 {
        Reply::Silent
    } else {
        Reply::Report(faults)
    }
}

/// Position of the first space in `s`.
pub open spec fn first_space(s: Seq<u8>) -> Option<int>
    decreases s.len(),
{
    if s.len() == 0 {
        None
    } else if s[0] == SPACE {
        Some(0)
    } else {
        match first_space(s.drop_first()) {
            Some(i) => Some(i + 1),
            None => None,
        }
    }
}

/// The store, the error flag and the faults after `mv` with argument `arg`: the
/// argument splits at its first space into a previous and an updated text, both
/// needed; the previous text is removed, and if that fails nothing else happens;
/// then the updated text is appended, and if that runs full the previous text is
/// appended again.
pub open spec fn moved(store: Seq<u8>, arg: Seq<u8>) -> (Seq<u8>, bool, Seq<Fault>) {
    match first_space(arg) {
        None => (store, true, seq![Fault::MoveUsage]),
        Some(i) => {
            let previous = arg.take(i);
            let updated = trim(arg.skip(i + 1));
            if previous.len() == 0 || updated.len() == 0 {
                (store, true, seq![Fault::MoveUsage])
            } else if !tokens(store).contains(previous) {
                (store, true, seq![Fault::NotFound])
            } else {
                let s1 = removed(store, previous);
                let s2 = appended(s1, updated);
                if !overflows(s1, updated) {
                    (s2, false, Seq::empty())
                } else if overflows(s2, previous) {
                    (appended(s2, previous), true, seq![Fault::StoreFull, Fault::StoreFull])
                } else {
                    (appended(s2, previous), false, seq![Fault::StoreFull])
                }
            }
        },
    }
}

/// The store, the error flag and the reply after running `cmd` on `store`.
pub open spec fn outcome(store: Seq<u8>, cmd: CommandView) -> (Seq<u8>, bool, Reply) {
    match cmd {
        CommandView::Run(s) => (store, false, Reply::Run(s)),
        CommandView::Ls => (store, false, Reply::Show(store)),
        CommandView::Purge => (Seq::empty(), false, Reply::Silent),
        CommandView::Empty => (store, false, Reply::Silent),
        CommandView::Color(name) => if name.len() == 0 {
            (store, true, Reply::Report(seq![Fault::NoColor]))
        } else {
            match color_named(name) {
                Some(c) => (store, false, Reply::SetColor(c)),
                None => (store, true, Reply::Report(seq![Fault::InvalidColor])),
            }
        },
        CommandView::Echo(text) => (store, false, Reply::Show(text)),
        CommandView::Rm(text) => if tokens(store).contains(text) {
            (removed(store, text), false, Reply::Silent)
        } else {
            (store, true, Reply::Report(seq![Fault::NotFound]))
        },
        CommandView::Touch(text) => if overflows(store, text) {
            (appended(store, text), true, Reply::Report(seq![Fault::StoreFull]))
        } else {
            (appended(store, text), false, Reply::Silent)
        },
        CommandView::Mv(arg) => {
            let (s, e, f) = moved(store, arg);
            (s, e, report(f))
        },
        CommandView::Invalid => (store, true, Reply::Report(seq![Fault::InvalidCommand])),
    }
}

proof fn lemma_first_space_at(s: Seq<u8>, i: int)
    requires
        0 <= i <= s.len(),
        forall|k: int| 0 <= k < i ==> s[k] != SPACE,
        i < s.len() ==> s[i] == SPACE,
    ensures
        first_space(s) == if i < s.len() {
            Some(i)
        } else {
            None::<int>
        },
    decreases i,
{
    if i > 0 {
        lemma_first_space_at(s.drop_first(), i - 1);
    }
}

/// One fault.
fn single(f: Fault) -> (v: Vec<Fault>)
    ensures
        v@ == seq![f],
{
    let mut v: Vec<Fault> = Vec::new();
    v.push(f);
    assert(v@ =~= seq![f]);
    v
}

/// The shell's shared state: the text store and the outcome of the last command.
pub struct Kernel {
    pub store: TextStore,
    pub error: bool,
}

impl Kernel {
    pub open spec fn wf(&self) -> bool {
        self.store.wf()
    }

    pub fn new() -> (k: Kernel)
        ensures
            k.wf(),
            k.store@ == Seq::<u8>::empty(),
            !k.error,
    {
        Kernel { store: TextStore::new(), error: false }
    }

    /// Whether the last command failed.
    pub fn error(&self) -> (r: bool)
        ensures
            r == self.error,
    {
        self.error
    }

    /// The stored text.
    pub fn ls(&self) -> (r: &[u8])
        ensures
            r@ == self.store@,
    {
        self.store.list()
    }

    /// Empties the store.
    pub fn purge(&mut self)
        requires
            old(self).wf(),
        ensures
            final(self).wf(),
            final(self).store@ == Seq::<u8>::empty(),
            final(self).error == old(self).error,
    {
        self.store.clear();
    }

    /// Removes the first token equal to `text`. The error flag tells whether it was
    /// missing.
    pub fn rm(&mut self, text: &[u8]) -> (fault: Option<Fault>)
        requires
            old(self).wf(),
        ensures
            final(self).wf(),
            final(self).store@ == removed(old(self).store@, text@),
            final(self).error == !tokens(old(self).store@).contains(text@),
            fault == if final(self).error {
                Some(Fault::NotFound)
            } else {
                None
            },
    {
        if self.store.remove(text) {
            self.error = false;
            None
        } else {
            self.error = true;
            Some(Fault::NotFound)
        }
    }

    /// Appends `text` and a separating space. For a non-empty text the error flag
    /// tells whether the store ran full; an empty text changes nothing.
    pub fn touch(&mut self, text: &[u8]) -> (fault: Option<Fault>)
        requires
            old(self).wf(),
        ensures
            final(self).wf(),
            final(self).store@ == appended(old(self).store@, text@),
            final(self).error == if text@.len() == 0 {
                old(self).error
            } else {
                overflows(old(self).store@, text@)
            },
            fault == if overflows(old(self).store@, text@) {
                Some(Fault::StoreFull)
            } else {
                None
            },
    {
        if text.len() == 0 {
            return None;
        }
        if self.store.append(text) {
            self.error = true;
            Some(Fault::StoreFull)
        } else {
            self.error = false;
            None
        }
    }

    /// The store's operations by number: 0 lists, 1 purges, 2 removes `input`,
    /// 3 appends `input`; any other number does nothing.
    pub fn system_call(&mut self, function: i32, input: &[u8]) -> (r: Response)
        requires
            old(self).wf(),
        ensures
            final(self).wf(),
            function == 0 ==> {
                &&& final(self).store@ == old(self).store@
                &&& final(self).error == old(self).error
                &&& r@ == Reply::Show(old(self).store@)
            },
            function == 1 ==> {
                &&& final(self).store@ == Seq::<u8>::empty()
                &&& final(self).error == old(self).error
                &&& r@ == Reply::Silent
            },
            function == 2 ==> {
                &&& final(self).store@ == removed(old(self).store@, input@)
                &&& final(self).error == !tokens(old(self).store@).contains(input@)
                &&& r@ == if final(self).error {
                    Reply::Report(seq![Fault::NotFound])
                } else {
                    Reply::Silent
                }
            },
            function == 3 ==> {
                &&& final(self).store@ == appended(old(self).store@, input@)
                &&& final(self).error == if input@.len() == 0 {
                    old(self).error
                } else {
                    overflows(old(self).store@, input@)
                }
                &&& r@ == if overflows(old(self).store@, input@) {
                    Reply::Report(seq![Fault::StoreFull])
                } else {
                    Reply::Silent
                }
            },
            !(0 <= function <= 3) ==> {
                &&& final(self).store@ == old(self).store@
                &&& final(self).error == old(self).error
                &&& r@ == Reply::Silent
            },
    {
        if function == 0 {
            let mut shown: Vec<u8> = Vec::new();
            push_all(&mut shown, self.ls());
            Response::Show(shown)
        } else if function == 1 {
            self.purge();
            Response::Silent
        } else if function == 2 {
            match self.rm(input) {
                Some(f) => Response::Report(single(f)),
                None => Response::Silent,
            }
        } else if function == 3 {
            match self.touch(input) {
                Some(f) => Response::Report(single(f)),
                None => Response::Silent,
            }
        } else {
            Response::Silent
        }
    }

    /// Replaces the token `previous` with `updated`, the argument holding both
    /// separated by a space. The store is not restored byte for byte when the
    /// updated text does not fit: the previous text is appended again instead.
    pub fn mv(&mut self, arg: &[u8]) -> (faults: Vec<Fault>)
        requires
            old(self).wf(),
        ensures
            final(self).wf(),
            (final(self).store@, final(self).error, faults@) == moved(old(self).store@, arg@),
    {
        let mut i: usize = 0;
        while i < arg.len() && arg[i] != SPACE
            invariant
                i <= arg@.len(),
                forall|k: int| 0 <= k < i ==> arg@[k] != SPACE,
            decreases arg@.len() - i,
        {
            i = i + 1;
        }
        proof {
            lemma_first_space_at(arg@, i as int);
        }
        if i == arg.len() {
            self.error = true;
            return single(Fault::MoveUsage);
        }
        let previous = &arg[0..i];
        let updated = trim_bytes(&arg[i + 1..arg.len()]);
        assert(previous@ =~= arg@.take(i as int));
        assert(arg@.subrange(i + 1, arg@.len() as int) =~= arg@.skip(i + 1));
        if previous.len() == 0 || updated.len() == 0 {
            self.error = true;
            return single(Fault::MoveUsage);
        }
        if let Some(f) = self.rm(previous) {
            return single(f);
        }
        match self.touch(updated) {
            None => Vec::new(),
            Some(f) => {
                let mut faults = single(f);
                if let Some(g) = self.touch(previous) {
                    faults.push(g);
                    assert(faults@ =~= seq![f, g]);
                }
                faults
            },
        }
    }

    /// Runs a parsed command.
    pub fn run(&mut self, cmd: Command) -> (r: Response)
        requires
            old(self).wf(),
        ensures
            final(self).wf(),
            (final(self).store@, final(self).error, r@) == outcome(old(self).store@, cmd@),
    {
        self.error = false;
        match cmd {
            Command::Run(s) => Response::Run(s),
            Command::Ls => self.system_call(0, &[]),
            Command::Purge => self.system_call(1, &[]),
            Command::Empty => Response::Silent,
            Command::Color(name) => match parse_color(name.as_slice()) {
                Ok(c) => Response::SetColor(c),
                Err(f) => {
                    self.error = true;
                    Response::Report(single(f))
                },
            },
            Command::Echo(text) => Response::Show(text),
            Command::Rm(text) => self.system_call(2, text.as_slice()),
            Command::Touch(text) => self.system_call(3, text.as_slice()),
            Command::Mv(arg) => {
                let faults = self.mv(arg.as_slice());
                if faults.len() == 0 {
                    Response::Silent
                } else {
                    Response::Report(faults)
                }
            },
            Command::Invalid => {
                self.error = true;
                Response::Report(single(Fault::InvalidCommand))
            },
        }
    }

    /// Carries out one command line: clears the error flag, then parses the line
    /// and runs what it names.
    pub fn execute(&mut self, line: &[u8]) -> (r: Response)
        requires
            old(self).wf(),
        ensures
            final(self).wf(),
            (final(self).store@, final(self).error, r@) == outcome(
                old(self).store@,
                command_of(line@),
            ),
    {
        self.error = false;
        let cmd = parse_command(line);
        self.run(cmd)
    }
}

} // verus!
