//! A run: what the program does for a list of tokens, one step at a time.

use vstd::prelude::*;
use crate::engine::emission;
use crate::engine::Engine;
use crate::line::not_a_number;
use crate::line::Line;
use crate::line::LineView;
use crate::line::Value;
use crate::options::Flags;
use crate::text::index_of;
use crate::text::read_index;
use crate::text::texts;
use crate::text::trimmed;

verus! {

/// How a run ends.
#[derive(Clone, Copy, Debug, PartialEq, Eq)]
pub enum Status {
    /// Every token was gone through.
    Success,
    /// A token is no index, and the run is strict.
    Failure,
}

/// What the program does next.
#[derive(Clone, Debug, PartialEq, Eq)]
pub enum Step {
    /// Writes the usage text.
    Usage,
    /// Writes a line.
    Line(Line),
    /// Ends.
    Exit(Status),
}

/// A step, its line as a sequence of characters.
pub enum StepView {
    Usage,
    Line(LineView),
    Exit(Status),
}

impl View for Step {
    type V = StepView;

    open spec fn view(&self) -> StepView {
        match self {
            Step::Usage => StepView::Usage,
            Step::Line(line) => StepView::Line(line@),
            Step::Exit(status) => StepView::Exit(*status),
        }
    }
}

/// The steps that write `lines`.
pub open spec fn written(lines: Seq<LineView>) -> Seq<StepView> {
    lines.map_values(|line: LineView| StepView::Line(line))
}

/// The index that a token names, whitespace around it set aside.
pub open spec fn index_named(token: Seq<char>) -> Option<usize> {
    index_of(trimmed(token))
}

/// The steps for one token: the lines for the index that it names, or the
/// one line that says that it names none.
pub open spec fn token_steps(token: Seq<char>, flags: Flags) -> Seq<StepView> {
    match index_named(token) {
        Some(index) => written(emission(index as nat, flags)),
        None => seq![StepView::Line(not_a_number(token, flags.print_index))],
    }
}

/// The steps from token `from` on. Each token has its own steps, in the
/// order given; a token that names no index ends a strict run in failure;
/// behind the last token the run ends in success.
pub open spec fn steps_from(tokens: Seq<Seq<char>>, flags: Flags, from: int) -> Seq<StepView>
    decreases tokens.len() - from,
{
    if from < 0 || from >= tokens.len() {
        seq![StepView::Exit(Status::Success)]
    } else if flags.is_strict && index_named(tokens[from]) is None {
        token_steps(tokens[from], flags).push(StepView::Exit(Status::Failure))
    } else {
        token_steps(tokens[from], flags) + steps_from(tokens, flags, from + 1)
    }
}

/// All the steps of a run: without a token the usage text and a
/// successful end, else the steps of the tokens.
pub open spec fn script(tokens: Seq<Seq<char>>, flags: Flags) -> Seq<StepView> {
    if tokens.len() == 0 {
        seq![StepView::Usage, StepView::Exit(Status::Success)]
    } else {
        steps_from(tokens, flags, 0)
    }
}

/// Where a run stands.
enum Phase {
    /// Before the usage text.
    Usage,
    /// Among the tokens.
    Tokens,
    /// At its end.
    Ended(Status),
}

/// A run in progress.
pub struct Run {
    /// The tokens.
    tokens: Vec<String>,
    /// The switches.
    flags: Flags,
    /// The token that comes next.
    at: usize,
    /// The lines of the token before it.
    engine: Option<Engine>,
    /// Where the run stands.
    phase: Phase,
}

impl Run {
    /// The run stands among its tokens, and its engine is sound.
    pub closed spec fn wf(&self) -> bool {
        &&& self.at <= self.tokens.len()
        &&& match self.engine {
            Some(engine) => engine.wf(),
            None => true,
        }
    }

    /// The lines that the engine still holds.
    closed spec fn pending(&self) -> Seq<LineView> {
        match self.engine {
            Some(engine) => engine.remaining(),
            None => Seq::empty(),
        }
    }

    /// The steps still to come, in order. The last of them is the end of
    /// the run.
    pub closed spec fn remaining(&self) -> Seq<StepView> {
        match self.phase {
            Phase::Usage => seq![StepView::Usage, StepView::Exit(Status::Success)],
            Phase::Tokens => written(self.pending()) + steps_from(
                texts(self.tokens@),
                self.flags,
                self.at as int,
            ),
            Phase::Ended(status) => seq![StepView::Exit(status)],
        }
    }

    /// The next line that the engine holds, if it holds one.
    fn pull(&mut self) -> (line: Option<Line>)
        requires
            old(self).wf(),
        ensures
            final(self).wf(),
            final(self).tokens == old(self).tokens,
            final(self).flags == old(self).flags,
            final(self).at == old(self).at,
            final(self).phase == old(self).phase,
            match line {
                Some(line) => {
                    &&& old(self).pending().len() > 0
                    &&& line@ == old(self).pending()[0]
                    &&& final(self).pending() == old(self).pending().drop_first()
                },
                None => {
                    &&& old(self).pending().len() == 0
                    &&& final(self).pending() == old(self).pending()
                },
            },
    {
        match &mut self.engine {
            Some(engine) => engine.next_line(),
            None => None,
        }
    }

    /// The first step of the token that comes next.
    fn open_token(&mut self) -> (step: Step)
        requires
            old(self).wf(),
            old(self).phase is Tokens,
            old(self).pending().len() == 0,
            old(self).at < old(self).tokens.len(),
        ensures
            final(self).wf(),
            old(self).remaining().len() > 1,
            step@ == old(self).remaining()[0],
            final(self).remaining() == old(self).remaining().drop_first(),
    {
        let ghost tokens = texts(self.tokens@);
        let ghost after = steps_from(tokens, self.flags, self.at + 1);
        proof {
            lemma_written_nothing(after);
            lemma_written_nothing(steps_from(tokens, self.flags, self.at as int));
            lemma_steps_from_holds_a_step(tokens, self.flags, self.at + 1);
        }
        let token = &self.tokens[self.at];
        assert(tokens[self.at as int] == token@);
        match read_index(token.as_str()) {
            Some(index) => {
                let mut engine = Engine::new(index, &self.flags);
                proof {
                    lemma_written_then(emission(index as nat, self.flags), after);
                }
                let line = engine.emit();
                self.engine = Some(engine);
                self.at = self.at + 1;
                Step::Line(line)
            },
            None => {
                let label = if self.flags.print_index {
                    Some(token.clone())
                } else {
                    None
                };
                let line = Line { label, value: Value::NotANumber };
                let ghost first = StepView::Line(line@);
                if self.flags.is_strict {
                    self.phase = Phase::Ended(Status::Failure);
                    assert(seq![first].push(StepView::Exit(Status::Failure)).drop_first()
                        =~= seq![StepView::Exit(Status::Failure)]);
                } else {
                    self.engine = None;
                    self.at = self.at + 1;
                    assert((seq![first] + after).drop_first() =~= after);
                }
                Step::Line(line)
            },
        }
    }

    /// What the program does next. Once the run has ended, every further
    /// step is that end again.
    pub fn step(&mut self) -> (step: Step)
        requires
            old(self).wf(),
        ensures
            final(self).wf(),
            old(self).remaining().len() > 0,
            step@ == old(self).remaining()[0],
            final(self).remaining() == if old(self).remaining().len() > 1 {
                old(self).remaining().drop_first()
            } else {
                old(self).remaining()
            },
    {
        match self.phase {
            Phase::Usage => {
                self.phase = Phase::Ended(Status::Success);
                assert(self.remaining() =~= old(self).remaining().drop_first());
                Step::Usage
            },
            Phase::Ended(status) => Step::Exit(status),
            Phase::Tokens => {
                let ghost rest = steps_from(texts(self.tokens@), self.flags, self.at as int);
                proof {
                    lemma_steps_from_holds_a_step(texts(self.tokens@), self.flags, self.at as int);
                    if self.pending().len() > 0 {
                        lemma_written_then(self.pending(), rest);
                    } else {
                        lemma_written_nothing(rest);
                    }
                }
                match self.pull() {
                    Some(line) => Step::Line(line),
                    None => {
                        if self.at == self.tokens.len() {
                            self.phase = Phase::Ended(Status::Success);
                            Step::Exit(Status::Success)
                        } else {
                            self.open_token()
                        }
                    },
                }
            },
        }
    }
}

/// The steps that write some lines and go on begin with the first line, and
/// go on with the steps that write the other lines.
proof fn lemma_written_then(lines: Seq<LineView>, rest: Seq<StepView>)
    requires
        lines.len() > 0,
        rest.len() > 0,
    ensures
        (written(lines) + rest).len() > 1,
        (written(lines) + rest)[0] == StepView::Line(lines[0]),
        (written(lines) + rest).drop_first() == written(lines.drop_first()) + rest,
{
    assert((written(lines) + rest).drop_first() =~= written(lines.drop_first()) + rest);
}

/// The steps that write no line and go on are the steps that go on.
proof fn lemma_written_nothing(rest: Seq<StepView>)
    ensures
        written(Seq::empty()) + rest == rest,
{
    assert(written(Seq::empty()) + rest =~= rest);
}

/// From any token on there is a step to take.
proof fn lemma_steps_from_holds_a_step(tokens: Seq<Seq<char>>, flags: Flags, from: int)
    ensures
        steps_from(tokens, flags, from).len() > 0,
{
}

/// Begins the run for `args`, the arguments that are no options, under
/// `flags`, which stay as they are.
pub fn run(args: Vec<String>, flags: &mut Flags) -> (session: Run)
    ensures
        session.wf(),
        session.remaining() == script(texts(args@), *old(flags)),
        *final(flags) == *old(flags),
{
    let phase = if args.len() == 0 {
        Phase::Usage
    } else {
        Phase::Tokens
    };
    let session = Run { tokens: args, flags: *flags, at: 0, engine: None, phase };
    assert(session.remaining() =~= script(texts(args@), *flags));
    session
}

} // verus!
