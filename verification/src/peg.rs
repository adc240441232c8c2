//! A small engine for parsing expression grammars over bytes.
//!
//! A grammar is a table of expressions and a table of rules. Matching a rule
//! records a token with the span it matched, and a rule that fails is
//! remembered as an attempt if no rule failed further to the right. Between
//! the parts of a sequence and the rounds of a repetition, blanks and line
//! comments are passed over, unless the rule at hand is atomic.

use vstd::prelude::*;
use vstd::string::*;

verus! {

/// How the parts of a rule are put together.
#[derive(Clone, Copy, Debug, PartialEq, Eq, Structural)]
pub enum Atomicity {
    /// Blanks and comments are passed over between parts; rules record
    /// tokens and attempts.
    Normal,
    /// Nothing is passed over between parts; rules record tokens and
    /// attempts.
    Compound,
    /// Nothing is passed over between parts; rules record nothing.
    Atomic,
}

/// What kind a rule is of.
#[derive(Clone, Copy, Debug, PartialEq, Eq, Structural)]
pub enum RuleKind {
    /// The rule records a token and goes on as the rule that called it.
    Normal,
    /// The rule records nothing and goes on as the rule that called it.
    Silent,
    /// The rule records a token; inside it [`Atomicity::Compound`] holds.
    Compound,
    /// The rule records a token; inside it [`Atomicity::Atomic`] holds.
    Atomic,
}

/// A parsing expression. It names its parts by their index in the grammar's
/// table of expressions, and is only matched if its parts stand before it.
#[derive(Clone, Copy, Debug, PartialEq, Eq, Structural)]
pub enum Expr {
    /// The bytes of the grammar's literals from `start` up to `end`.
    Literal { start: usize, end: usize },
    /// One byte from `low` to `high`, both included.
    Range { low: u8, high: u8 },
    /// Any one byte.
    Any,
    /// The start of the input.
    StartOfInput,
    /// The end of the input.
    EndOfInput,
    /// `first`, then `second`.
    Sequence { first: usize, second: usize },
    /// `first`, or else `second`.
    Choice { first: usize, second: usize },
    /// `inner`, or else nothing.
    Optional { inner: usize },
    /// `inner`, as often as it matches and moves on.
    Repeat { inner: usize },
    /// `inner`, at least once.
    RepeatOnce { inner: usize },
    /// Nothing, provided `inner` does not match here.
    Not { inner: usize },
    /// The body of a rule.
    Call { rule: usize },
}

/// A rule: a named expression.
#[derive(Clone, Copy, Debug, PartialEq, Eq, Structural)]
pub struct Rule {
    /// The index of the rule's expression.
    pub body: usize,
    pub kind: RuleKind,
}

/// A grammar.
#[derive(Debug)]
pub struct Grammar {
    pub exprs: Vec<Expr>,
    pub rules: Vec<Rule>,
    /// The bytes that the literals of the grammar are taken from.
    pub literals: Vec<u8>,
}

/// A grammar, as plain values.
pub struct GrammarView {
    pub exprs: Seq<Expr>,
    pub rules: Seq<Rule>,
    pub literals: Seq<u8>,
}

impl View for Grammar {
    type V = GrammarView;

    open spec fn view(&self) -> GrammarView {
        GrammarView { exprs: self.exprs@, rules: self.rules@, literals: self.literals@ }
    }
}

/// The record of a rule that matched. The tokens of a parse stand in the
/// order in which their rules began, so the tokens of the rules that matched
/// inside a rule follow its own token directly.
#[derive(Clone, Copy, Debug, PartialEq, Eq, Structural)]
pub struct Token {
    pub rule: usize,
    /// Where the match begins.
    pub start: usize,
    /// Where the match ends.
    pub end: usize,
    /// The number of tokens of the rule and of all rules that matched inside
    /// it.
    pub size: usize,
}

/// The state of a parse.
#[derive(Debug)]
pub struct State {
    /// How far the input has been matched.
    pub pos: usize,
    pub tokens: Vec<Token>,
    /// The rightmost position at which a rule failed.
    pub attempt_pos: usize,
    /// The rules that failed at `attempt_pos`.
    pub attempts: Vec<usize>,
    /// Whether rules were nested more deeply than allowed.
    pub exhausted: bool,
}

/// The state of a parse, as plain values.
pub struct StateView {
    pub pos: int,
    pub tokens: Seq<Token>,
    pub attempt_pos: int,
    pub attempts: Seq<usize>,
    pub exhausted: bool,
}

impl View for State {
    type V = StateView;

    open spec fn view(&self) -> StateView {
        StateView {
            pos: self.pos as int,
            tokens: self.tokens@,
            attempt_pos: self.attempt_pos as int,
            attempts: self.attempts@,
            exhausted: self.exhausted,
        }
    }
}

impl StateView {
    /// The state before anything was matched.
    pub open spec fn initial() -> StateView {
        StateView {
            pos: 0,
            tokens: Seq::empty(),
            attempt_pos: 0,
            attempts: Seq::empty(),
            exhausted: false,
        }
    }

    /// The state `self`, moved on to `pos`.
    pub open spec fn at(self, pos: int) -> StateView {
        StateView { pos, ..self }
    }

    /// The state `self` with what `later` knows of failed rules: the state
    /// after a part failed that was tried from `self` on.
    pub open spec fn failed(self, later: StateView) -> StateView {
        StateView {
            attempt_pos: later.attempt_pos,
            attempts: later.attempts,
            exhausted: later.exhausted,
            ..self
        }
    }

    /// The state after `rule` failed at `pos`. `mark` is the number of
    /// attempts that were known at `pos` when the rule began: what failed
    /// inside the rule at the place where it began is replaced by the rule
    /// itself.
    pub open spec fn noted(self, rule: usize, pos: int, mark: int) -> StateView {
        if pos > self.attempt_pos {
            StateView { attempt_pos: pos, attempts: seq![rule], ..self }
        } else if pos == self.attempt_pos {
            let kept = if mark <= self.attempts.len() {
                self.attempts.subrange(0, mark)
            } else {
                self.attempts
            };
            StateView { attempts: kept.push(rule), ..self }
        } else {
            self
        }
    }

    /// The state after the rule whose token stands at `index` matched up to
    /// `self.pos`.
    pub open spec fn closed(self, index: int, rule: usize, start: int) -> StateView {
        StateView {
            tokens: self.tokens.update(
                index,
                Token {
                    rule,
                    start: start as usize,
                    end: self.pos as usize,
                    size: (self.tokens.len() - index) as usize,
                },
            ),
            ..self
        }
    }
}

/// Whether `byte` is a blank: a space, a tab, a line feed or a carriage
/// return.
pub open spec fn is_blank(byte: u8) -> bool {
    byte == 32 || byte == 9 || byte == 10 || byte == 13
}

/// Whether `byte` ends a line.
pub open spec fn is_line_end(byte: u8) -> bool {
    byte == 10 || byte == 13
}

/// The number of bytes of `input` from `pos` on.
pub open spec fn remaining(input: Seq<u8>, pos: int) -> nat {
    if 0 <= pos <= input.len() {
        (input.len() - pos) as nat
    } else {
        0
    }
}

/// The first position from `pos` on that holds no blank.
pub open spec fn after_blanks(input: Seq<u8>, pos: int) -> int
    decreases remaining(input, pos),
{
    if 0 <= pos < input.len() && is_blank(input[pos]) {
        after_blanks(input, pos + 1)
    } else {
        pos
    }
}

/// The first position from `pos` on that holds the end of a line, or the
/// end of the input.
pub open spec fn line_end(input: Seq<u8>, pos: int) -> int
    decreases remaining(input, pos),
{
    if 0 <= pos < input.len() && !is_line_end(input[pos]) {
        line_end(input, pos + 1)
    } else {
        pos
    }
}

/// Whether a line comment begins at `pos`: two slashes.
pub open spec fn comment_begins(input: Seq<u8>, pos: int) -> bool {
    0 <= pos && pos + 1 < input.len() && input[pos] == 47 && input[pos + 1] == 47
}

/// The first position from `pos` on that holds neither a blank nor a line
/// comment.
pub open spec fn after_trivia(input: Seq<u8>, pos: int) -> int
    decreases remaining(input, pos),
{
    let p = after_blanks(input, pos);
    if pos <= p && comment_begins(input, p) {
        let q = line_end(input, p + 2);
        if p < q <= input.len() {
            after_trivia(input, q)
        } else {
            p
        }
    } else {
        p
    }
}

/// Whether `literal` stands in `input` at `pos`.
pub open spec fn stands_at(input: Seq<u8>, pos: int, literal: Seq<u8>) -> bool {
    &&& 0 <= pos
    &&& pos + literal.len() <= input.len()
    &&& input.subrange(pos, pos + literal.len()) == literal
}

/// The atomicity inside a rule of kind `kind` that is called where
/// `atomicity` holds.
pub open spec fn atomicity_inside(kind: RuleKind, atomicity: Atomicity) -> Atomicity {
    match kind {
        RuleKind::Atomic => Atomicity::Atomic,
        RuleKind::Compound => Atomicity::Compound,
        _ => atomicity,
    }
}

/// The state from which the part of a sequence or a round of a repetition
/// is matched that follows on `state`.
pub open spec fn next_part(input: Seq<u8>, atomicity: Atomicity, state: StateView) -> StateView {
    if atomicity == Atomicity::Normal {
        state.at(after_trivia(input, state.pos))
    } else {
        state
    }
}

/// Matches the expression `node` of `grammar` against `input` from `state`
/// on. Gives whether it matched, and the state after it. After a failure
/// the state is where it was, but for what it knows of failed rules.
///
/// `depth` is the number of rules that may be entered inside one another.
pub open spec fn spec_eval(
    grammar: GrammarView,
    input: Seq<u8>,
    node: usize,
    atomicity: Atomicity,
    depth: nat,
    state: StateView,
) -> (bool, StateView)
    decreases depth, node, input.len() + 2,
{
    if node >= grammar.exprs.len() {
        (false, state)
    } else {
        match grammar.exprs[node as int] {
            Expr::Literal { start, end } => {
                if start <= end <= grammar.literals.len() && stands_at(
                    input,
                    state.pos,
                    grammar.literals.subrange(start as int, end as int),
                ) {
                    (true, state.at(state.pos + (end - start)))
                } else {
                    (false, state)
                }
            },
            Expr::Range { low, high } => {
                if 0 <= state.pos < input.len() && low <= input[state.pos] <= high {
                    (true, state.at(state.pos + 1))
                } else {
                    (false, state)
                }
            },
            Expr::Any => {
                if 0 <= state.pos < input.len() {
                    (true, state.at(state.pos + 1))
                } else {
                    (false, state)
                }
            },
            Expr::StartOfInput => (state.pos == 0, state),
            Expr::EndOfInput => (state.pos == input.len(), state),
            Expr::Sequence { first, second } => {
                if first < node && second < node {
                    let (ok1, s1) = spec_eval(grammar, input, first, atomicity, depth, state);
                    if ok1 {
                        let (ok2, s2) = spec_eval(
                            grammar,
                            input,
                            second,
                            atomicity,
                            depth,
                            next_part(input, atomicity, s1),
                        );
                        if ok2 {
                            (true, s2)
                        } else {
                            (false, state.failed(s2))
                        }
                    } else {
                        (false, state.failed(s1))
                    }
                } else {
                    (false, state)
                }
            },
            Expr::Choice { first, second } => {
                if first < node && second < node {
                    let (ok1, s1) = spec_eval(grammar, input, first, atomicity, depth, state);
                    if ok1 {
                        (true, s1)
                    } else {
                        spec_eval(grammar, input, second, atomicity, depth, state.failed(s1))
                    }
                } else {
                    (false, state)
                }
            },
            Expr::Optional { inner } => {
                if inner < node {
                    let (ok, s1) = spec_eval(grammar, input, inner, atomicity, depth, state);
                    if ok {
                        (true, s1)
                    } else {
                        (true, state.failed(s1))
                    }
                } else {
                    (false, state)
                }
            },
            Expr::Repeat { inner } => {
                if inner < node {
                    (true, spec_repeat(grammar, input, node, inner, atomicity, depth, state, true))
                } else {
                    (false, state)
                }
            },
            Expr::RepeatOnce { inner } => {
                if inner < node {
                    let (ok, s1) = spec_eval(grammar, input, inner, atomicity, depth, state);
                    if ok {
                        (
                            true,
                            spec_repeat(grammar, input, node, inner, atomicity, depth, s1, false),
                        )
                    } else {
                        (false, state.failed(s1))
                    }
                } else {
                    (false, state)
                }
            },
            Expr::Not { inner } => {
                if inner < node {
                    let (ok, s1) = spec_eval(
                        grammar,
                        input,
                        inner,
                        Atomicity::Atomic,
                        depth,
                        state,
                    );
                    (!ok, state.failed(s1))
                } else {
                    (false, state)
                }
            },
            Expr::Call { rule } => {
                if rule >= grammar.rules.len() {
                    (false, state)
                } else if depth == 0 {
                    (false, StateView { exhausted: true, ..state })
                } else {
                    let body = grammar.rules[rule as int].body;
                    let kind = grammar.rules[rule as int].kind;
                    let inside = atomicity_inside(kind, atomicity);
                    if kind == RuleKind::Silent || atomicity == Atomicity::Atomic {
                        spec_eval(grammar, input, body, inside, (depth - 1) as nat, state)
                    } else {
                        let index = state.tokens.len() as int;
                        let mark = if state.attempt_pos == state.pos {
                            state.attempts.len() as int
                        } else {
                            0
                        };
                        let opened = StateView {
                            tokens: state.tokens.push(
                                Token {
                                    rule,
                                    start: state.pos as usize,
                                    end: state.pos as usize,
                                    size: 1,
                                },
                            ),
                            ..state
                        };
                        let (ok, s1) = spec_eval(
                            grammar,
                            input,
                            body,
                            inside,
                            (depth - 1) as nat,
                            opened,
                        );
                        if ok {
                            (true, s1.closed(index, rule, state.pos))
                        } else {
                            (false, state.failed(s1).noted(rule, state.pos, mark))
                        }
                    }
                }
            },
        }
    }
}

/// Matches the expression `inner` round after round from `state` on, as
/// long as it matches and moves on. Gives the state after the last such
/// round. Before every round but the first of a repetition, blanks and
/// comments are passed over.
pub open spec fn spec_repeat(
    grammar: GrammarView,
    input: Seq<u8>,
    node: usize,
    inner: usize,
    atomicity: Atomicity,
    depth: nat,
    state: StateView,
    first: bool,
) -> StateView
    decreases depth, node, remaining(input, state.pos) + 1,
{
    if inner < node {
        let from = if first {
            state
        } else {
            next_part(input, atomicity, state)
        };
        let (ok, s1) = spec_eval(grammar, input, inner, atomicity, depth, from);
        if ok && 0 <= state.pos < s1.pos <= input.len() {
            spec_repeat(grammar, input, node, inner, atomicity, depth, s1, false)
        } else {
            state.failed(s1)
        }
    } else {
        state
    }
}

/// The first position from `pos` on that holds neither a blank nor a line
/// comment.
fn skip_trivia(input: &[u8], pos: usize) -> (after: usize)
    requires
        pos <= input@.len(),
    ensures
        after == after_trivia(input@, pos as int),
        pos <= after <= input@.len(),
{
    let mut p = pos;
    loop
        invariant
            pos <= p <= input@.len(),
            after_trivia(input@, pos as int) == after_trivia(input@, p as int),
        decreases input@.len() - p,
    {
        let ghost from = p;
        while p < input.len() && (input[p] == 32 || input[p] == 9 || input[p] == 10 || input[p]
            == 13)
            invariant
                from <= p <= input@.len(),
                after_blanks(input@, from as int) == after_blanks(input@, p as int),
            decreases input@.len() - p,
        {
            p += 1;
        }
        let blanks_end = p;
        if p < input.len() && input.len() - p >= 2 && input[p] == 47 && input[p + 1] == 47 {
            p += 2;
            let ghost body = p;
            while p < input.len() && input[p] != 10 && input[p] != 13
                invariant
                    body <= p <= input@.len(),
                    line_end(input@, body as int) == line_end(input@, p as int),
                decreases input@.len() - p,
            {
                p += 1;
            }
        } else {
            return p;
        }
    }
}

/// Whether the bytes of `literals` from `start` up to `end` stand in
/// `input` at `pos`.
fn literal_stands_at(input: &[u8], pos: usize, literals: &Vec<u8>, start: usize, end: usize) -> (stands:
    bool)
    requires
        pos <= input@.len(),
        start <= end <= literals@.len(),
    ensures
        stands == stands_at(input@, pos as int, literals@.subrange(start as int, end as int)),
{
    let len = end - start;
    let n = input.len();
    if len > n - pos {
        return false;
    }
    let ghost literal = literals@.subrange(start as int, end as int);
    let mut i: usize = 0;
    while i < len
        invariant
            i <= len,
            len == end - start,
            start <= end <= literals@.len(),
            pos + len <= n,
            n == input@.len(),
            literal == literals@.subrange(start as int, end as int),
            forall|j: int| 0 <= j < i ==> input@[pos + j] == literal[j],
        decreases len - i,
    {
        if input[pos + i] != literals[start + i] {
            assert(input@.subrange(pos as int, pos + literal.len())[i as int] != literal[i as int]);
            return false;
        }
        i += 1;
    }
    assert(input@.subrange(pos as int, pos + literal.len()) =~= literal);
    true
}

impl State {
    /// The state before anything was matched.
    pub fn new() -> (state: State)
        ensures
            state@ == StateView::initial(),
    {
        State {
            pos: 0,
            tokens: Vec::new(),
            attempt_pos: 0,
            attempts: Vec::new(),
            exhausted: false,
        }
    }

    /// Remembers that `rule` failed at `pos`, see [`StateView::noted`].
    fn note(&mut self, rule: usize, pos: usize, mark: usize)
        ensures
            final(self)@ == old(self)@.noted(rule, pos as int, mark as int),
    {
        if pos > self.attempt_pos {
            self.attempt_pos = pos;
            self.attempts.clear();
            self.attempts.push(rule);
            assert(self.attempts@ =~= seq![rule]);
        } else if pos == self.attempt_pos {
            self.attempts.truncate(mark);
            self.attempts.push(rule);
        }
    }
}

impl Grammar {
    /// Matches the expression `node` against `input` from `state` on, see
    /// [`spec_eval`].
    #[verifier::rlimit(50)]
    pub fn eval(
        &self,
        input: &[u8],
        node: usize,
        atomicity: Atomicity,
        depth: usize,
        state: &mut State,
    ) -> (ok: bool)
        ensures
            (ok, final(state)@) == spec_eval(
                self@,
                input@,
                node,
                atomicity,
                depth as nat,
                old(state)@,
            ),
            old(state).pos <= final(state).pos,
            old(state).pos <= input@.len() ==> final(state).pos <= input@.len(),
            old(state).pos > input@.len() ==> final(state).pos == old(state).pos,
            old(state).tokens@.is_prefix_of(final(state).tokens@),
            !ok ==> final(state).pos == old(state).pos && final(state).tokens@ == old(
                state,
            ).tokens@,
        decreases depth, node, input@.len() + 2,
    {
        if node >= self.exprs.len() {
            return false;
        }
        let n = input.len();
        match self.exprs[node] {
            Expr::Literal { start, end } => {
                if state.pos <= n && start <= end && end <= self.literals.len()
                    && literal_stands_at(
                    input,
                    state.pos,
                    &self.literals,
                    start,
                    end,
                ) {
                    state.pos = state.pos + (end - start);
                    true
                } else {
                    false
                }
            },
            Expr::Range { low, high } => {
                if state.pos < input.len() && low <= input[state.pos] && input[state.pos]
                    <= high {
                    state.pos = state.pos + 1;
                    true
                } else {
                    false
                }
            },
            Expr::Any => {
                if state.pos < input.len() {
                    state.pos = state.pos + 1;
                    true
                } else {
                    false
                }
            },
            Expr::StartOfInput => state.pos == 0,
            Expr::EndOfInput => state.pos == input.len(),
            Expr::Sequence { first, second } => self.eval_sequence(
                input,
                node,
                first,
                second,
                atomicity,
                depth,
                state,
            ),
            Expr::Choice { first, second } => {
                if first < node && second < node {
                    if self.eval(input, first, atomicity, depth, state) {
                        true
                    } else {
                        self.eval(input, second, atomicity, depth, state)
                    }
                } else {
                    false
                }
            },
            Expr::Optional { inner } => {
                if inner < node {
                    self.eval(input, inner, atomicity, depth, state);
                    true
                } else {
                    false
                }
            },
            Expr::Repeat { inner } => {
                if inner < node {
                    self.repeat(input, node, inner, atomicity, depth, state, true);
                    true
                } else {
                    false
                }
            },
            Expr::RepeatOnce { inner } => {
                if inner < node {
                    if self.eval(input, inner, atomicity, depth, state) {
                        self.repeat(input, node, inner, atomicity, depth, state, false);
                        true
                    } else {
                        false
                    }
                } else {
                    false
                }
            },
            Expr::Not { inner } => self.eval_not(input, node, inner, depth, state),
            Expr::Call { rule } => self.eval_call(input, node, rule, atomicity, depth, state),
        }
    }

    /// Matches a sequence, see [`spec_eval`].
    fn eval_sequence(
        &self,
        input: &[u8],
        node: usize,
        first: usize,
        second: usize,
        atomicity: Atomicity,
        depth: usize,
        state: &mut State,
    ) -> (ok: bool)
        requires
            node < self.exprs@.len(),
            self.exprs@[node as int] == (Expr::Sequence { first, second }),
        ensures
            (ok, final(state)@) == spec_eval(
                self@,
                input@,
                node,
                atomicity,
                depth as nat,
                old(state)@,
            ),
            old(state).pos <= final(state).pos,
            old(state).pos <= input@.len() ==> final(state).pos <= input@.len(),
            old(state).pos > input@.len() ==> final(state).pos == old(state).pos,
            old(state).tokens@.is_prefix_of(final(state).tokens@),
            !ok ==> final(state).pos == old(state).pos && final(state).tokens@ == old(
                state,
            ).tokens@,
        decreases depth, node, input@.len() + 1,
    {
        let saved_pos = state.pos;
        let saved_len = state.tokens.len();
        if first < node && second < node {
            if self.eval(input, first, atomicity, depth, state) {
                if atomicity == Atomicity::Normal && state.pos <= input.len() {
                    state.pos = skip_trivia(input, state.pos);
                }
                if self.eval(input, second, atomicity, depth, state) {
                    true
                } else {
                    state.pos = saved_pos;
                    state.tokens.truncate(saved_len);
                    assert(state.tokens@ =~= old(state).tokens@);
                    false
                }
            } else {
                false
            }
        } else {
            false
        }
    }

    /// Matches a negation, see [`spec_eval`].
    fn eval_not(&self, input: &[u8], node: usize, inner: usize, depth: usize, state: &mut State) -> (ok:
        bool)
        requires
            node < self.exprs@.len(),
            self.exprs@[node as int] == (Expr::Not { inner }),
        ensures
            forall|atomicity: Atomicity|
                (ok, final(state)@) == #[trigger] spec_eval(
                    self@,
                    input@,
                    node,
                    atomicity,
                    depth as nat,
                    old(state)@,
                ),
            final(state).pos == old(state).pos,
            final(state).tokens@ == old(state).tokens@,
        decreases depth, node, input@.len() + 1,
    {
        let saved_pos = state.pos;
        let saved_len = state.tokens.len();
        if inner < node {
            let ok = self.eval(input, inner, Atomicity::Atomic, depth, state);
            state.pos = saved_pos;
            state.tokens.truncate(saved_len);
            assert(state.tokens@ =~= old(state).tokens@);
            !ok
        } else {
            false
        }
    }

    /// Matches the body of a rule, see [`spec_eval`].
    fn eval_call(
        &self,
        input: &[u8],
        node: usize,
        rule: usize,
        atomicity: Atomicity,
        depth: usize,
        state: &mut State,
    ) -> (ok: bool)
        requires
            node < self.exprs@.len(),
            self.exprs@[node as int] == (Expr::Call { rule }),
        ensures
            (ok, final(state)@) == spec_eval(
                self@,
                input@,
                node,
                atomicity,
                depth as nat,
                old(state)@,
            ),
            old(state).pos <= final(state).pos,
            old(state).pos <= input@.len() ==> final(state).pos <= input@.len(),
            old(state).pos > input@.len() ==> final(state).pos == old(state).pos,
            old(state).tokens@.is_prefix_of(final(state).tokens@),
            !ok ==> final(state).pos == old(state).pos && final(state).tokens@ == old(
                state,
            ).tokens@,
        decreases depth, node, input@.len() + 1,
    {
        let saved_pos = state.pos;
        let saved_len = state.tokens.len();
        if rule >= self.rules.len() {
            false
        } else if depth == 0 {
            state.exhausted = true;
            false
        } else {
            let body = self.rules[rule].body;
            let kind = self.rules[rule].kind;
            let inside = match kind {
                RuleKind::Atomic => Atomicity::Atomic,
                RuleKind::Compound => Atomicity::Compound,
                _ => atomicity,
            };
            if kind == RuleKind::Silent || atomicity == Atomicity::Atomic {
                self.eval(input, body, inside, depth - 1, state)
            } else {
                let mark = if state.attempt_pos == state.pos {
                    state.attempts.len()
                } else {
                    0
                };
                state.tokens.push(Token { rule, start: saved_pos, end: saved_pos, size: 1 });
                let ghost opened = state.tokens@;
                if self.eval(input, body, inside, depth - 1, state) {
                    let ghost entered = state.tokens@;
                    let size = state.tokens.len() - saved_len;
                    state.tokens.set(
                        saved_len,
                        Token { rule, start: saved_pos, end: state.pos, size },
                    );
                    assert forall|i: int| 0 <= i < saved_len implies state.tokens@[i] == old(
                        state,
                    ).tokens@[i] by {
                        assert(opened[i] == entered.subrange(0, opened.len() as int)[i]);
                    }
                    assert(old(state).tokens@ =~= state.tokens@.subrange(0, saved_len as int));
                    true
                } else {
                    state.tokens.truncate(saved_len);
                    assert(state.tokens@ =~= old(state).tokens@);
                    state.note(rule, saved_pos, mark);
                    false
                }
            }
        }
    }

    /// Matches the expression `inner` round after round, see
    /// [`spec_repeat`].
    fn repeat(
        &self,
        input: &[u8],
        node: usize,
        inner: usize,
        atomicity: Atomicity,
        depth: usize,
        state: &mut State,
        first: bool,
    )
        requires
            inner < node,
        ensures
            final(state)@ == spec_repeat(
                self@,
                input@,
                node,
                inner,
                atomicity,
                depth as nat,
                old(state)@,
                first,
            ),
            old(state).pos <= final(state).pos,
            old(state).pos <= input@.len() ==> final(state).pos <= input@.len(),
            old(state).pos > input@.len() ==> final(state).pos == old(state).pos,
            old(state).tokens@.is_prefix_of(final(state).tokens@),
        decreases depth, node, input@.len() + 1,
    {
        let mut first_round = first;
        loop
            invariant
                inner < node,
                old(state).pos <= state.pos,
                old(state).pos <= input@.len() ==> state.pos <= input@.len(),
                old(state).pos > input@.len() ==> state.pos == old(state).pos,
                old(state).tokens@.is_prefix_of(state.tokens@),
                spec_repeat(
                    self@,
                    input@,
                    node,
                    inner,
                    atomicity,
                    depth as nat,
                    old(state)@,
                    first,
                ) == spec_repeat(
                    self@,
                    input@,
                    node,
                    inner,
                    atomicity,
                    depth as nat,
                    state@,
                    first_round,
                ),
            decreases
                    if state.pos <= input@.len() {
                        input@.len() - state.pos
                    } else {
                        0
                    },
        {
            let saved_pos = state.pos;
            let saved_len = state.tokens.len();
            let ghost before = state@;
            if !first_round && atomicity == Atomicity::Normal && state.pos <= input.len() {
                state.pos = skip_trivia(input, state.pos);
            }
            let ok = self.eval(input, inner, atomicity, depth, state);
            if ok && state.pos > saved_pos {
                first_round = false;
            } else {
                state.pos = saved_pos;
                state.tokens.truncate(saved_len);
                assert(state.tokens@ =~= before.tokens);
                return ;
            }
        }
    }
}

impl GrammarView {
    /// The grammar without expressions and rules.
    pub open spec fn empty() -> GrammarView {
        GrammarView { exprs: Seq::empty(), rules: Seq::empty(), literals: Seq::empty() }
    }

    /// The grammar with one more expression, and the index of that
    /// expression.
    pub open spec fn add(self, expr: Expr) -> (GrammarView, usize) {
        (GrammarView { exprs: self.exprs.push(expr), ..self }, self.exprs.len() as usize)
    }

    /// The grammar with one more expression that matches `bytes`, and the
    /// index of that expression.
    pub open spec fn add_literal(self, bytes: Seq<u8>) -> (GrammarView, usize) {
        GrammarView { literals: self.literals + bytes, ..self }.add(
            Expr::Literal {
                start: self.literals.len() as usize,
                end: (self.literals.len() + bytes.len()) as usize,
            },
        )
    }

    /// The grammar with one more rule of kind `kind`, whose body is yet to
    /// be defined.
    pub open spec fn declare(self, kind: RuleKind) -> GrammarView {
        GrammarView { rules: self.rules.push(Rule { body: 0, kind }), ..self }
    }

    /// The grammar in which `body` is the body of `rule`.
    pub open spec fn define(self, rule: usize, body: usize) -> GrammarView {
        if rule < self.rules.len() {
            GrammarView {
                rules: self.rules.update(
                    rule as int,
                    Rule { body, kind: self.rules[rule as int].kind },
                ),
                ..self
            }
        } else {
            self
        }
    }
}

impl Grammar {
    /// The grammar without expressions and rules.
    pub fn new() -> (grammar: Grammar)
        ensures
            grammar@ == GrammarView::empty(),
    {
        Grammar { exprs: Vec::new(), rules: Vec::new(), literals: Vec::new() }
    }

    /// Adds an expression and gives its index.
    pub fn add(&mut self, expr: Expr) -> (index: usize)
        ensures
            (final(self)@, index) == old(self)@.add(expr),
    {
        let index = self.exprs.len();
        self.exprs.push(expr);
        index
    }

    /// Adds an expression that matches the bytes of `text` and gives its
    /// index.
    pub fn add_literal(&mut self, text: &str) -> (index: usize)
        ensures
            (final(self)@, index) == old(self)@.add_literal(text.spec_bytes()),
    {
        let bytes = text.as_bytes();
        let start = self.literals.len();
        let mut i: usize = 0;
        while i < bytes.len()
            invariant
                i <= bytes@.len(),
                start == old(self).literals@.len(),
                self.exprs == old(self).exprs,
                self.rules == old(self).rules,
                self.literals@ == old(self).literals@ + bytes@.subrange(0, i as int),
            decreases bytes@.len() - i,
        {
            self.literals.push(bytes[i]);
            assert(self.literals@ =~= old(self).literals@ + bytes@.subrange(0, i + 1));
            i += 1;
        }
        assert(bytes@.subrange(0, i as int) =~= bytes@);
        let end = self.literals.len();
        self.add(Expr::Literal { start, end })
    }

    /// Adds a rule of kind `kind`, whose body is yet to be defined.
    pub fn declare(&mut self, kind: RuleKind)
        ensures
            final(self)@ == old(self)@.declare(kind),
    {
        self.rules.push(Rule { body: 0, kind });
    }

    /// Makes `body` the body of `rule`.
    pub fn define(&mut self, rule: usize, body: usize)
        ensures
            final(self)@ == old(self)@.define(rule, body),
    {
        if rule < self.rules.len() {
            let kind = self.rules[rule].kind;
            self.rules.set(rule, Rule { body, kind });
        }
    }
}

/// Why an input was not parsed.
#[derive(Debug, PartialEq, Eq)]
pub enum ParseError {
    /// The input does not follow the grammar. `expected` holds the rules
    /// that failed at `pos`, the rightmost position at which any rule
    /// failed: each rule once, in the order of the grammar.
    NoMatch { pos: usize, expected: Vec<usize> },
    /// Rules were nested more deeply than allowed.
    TooDeep,
}

/// Why an input was not parsed, as plain values.
pub enum ParseErrorView {
    NoMatch { pos: int, expected: Seq<usize> },
    TooDeep,
}

impl View for ParseError {
    type V = ParseErrorView;

    open spec fn view(&self) -> ParseErrorView {
        match self {
            ParseError::NoMatch { pos, expected } => ParseErrorView::NoMatch {
                pos: *pos as int,
                expected: expected@,
            },
            ParseError::TooDeep => ParseErrorView::TooDeep,
        }
    }
}

/// Those of the first `count` rules that are among `attempts`, in rising
/// order.
pub open spec fn distinct_rules(attempts: Seq<usize>, count: nat) -> Seq<usize> {
    Seq::new(count, |i: int| i as usize).filter(|rule: usize| attempts.contains(rule))
}

/// What parsing `input` with `grammar` gives, where `start` is the
/// expression to match and `depth` the number of rules that may be entered
/// inside one another: the tokens of the rules that matched, or why the
/// input was not parsed.
pub open spec fn spec_parse(grammar: GrammarView, input: Seq<u8>, start: usize, depth: nat) -> Result<
    Seq<Token>,
    ParseErrorView,
> {
    let (ok, state) = spec_eval(
        grammar,
        input,
        start,
        Atomicity::Normal,
        depth,
        StateView::initial(),
    );
    if state.exhausted {
        Err(ParseErrorView::TooDeep)
    } else if ok {
        Ok(state.tokens)
    } else {
        Err(
            ParseErrorView::NoMatch {
                pos: state.attempt_pos,
                expected: distinct_rules(state.attempts, grammar.rules.len()),
            },
        )
    }
}

/// Whether `rule` is among `attempts`.
fn is_among(attempts: &Vec<usize>, rule: usize) -> (among: bool)
    ensures
        among == attempts@.contains(rule),
{
    let mut i: usize = 0;
    while i < attempts.len()
        invariant
            i <= attempts@.len(),
            forall|j: int| 0 <= j < i ==> attempts@[j] != rule,
        decreases attempts@.len() - i,
    {
        if attempts[i] == rule {
            return true;
        }
        i += 1;
    }
    false
}

impl Grammar {
    /// Parses `input`, see [`spec_parse`].
    pub fn parse(&self, input: &[u8], start: usize, depth: usize) -> (result: Result<
        Vec<Token>,
        ParseError,
    >)
        ensures
            match result {
                Ok(tokens) => spec_parse(self@, input@, start, depth as nat) == Ok::<
                    Seq<Token>,
                    ParseErrorView,
                >(tokens@),
                Err(error) => spec_parse(self@, input@, start, depth as nat) == Err::<
                    Seq<Token>,
                    ParseErrorView,
                >(error@),
            },
    {
        let mut state = State::new();
        let ok = self.eval(input, start, Atomicity::Normal, depth, &mut state);
        if state.exhausted {
            return Err(ParseError::TooDeep);
        }
        if ok {
            return Ok(state.tokens);
        }
        let count = self.rules.len();
        let ghost all = Seq::new(count as nat, |i: int| i as usize);
        let ghost failed = |rule: usize| state.attempts@.contains(rule);
        let mut expected: Vec<usize> = Vec::new();
        let mut rule: usize = 0;
        proof {
            reveal(Seq::filter);
            assert(all.subrange(0, 0) =~= Seq::<usize>::empty());
        }
        while rule < count
            invariant
                rule <= count,
                count == self.rules@.len(),
                all == Seq::new(count as nat, |i: int| i as usize),
                failed == (|rule: usize| state.attempts@.contains(rule)),
                expected@ == all.subrange(0, rule as int).filter(failed),
            decreases count - rule,
        {
            proof {
                reveal(Seq::filter);
                let next = all.subrange(0, rule + 1);
                assert(next.drop_last() =~= all.subrange(0, rule as int));
                assert(next.last() == rule);
            }
            if is_among(&state.attempts, rule) {
                expected.push(rule);
            }
            rule += 1;
        }
        assert(all.subrange(0, rule as int) =~= all);
        Err(ParseError::NoMatch { pos: state.attempt_pos, expected })
    }
}

/// The tokens that stand side by side from `from` on and below `end`: the
/// token at `from`, the token that follows its tokens, and so on.
pub open spec fn siblings(tokens: Seq<Token>, from: int, end: int) -> Seq<usize>
    decreases
            if from < end {
                end - from
            } else {
                0
            },
{
    if 0 <= from < end <= tokens.len() && tokens[from].size > 0 {
        seq![from as usize] + siblings(tokens, from + tokens[from].size, end)
    } else {
        Seq::empty()
    }
}

/// Where the tokens of the token `parent` end.
pub open spec fn end_of(tokens: Seq<Token>, parent: int) -> int {
    if parent + tokens[parent].size <= tokens.len() {
        parent + tokens[parent].size
    } else {
        tokens.len() as int
    }
}

/// The tokens of the rules that matched directly inside the rule of the
/// token `parent`, in the order in which they matched.
pub open spec fn children(tokens: Seq<Token>, parent: int) -> Seq<usize> {
    if 0 <= parent < tokens.len() {
        siblings(tokens, parent + 1, end_of(tokens, parent))
    } else {
        Seq::empty()
    }
}

/// The tokens of the rules that matched directly inside the rule of the
/// token `parent`, see [`children`].
pub fn children_of(tokens: &Vec<Token>, parent: usize) -> (kids: Vec<usize>)
    ensures
        kids@ == children(tokens@, parent as int),
        forall|k: int| 0 <= k < kids@.len() ==> parent < #[trigger] kids@[k] < tokens@.len(),
{
    let mut kids: Vec<usize> = Vec::new();
    let len = tokens.len();
    if parent >= len {
        return kids;
    }
    let end = if tokens[parent].size <= len - parent {
        parent + tokens[parent].size
    } else {
        len
    };
    let mut from = parent + 1;
    assert(kids@ + siblings(tokens@, from as int, end as int) =~= children(
        tokens@,
        parent as int,
    ));
    while from < end && tokens[from].size > 0
        invariant
            parent < from,
            end <= len,
            len == tokens@.len(),
            kids@ + siblings(tokens@, from as int, end as int) == children(tokens@, parent as int),
            forall|k: int| 0 <= k < kids@.len() ==> parent < #[trigger] kids@[k] < tokens@.len(),
        decreases end - from,
    {
        let ghost before = kids@;
        let ghost rest = siblings(tokens@, from + tokens@[from as int].size, end as int);
        kids.push(from);
        assert(kids@ + rest =~= before + (seq![from] + rest));
        if tokens[from].size >= end - from {
            assert(rest =~= Seq::<usize>::empty());
            assert(kids@ =~= kids@ + rest);
            return kids;
        }
        from = from + tokens[from].size;
    }
    assert(kids@ =~= kids@ + siblings(tokens@, from as int, end as int));
    kids
}

} // verus!
