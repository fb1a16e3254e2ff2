//! The machine engine: first-match rule lookup, the single-step transition
//! with on-demand tape growth at either end, halt detection, and the
//! two-line diagnostic rendering of tape and head.

use vstd::prelude::*;

use crate::rule::Instruction;
use crate::rule::Step;
use crate::text::lemma_tokens_nonempty;
use crate::text::push_char;
use crate::text::str_eq;
use crate::text::tokenize;
use crate::text::tokens;
use crate::text::views_of;

verus! {

/// The blank symbol used when the tape grows at either end.
pub const BLANK: char = '0';

/// The reserved terminal state label, recognized by the engine itself and
/// never looked up in the table.
pub open spec fn halt_label() -> Seq<char> {
    "HALT"@
}

/// Whether `ins` fires for a machine in state `state` reading `read`.
pub open spec fn rule_matches(ins: Instruction, state: Seq<char>, read: char) -> bool {
    ins.current@ == state && ins.read == read
}

/// The first rule of `table`, in table order, that fires for `state` reading
/// `read`.  This first-match policy is the tie-break for tables that hold
/// more than one rule for the same (state, symbol) pair.
pub open spec fn find_rule(table: Seq<Instruction>, state: Seq<char>, read: char) -> Option<
    Instruction,
>
    decreases table.len(),
{
    if table.len() == 0 {
        None
    } else if rule_matches(table[0], state, read) {
        Some(table[0])
    } else {
        find_rule(table.drop_first(), state, read)
    }
}

/// The tape after the pre-write boundary extension: stepping left off the
/// left edge prepends one blank, stepping right off the right edge appends
/// one blank, and otherwise the tape is unchanged.
pub open spec fn grown_tape(t: Seq<char>, h: int, ins: Instruction) -> Seq<char> {
    if ins.step == Step::Left && h == 0 {
        seq![BLANK] + t
    } else if ins.step == Step::Right && h == t.len() - 1 {
        t.push(BLANK)
    } else {
        t
    }
}

/// The head index after the pre-write boundary extension: prepending shifts
/// every cell, so the head moves with its cell; appending leaves it alone.
pub open spec fn grown_head(t: Seq<char>, h: int, ins: Instruction) -> int {
    if ins.step == Step::Left && h == 0 {
        h + 1
    } else {
        h
    }
}

/// The tape after one application of `ins` at head `h`: grow, then write the
/// rule's symbol at the (possibly shifted) original cell.
pub open spec fn step_tape(t: Seq<char>, h: int, ins: Instruction) -> Seq<char> {
    grown_tape(t, h, ins).update(grown_head(t, h, ins), ins.write)
}

/// The head index after one application of `ins` at head `h`: one cell in
/// the rule's direction from the (possibly shifted) original cell.
pub open spec fn step_head(t: Seq<char>, h: int, ins: Instruction) -> int {
    match ins.step {
        Step::Left => grown_head(t, h, ins) - 1,
        Step::Right => grown_head(t, h, ins) + 1,
    }
}

/// The tape described by a line of text: each whitespace-separated token
/// contributes one cell, holding the token's first character.
pub open spec fn tape_of(s: Seq<char>) -> Seq<char> {
    tokens(s).map_values(|t: Seq<char>| t[0])
}

/// Builds an initial tape from the text of a tape file, exactly as
/// [`tape_of`] describes.
pub fn parse_tape(s: &str) -> (r: Vec<char>)
    ensures
        r@ == tape_of(s@),
{
    let ts = tokenize(s);
    let mut r: Vec<char> = Vec::new();
    let mut i: usize = 0;
    while i < ts.len()
        invariant
            i <= ts@.len(),
            views_of(ts@) == tokens(s@),
            r@.len() == i,
            forall|k: int| 0 <= k < i ==> r@[k] == tokens(s@)[k][0],
        decreases ts@.len() - i,
    {
        proof {
            lemma_tokens_nonempty(s@);
            assert(views_of(ts@).len() == ts@.len());
            assert(views_of(ts@)[i as int] == ts@[i as int]@);
            assert(tokens(s@)[i as int].len() > 0);
        }
        let c = ts[i].as_str().get_char(0);
        r.push(c);
        i = i + 1;
    }
    proof {
        assert(r@ =~= tape_of(s@));
    }
    r
}

/// The text of the symbol row: each tape symbol followed by two spaces.
pub open spec fn cells_repr(t: Seq<char>) -> Seq<char>
    decreases t.len(),
{
    if t.len() == 0 {
        Seq::empty()
    } else {
        cells_repr(t.drop_last()) + seq![t.last(), ' ', ' ']
    }
}

/// The text of the marker row before the caret: three spaces for each cell
/// left of the head, so the caret lines up under the head's symbol.
pub open spec fn marker_repr(h: int) -> Seq<char>
    decreases h,
{
    if h <= 0 {
        Seq::empty()
    } else {
        marker_repr(h - 1) + seq![' ', ' ', ' ']
    }
}

/// The two-line rendering of a tape and head: the symbol row, a newline,
/// then a caret aligned under the head.
pub open spec fn render_repr(t: Seq<char>, h: int) -> Seq<char> {
    cells_repr(t) + seq!['\n'] + marker_repr(h) + seq!['^', '\n']
}

/// Why a `next` call reported termination.
#[derive(Clone, Copy, Debug, PartialEq, Eq, Structural)]
pub enum HaltReason {
    /// The machine sat in the reserved `"HALT"` state; nothing was looked up.
    Explicit,
    /// No rule of the table fires for the current state and read symbol.
    NoRule,
}

/// The outcome of one `next` call.
#[derive(Clone, Copy, Debug, PartialEq, Eq, Structural)]
pub enum StepOutcome {
    Advanced,
    Halted(HaltReason),
}

/// The machine: a growable tape of symbols, the head index, the current
/// state label, and the transition table (immutable during execution).
#[derive(Debug)]
pub struct Machine {
    pub tape: Vec<char>,
    pub head: usize,
    pub state_table: Vec<Instruction>,
    pub state: String,
}

/// Linear scan of the table in order; returns the first rule whose current
/// state and read symbol both match, exactly as [`find_rule`] describes.
pub fn get_instruction<'a>(state_table: &'a Vec<Instruction>, state: &str, read: char) -> (r:
    Option<&'a Instruction>)
    ensures
        match r {
            Some(ins) => find_rule(state_table@, state@, read) == Some(*ins),
            None => find_rule(state_table@, state@, read) is None,
        },
{
    proof {
        assert(state_table@.skip(0) =~= state_table@);
    }
    let mut idx: usize = 0;
    while idx < state_table.len()
        invariant
            idx <= state_table@.len(),
            find_rule(state_table@, state@, read) == find_rule(
                state_table@.skip(idx as int),
                state@,
                read,
            ),
        decreases state_table@.len() - idx,
    {
        let ins = &state_table[idx];
        proof {
            assert(state_table@.skip(idx as int)[0] == state_table@[idx as int]);
        }
        if str_eq(ins.current.as_str(), state) && ins.read == read {
            return Some(ins);
        }
        proof {
            assert(state_table@.skip(idx as int).drop_first() =~= state_table@.skip(idx + 1));
        }
        idx = idx + 1;
    }
    proof {
        assert(state_table@.skip(state_table@.len() as int) =~= Seq::<Instruction>::empty());
    }
    None
}

impl Machine {
    /// The tape boundary invariant: the head points into the tape.
    pub open spec fn wf(&self) -> bool {
        self.head < self.tape@.len()
    }

    /// Performs one transition.  A machine in the reserved `"HALT"` state
    /// halts explicitly without any lookup or change; a machine whose table
    /// holds no rule for the current state and read symbol halts with
    /// `NoRule`, unchanged; otherwise the first matching rule is applied —
    /// grow the tape at the edge being stepped off, write, switch state,
    /// move the head — and the machine advances.
    pub fn next(&mut self) -> (r: StepOutcome)
        requires
            old(self).wf(),
        ensures
            final(self).wf(),
            final(self).state_table@ == old(self).state_table@,
            ({
                let t0 = old(self).tape@;
                let h0 = old(self).head as int;
                let found = find_rule(old(self).state_table@, old(self).state@, t0[h0]);
                match r {
                    StepOutcome::Halted(HaltReason::Explicit) => {
                        &&& old(self).state@ == halt_label()
                        &&& final(self).tape@ == t0
                        &&& final(self).head == old(self).head
                        &&& final(self).state@ == old(self).state@
                    },
                    StepOutcome::Halted(HaltReason::NoRule) => {
                        &&& old(self).state@ != halt_label()
                        &&& found is None
                        &&& final(self).tape@ == t0
                        &&& final(self).head == old(self).head
                        &&& final(self).state@ == old(self).state@
                    },
                    StepOutcome::Advanced => {
                        &&& old(self).state@ != halt_label()
                        &&& found is Some
                        &&& final(self).tape@ == step_tape(t0, h0, found->0)
                        &&& final(self).head as int == step_head(t0, h0, found->0)
                        &&& final(self).state@ == (found->0).next@
                    },
                }
            }),
    {
        if str_eq(self.state.as_str(), "HALT") {
            return StepOutcome::Halted(HaltReason::Explicit);
        }
        let read = self.tape[self.head];
        let found = get_instruction(&self.state_table, self.state.as_str(), read);
        let (write, step, next_state) = match found {
            None => {
                return StepOutcome::Halted(HaltReason::NoRule);
            },
            Some(ins) => (ins.write, ins.step, ins.next.clone()),
        };
        if step == Step::Left && self.head == 0 {
            self.tape.insert(0, BLANK);
            self.head = self.head + 1;
            proof {
                assert(old(self).tape@.insert(0, BLANK) =~= seq![BLANK] + old(self).tape@);
            }
        }
        if step == Step::Right && self.head == self.tape.len() - 1 {
            self.tape.push(BLANK);
        }
        self.tape[self.head] = write;
        self.state = next_state;
        self.head = match step {
            Step::Left => self.head - 1,
            Step::Right => self.head + 1,
        };
        StepOutcome::Advanced
    }

    /// Renders the tape and head as two lines of text, exactly as
    /// [`render_repr`] describes.  A diagnostic hook only: it changes no
    /// machine state.
    pub fn render(&self) -> (r: String)
        ensures
            r@ == render_repr(self.tape@, self.head as int),
    {
        let mut r = String::new();
        proof {
            assert(self.tape@.take(0) =~= Seq::<char>::empty());
        }
        let mut i: usize = 0;
        while i < self.tape.len()
            invariant
                i <= self.tape@.len(),
                r@ == cells_repr(self.tape@.take(i as int)),
            decreases self.tape@.len() - i,
        {
            push_char(&mut r, self.tape[i]);
            push_char(&mut r, ' ');
            push_char(&mut r, ' ');
            proof {
                assert(self.tape@.take(i + 1).drop_last() =~= self.tape@.take(i as int));
                assert(r@ =~= cells_repr(self.tape@.take(i + 1)));
            }
            i = i + 1;
        }
        proof {
            assert(self.tape@.take(self.tape@.len() as int) =~= self.tape@);
        }
        push_char(&mut r, '\n');
        let mut k: usize = 0;
        while k < self.head
            invariant
                k <= self.head,
                r@ == cells_repr(self.tape@) + seq!['\n'] + marker_repr(k as int),
            decreases self.head - k,
        {
            push_char(&mut r, ' ');
            push_char(&mut r, ' ');
            push_char(&mut r, ' ');
            proof {
                assert(r@ =~= cells_repr(self.tape@) + seq!['\n'] + marker_repr(k + 1));
            }
            k = k + 1;
        }
        push_char(&mut r, '^');
        push_char(&mut r, '\n');
        proof {
            assert(r@ =~= render_repr(self.tape@, self.head as int));
        }
        r
    }

    /// Replaces the tape.
    pub fn with_tape(&mut self, tape: Vec<char>)
        ensures
            final(self).tape@ == tape@,
            final(self).head == old(self).head,
            final(self).state_table@ == old(self).state_table@,
            final(self).state@ == old(self).state@,
    {
        self.tape = tape;
    }

    /// Repositions the head.
    pub fn with_head(&mut self, head: usize)
        ensures
            final(self).head == head,
            final(self).tape@ == old(self).tape@,
            final(self).state_table@ == old(self).state_table@,
            final(self).state@ == old(self).state@,
    {
        self.head = head;
    }

    /// Replaces the transition table.
    pub fn with_state_table(&mut self, state_table: Vec<Instruction>)
        ensures
            final(self).state_table@ == state_table@,
            final(self).tape@ == old(self).tape@,
            final(self).head == old(self).head,
            final(self).state@ == old(self).state@,
    {
        self.state_table = state_table;
    }

    /// Replaces the current state label.
    pub fn with_state(&mut self, state: String)
        ensures
            final(self).state@ == state@,
            final(self).tape@ == old(self).tape@,
            final(self).head == old(self).head,
            final(self).state_table@ == old(self).state_table@,
    {
        self.state = state;
    }
}

/// First-match policy: a rule that fires and before which no rule fires is
/// the one the lookup returns, so of two rules for the same (state, symbol)
/// pair the one earlier in table order is applied, whatever comes later.
pub proof fn lemma_first_match_wins(table: Seq<Instruction>, state: Seq<char>, read: char, i: int)
    requires
        0 <= i < table.len(),
        rule_matches(table[i], state, read),
        forall|j: int| 0 <= j < i ==> !rule_matches(table[j], state, read),
    ensures
        find_rule(table, state, read) == Some(table[i]),
    decreases i,
{
    if i == 0 {
    } else {
        assert(!rule_matches(table[0], state, read));
        assert forall|j: int| 0 <= j < i - 1 implies !rule_matches(
            table.drop_first()[j],
            state,
            read,
        ) by {
            assert(table.drop_first()[j] == table[j + 1]);
        }
        assert(table.drop_first()[i - 1] == table[i]);
        lemma_first_match_wins(table.drop_first(), state, read, i - 1);
    }
}

/// Left-extension correctness: one step of a left-moving rule taken at the
/// left edge grows the tape by exactly one blank cell at the front.  The
/// written symbol lands at the original logical cell — now index 1 — never
/// at the new index 0, and every other symbol keeps its value, shifted one
/// place to the right.
pub proof fn lemma_left_extension(t: Seq<char>, ins: Instruction)
    requires
        t.len() > 0,
        ins.step == Step::Left,
    ensures
        step_tape(t, 0, ins).len() == t.len() + 1,
        step_tape(t, 0, ins)[0] == BLANK,
        step_tape(t, 0, ins)[1] == ins.write,
        forall|j: int| 1 <= j < t.len() ==> step_tape(t, 0, ins)[j + 1] == t[j],
        step_head(t, 0, ins) == 0,
{
    assert(forall|j: int| 1 <= j < t.len() ==> (seq![BLANK] + t)[j + 1] == t[j]);
}

/// Right-extension correctness: one step of a right-moving rule taken at the
/// right edge appends exactly one blank cell, and the write and the head
/// move proceed as they would in the interior.
pub proof fn lemma_right_extension(t: Seq<char>, ins: Instruction)
    requires
        t.len() > 0,
        ins.step == Step::Right,
    ensures
        step_tape(t, t.len() - 1, ins).len() == t.len() + 1,
        step_tape(t, t.len() - 1, ins)[t.len() - 1] == ins.write,
        step_tape(t, t.len() - 1, ins).last() == BLANK,
        forall|j: int| 0 <= j < t.len() - 1 ==> step_tape(t, t.len() - 1, ins)[j] == t[j],
        step_head(t, t.len() - 1, ins) == t.len(),
{
}

impl Default for Machine {
    /// A fresh machine: twenty blank cells, head at the left edge, an empty
    /// table, and the fixed default start state `"A"` (states are not
    /// derived from the table).
    fn default() -> (m: Machine)
        ensures
            m.tape@.len() == 20,
            forall|i: int| 0 <= i < 20 ==> m.tape@[i] == BLANK,
            m.head == 0,
            m.state_table@.len() == 0,
            m.state@ == "A"@,
            m.wf(),
    {
        Machine { tape: vec![BLANK; 20], head: 0, state_table: Vec::new(), state: "A".to_owned() }
    }
}

} // verus!
