//! Transition rules: the entries of a machine's transition table, and the
//! parser that builds one rule from a whitespace-separated text line.

use vstd::prelude::*;
use vstd::string::StrSliceExecFns;

use crate::text::lemma_tokens_nonempty;
use crate::text::lines_of;
use crate::text::split_lines;
use crate::text::str_eq;
use crate::text::tokenize;
use crate::text::tokens;
use crate::text::views_of;

verus! {

/// Head movement direction of a rule: one cell to the left or to the right.
#[derive(Clone, Copy, Debug, PartialEq, Eq, Structural)]
pub enum Step {
    Left,
    Right,
}

/// One transition rule: in state `current`, reading `read` under the head,
/// write `write`, move the head one cell in direction `step`, and enter
/// state `next`.
#[derive(Debug)]
pub struct Instruction {
    pub current: String,
    pub read: char,
    pub write: char,
    pub step: Step,
    pub next: String,
}

/// The mathematical content of an [`Instruction`]: the same five fields with
/// the state labels as character sequences.
pub ghost struct RuleView {
    pub current: Seq<char>,
    pub read: char,
    pub write: char,
    pub step: Step,
    pub next: Seq<char>,
}

impl View for Instruction {
    type V = RuleView;

    open spec fn view(&self) -> RuleView {
        RuleView {
            current: self.current@,
            read: self.read,
            write: self.write,
            step: self.step,
            next: self.next@,
        }
    }
}

/// Why a rule line was rejected: one of the five fields is missing, or the
/// direction token is not exactly `L` or `R`.
#[derive(Clone, Copy, Debug, PartialEq, Eq, Structural)]
pub enum RuleError {
    MissingCurrentState,
    MissingReadSymbol,
    MissingWriteSymbol,
    MissingDirection,
    InvalidDirection,
    MissingNextState,
}

impl RuleError {
    /// A human-readable description naming the field that failed.
    pub fn message(&self) -> (r: String)
        ensures
            self is MissingCurrentState ==> r@ == "did not provide current state"@,
            self is MissingReadSymbol ==> r@ == "did not provide read char"@,
            self is MissingWriteSymbol ==> r@ == "did not provide write char"@,
            self is MissingDirection ==> r@ == "did not provide direction"@,
            self is InvalidDirection ==> r@ == "step is expected to be L or R"@,
            self is MissingNextState ==> r@ == "did not provide next state"@,
    {
        match self {
            RuleError::MissingCurrentState => "did not provide current state".to_owned(),
            RuleError::MissingReadSymbol => "did not provide read char".to_owned(),
            RuleError::MissingWriteSymbol => "did not provide write char".to_owned(),
            RuleError::MissingDirection => "did not provide direction".to_owned(),
            RuleError::InvalidDirection => "step is expected to be L or R".to_owned(),
            RuleError::MissingNextState => "did not provide next state".to_owned(),
        }
    }
}

/// What parsing one rule line yields: the first five whitespace-separated
/// tokens are current state, read symbol, write symbol, direction (`L` or
/// `R`, case-sensitive) and next state; the read and write symbols are the
/// first character of their token; tokens past the fifth are ignored.  The
/// checks run left to right, so the first missing or invalid field names the
/// error.
pub open spec fn parse_rule(line: Seq<char>) -> Result<RuleView, RuleError> {
    let ts = tokens(line);
    if ts.len() == 0 {
        Err(RuleError::MissingCurrentState)
    } else if ts.len() == 1 {
        Err(RuleError::MissingReadSymbol)
    } else if ts.len() == 2 {
        Err(RuleError::MissingWriteSymbol)
    } else if ts.len() == 3 {
        Err(RuleError::MissingDirection)
    } else if ts[3] != "L"@ && ts[3] != "R"@ {
        Err(RuleError::InvalidDirection)
    } else if ts.len() == 4 {
        Err(RuleError::MissingNextState)
    } else {
        Ok(
            RuleView {
                current: ts[0],
                read: ts[1][0],
                write: ts[2][0],
                step: if ts[3] == "L"@ {
                    Step::Left
                } else {
                    Step::Right
                },
                next: ts[4],
            },
        )
    }
}

impl Instruction {
    /// Parses one rule from a line of text, exactly as [`parse_rule`]
    /// describes.
    pub fn from_str(s: &str) -> (r: Result<Instruction, RuleError>)
        ensures
            match r {
                Ok(ins) => parse_rule(s@) == Ok::<RuleView, RuleError>(ins@),
                Err(e) => parse_rule(s@) == Err::<RuleView, RuleError>(e),
            },
    {
        let ts = tokenize(s);
        proof {
            lemma_tokens_nonempty(s@);
            assert(views_of(ts@).len() == ts@.len());
        }
        if ts.len() == 0 {
            return Err(RuleError::MissingCurrentState);
        }
        if ts.len() == 1 {
            return Err(RuleError::MissingReadSymbol);
        }
        if ts.len() == 2 {
            return Err(RuleError::MissingWriteSymbol);
        }
        if ts.len() == 3 {
            return Err(RuleError::MissingDirection);
        }
        proof {
            assert(views_of(ts@)[3] == ts@[3]@);
        }
        let is_l = str_eq(ts[3].as_str(), "L");
        let is_r = str_eq(ts[3].as_str(), "R");
        if !is_l && !is_r {
            return Err(RuleError::InvalidDirection);
        }
        if ts.len() == 4 {
            return Err(RuleError::MissingNextState);
        }
        proof {
            assert(views_of(ts@)[0] == ts@[0]@);
            assert(views_of(ts@)[1] == ts@[1]@);
            assert(views_of(ts@)[2] == ts@[2]@);
            assert(views_of(ts@)[4] == ts@[4]@);
        }
        let read = ts[1].as_str().get_char(0);
        let write = ts[2].as_str().get_char(0);
        let ins = Instruction {
            current: ts[0].clone(),
            read,
            write,
            step: if is_l {
                Step::Left
            } else {
                Step::Right
            },
            next: ts[4].clone(),
        };
        Ok(ins)
    }
}

/// The mathematical content of a sequence of instructions.
pub open spec fn rule_views(v: Seq<Instruction>) -> Seq<RuleView> {
    v.map_values(|i: Instruction| i@)
}

/// What parsing a sequence of lines yields: each non-empty line contributes
/// one rule in order, empty lines are skipped, and the error of the first
/// malformed line is reported.
pub open spec fn parse_lines(ls: Seq<Seq<char>>) -> Result<Seq<RuleView>, RuleError>
    decreases ls.len(),
{
    if ls.len() == 0 {
        Ok(Seq::empty())
    } else if ls[0].len() == 0 {
        parse_lines(ls.drop_first())
    } else {
        match parse_rule(ls[0]) {
            Err(e) => Err(e),
            Ok(rv) => match parse_lines(ls.drop_first()) {
                Err(e) => Err(e),
                Ok(rest) => Ok(seq![rv] + rest),
            },
        }
    }
}

/// What parsing a whole rule file yields: [`parse_lines`] applied to its
/// lines.
pub open spec fn parse_rules_text(s: Seq<char>) -> Result<Seq<RuleView>, RuleError> {
    parse_lines(lines_of(s))
}

/// Builds a transition table from the text of a rule file, one rule per
/// non-empty line, exactly as [`parse_rules_text`] describes.  No table is
/// built from text with a malformed line: the first such line's error is
/// returned instead.
pub fn parse_rules(s: &str) -> (r: Result<Vec<Instruction>, RuleError>)
    ensures
        match r {
            Ok(v) => parse_rules_text(s@) == Ok::<Seq<RuleView>, RuleError>(rule_views(v@)),
            Err(e) => parse_rules_text(s@) == Err::<Seq<RuleView>, RuleError>(e),
        },
{
    let ls = split_lines(s);
    let mut out: Vec<Instruction> = Vec::new();
    let mut i: usize = 0;
    proof {
        assert(views_of(ls@).skip(0) =~= views_of(ls@));
        assert(rule_views(out@) =~= Seq::<RuleView>::empty());
    }
    while i < ls.len()
        invariant
            i <= ls@.len(),
            views_of(ls@) == lines_of(s@),
            parse_lines(lines_of(s@)) == (match parse_lines(views_of(ls@).skip(i as int)) {
                Ok(rest) => Ok::<Seq<RuleView>, RuleError>(rule_views(out@) + rest),
                Err(e) => Err::<Seq<RuleView>, RuleError>(e),
            }),
        decreases ls@.len() - i,
    {
        proof {
            assert(views_of(ls@).skip(i as int)[0] == views_of(ls@)[i as int]);
            assert(views_of(ls@)[i as int] == ls@[i as int]@);
            assert(views_of(ls@).skip(i as int).drop_first() =~= views_of(ls@).skip(i + 1));
        }
        let line = &ls[i];
        if line.unicode_len() > 0 {
            match Instruction::from_str(line.as_str()) {
                Err(e) => {
                    return Err(e);
                },
                Ok(ins) => {
                    proof {
                        assert(rule_views(out@.push(ins)) =~= rule_views(out@).push(ins@));
                        if parse_lines(views_of(ls@).skip(i + 1)) is Ok {
                            let rest = parse_lines(views_of(ls@).skip(i + 1))->Ok_0;
                            assert(rule_views(out@) + (seq![ins@] + rest) =~= rule_views(
                                out@.push(ins),
                            ) + rest);
                        }
                    }
                    out.push(ins);
                },
            }
        }
        i = i + 1;
    }
    proof {
        assert(views_of(ls@).skip(ls@.len() as int) =~= Seq::<Seq<char>>::empty());
        assert(rule_views(out@) + Seq::<RuleView>::empty() =~= rule_views(out@));
    }
    Ok(out)
}

} // verus!
