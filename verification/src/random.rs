use vstd::prelude::*;
use crate::entropy::draw_i64;
use crate::entropy::draw_index;
use crate::entropy::fresh_generator;
use crate::error::ValidationError;
use crate::integer::parse_integer;
use crate::integer::parsed;
use crate::range::NormalizedBounds;
use crate::range::RangeSpec;

verus! {

/// What a successful request produces: a member of a progression, or one of
/// the tokens that were offered.
#[derive(Clone, Debug, PartialEq, Eq)]
pub enum SampleOutcome {
    Integer(i64),
    Token(Vec<char>),
}

/// What is left to do once the operands are accepted.
#[derive(Clone, Copy, Debug, PartialEq, Eq, Structural)]
pub enum Plan {
    /// Pick one of the operands that follow the keyword.
    Choice,
    /// Draw an index within the bounds and map it back.
    Range { spec: RangeSpec, bounds: NormalizedBounds },
}

/// The operands as sequences of characters.
pub open spec fn tokens_of(operands: Seq<Vec<char>>) -> Seq<Seq<char>> {
    operands.map_values(|t: Vec<char>| t@)
}

/// The keyword that asks for a pick among tokens.
pub open spec fn choice_word() -> Seq<char> {
    seq!['c', 'h', 'o', 'i', 'c', 'e']
}

/// The plan for a triple: validate it, then normalize it.
pub open spec fn range_plan(start: i64, step: i64, end: i64) -> Result<Plan, ValidationError> {
    match RangeSpec::validated(start, step, end) {
        Err(e) => Err(e),
        Ok(spec) => match spec.normalized() {
            Err(e) => Err(e),
            Ok(bounds) => Ok(Plan::Range { spec, bounds }),
        },
    }
}

/// The step that an explicit token gives. One too large for 64 bits can
/// reach no second value, and is refused as a range of one value.
pub open spec fn step_of(token: Seq<char>) -> Result<i64, ValidationError> {
    match parsed(token) {
        Err(ValidationError::IntegerOverflow) => Err(ValidationError::SingleValueRange),
        Err(e) => Err(e),
        Ok(step) => if step <= 0 {
            Err(ValidationError::StepNotPositive)
        } else {
            Ok(step)
        },
    }
}

/// The plan for two operands: a start and an end, with a step of one.
pub open spec fn plan_of_two(first: Seq<char>, second: Seq<char>) -> Result<
    Plan,
    ValidationError,
> {
    match parsed(first) {
        Err(e) => Err(e),
        Ok(start) => match parsed(second) {
            Err(e) => Err(e),
            Ok(end) => range_plan(start, 1, end),
        },
    }
}

/// The plan for three operands: a start, a step and an end, read in that
/// order, each refused before the next is read.
pub open spec fn plan_of_three(first: Seq<char>, second: Seq<char>, third: Seq<char>) -> Result<
    Plan,
    ValidationError,
> {
    match parsed(first) {
        Err(e) => Err(e),
        Ok(start) => match step_of(second) {
            Err(e) => Err(e),
            Ok(step) => match parsed(third) {
                Err(e) => Err(e),
                Ok(end) => range_plan(start, step, end),
            },
        },
    }
}

/// The plan that the operands ask for, or the reason why they are refused.
pub open spec fn planned(ops: Seq<Seq<char>>) -> Result<Plan, ValidationError> {
    if ops.len() >= 1 && ops[0] == choice_word() {
        if ops.len() == 1 {
            Err(ValidationError::EmptyChoiceList)
        } else {
            Ok(Plan::Choice)
        }
    } else if ops.len() == 0 {
        range_plan(0, 1, 32767)
    } else if ops.len() == 1 {
        Err(ValidationError::SeedingUnimplemented)
    } else if ops.len() == 2 {
        plan_of_two(ops[0], ops[1])
    } else if ops.len() == 3 {
        plan_of_three(ops[0], ops[1], ops[2])
    } else {
        Err(ValidationError::TooManyOperands)
    }
}

/// The outcome is one that the operands allow: the error that refuses them,
/// or one of the tokens that follow the keyword, or the value of an index
/// within the bounds.
pub open spec fn admits(
    ops: Seq<Seq<char>>,
    outcome: Result<SampleOutcome, ValidationError>,
) -> bool {
    match planned(ops) {
        Err(e) => outcome matches Err(f) && f == e,
        Ok(Plan::Choice) => outcome matches Ok(SampleOutcome::Token(t)) && exists|i: int|
            1 <= i < ops.len() && t@ == #[trigger] ops[i],
        Ok(Plan::Range { spec, bounds }) => outcome matches Ok(SampleOutcome::Integer(v))
            && exists|r: int|
            bounds.low <= r <= bounds.high && v == #[trigger] spec.value_of(r),
    }
}

/// Tells whether a token is the keyword `choice`.
pub fn is_choice_word(token: &[char]) -> (r: bool)
    ensures
        r == (token@ == choice_word()),
{
    let r: bool = token.len() == 6 && token[0] == 'c' && token[1] == 'h' && token[2] == 'o'
        && token[3] == 'i' && token[4] == 'c' && token[5] == 'e';
    proof {
        if r {
            assert(token@ =~= choice_word());
        }
    }
    r
}

/// Validates a triple and normalizes it.
pub fn plan_range(start: i64, step: i64, end: i64) -> (r: Result<Plan, ValidationError>)
    ensures
        r == range_plan(start, step, end),
{
    match RangeSpec::new(start, step, end) {
        Err(e) => Err(e),
        Ok(spec) => match spec.normalize() {
            Err(e) => Err(e),
            Ok(bounds) => Ok(Plan::Range { spec, bounds }),
        },
    }
}

/// Reads an explicit step.
pub fn parse_step(token: &[char]) -> (r: Result<i64, ValidationError>)
    ensures
        r == step_of(token@),
{
    match parse_integer(token) {
        Err(ValidationError::IntegerOverflow) => Err(ValidationError::SingleValueRange),
        Err(e) => Err(e),
        Ok(step) => if step <= 0 {
            Err(ValidationError::StepNotPositive)
        } else {
            Ok(step)
        },
    }
}

/// Decides from the operands alone what is to be drawn, or why nothing is.
/// Nothing random enters here: the same operands always give the same plan
/// or the same error.
pub fn plan(operands: &Vec<Vec<char>>) -> (r: Result<Plan, ValidationError>)
    ensures
        r == planned(tokens_of(operands@)),
{
    let n: usize = operands.len();
    proof {
        assert forall|i: int| 0 <= i < n implies tokens_of(operands@)[i] == operands@[i]@ by {}
    }
    if n >= 1 && is_choice_word(operands[0].as_slice()) {
        if n == 1 {
            Err(ValidationError::EmptyChoiceList)
        } else {
            Ok(Plan::Choice)
        }
    } else if n == 0 {
        plan_range(0, 1, 32767)
    } else if n == 1 {
        Err(ValidationError::SeedingUnimplemented)
    } else if n == 2 {
        let start: i64 = match parse_integer(operands[0].as_slice()) {
            Err(e) => { return Err(e); },
            Ok(v) => v,
        };
        let end: i64 = match parse_integer(operands[1].as_slice()) {
            Err(e) => { return Err(e); },
            Ok(v) => v,
        };
        plan_range(start, 1, end)
    } else if n == 3 {
        let start: i64 = match parse_integer(operands[0].as_slice()) {
            Err(e) => { return Err(e); },
            Ok(v) => v,
        };
        let step: i64 = match parse_step(operands[1].as_slice()) {
            Err(e) => { return Err(e); },
            Ok(v) => v,
        };
        let end: i64 = match parse_integer(operands[2].as_slice()) {
            Err(e) => { return Err(e); },
            Ok(v) => v,
        };
        plan_range(start, step, end)
    } else {
        Err(ValidationError::TooManyOperands)
    }
}

/// The token that a drawn index picks: the operand that stands `index`
/// places after the keyword.
pub fn pick_token(operands: &Vec<Vec<char>>, index: usize) -> (t: Vec<char>)
    requires
        index + 1 < operands.len(),
    ensures
        t@ == operands@[index + 1]@,
{
    let source: &Vec<char> = &operands[index + 1];
    let mut t: Vec<char> = Vec::new();
    let mut i: usize = 0;
    while i < source.len()
        invariant
            i <= source.len(),
            t@ == source@.take(i as int),
        decreases source.len() - i,
    {
        t.push(source[i]);
        assert(t@ =~= source@.take(i + 1));
        i += 1;
    }
    assert(source@.take(source.len() as int) =~= source@);
    t
}

/// Carries out a plan with what was drawn: for a pick the drawn number is the
/// place of the token among those offered, for a range it is the index.
pub fn complete(operands: &Vec<Vec<char>>, plan: &Plan, drawn: i64) -> (r: SampleOutcome)
    requires
        planned(tokens_of(operands@)) == Ok::<Plan, ValidationError>(*plan),
        match *plan {
            Plan::Choice => 0 <= drawn < operands.len() - 1,
            Plan::Range { spec, bounds } => bounds.low <= drawn <= bounds.high,
        },
    ensures
        match *plan {
            Plan::Choice => r matches SampleOutcome::Token(t) && t@ == operands@[drawn + 1]@,
            Plan::Range { spec, bounds } => r == SampleOutcome::Integer(
                spec.value_of(drawn as int) as i64,
            ) && spec.start <= spec.value_of(drawn as int) <= spec.end,
        },
        admits(tokens_of(operands@), Ok(r)),
{
    proof {
        assert forall|i: int| 0 <= i < operands.len() implies tokens_of(operands@)[i]
            == operands@[i]@ by {}
    }
    match plan {
        Plan::Choice => {
            let t: Vec<char> = pick_token(operands, drawn as usize);
            assert(t@ == tokens_of(operands@)[drawn + 1]);
            SampleOutcome::Token(t)
        },
        Plan::Range { spec, bounds } => {
            proof {
                lemma_planned_range(tokens_of(operands@));
            }
            let v: i64 = spec.value_at(bounds, drawn);
            SampleOutcome::Integer(v)
        },
    }
}

/// A plan for a range holds a valid triple with the bounds that normalizing
/// it gives.
pub proof fn lemma_planned_range(ops: Seq<Seq<char>>)
    ensures
        planned(ops) matches Ok(Plan::Range { spec, bounds }) ==> spec.wf() && spec.normalized()
            == Ok::<NormalizedBounds, ValidationError>(bounds) && bounds.wf(),
{
    if let Ok(Plan::Range { spec, bounds }) = planned(ops) {
        spec.lemma_normalized_bounds();
    }
}

/// What the number of operands decides by itself. The keyword alone is an
/// empty list to pick from; with tokens after it the request is a pick, however
/// many they are. Without the keyword, one operand is a seed, which is refused
/// as unimplemented, and more than three operands are too many.
pub proof fn lemma_operand_counts(ops: Seq<Seq<char>>)
    ensures
        ops.len() == 1 && ops[0] == choice_word() ==> planned(ops) == Err::<
            Plan,
            ValidationError,
        >(ValidationError::EmptyChoiceList) && ValidationError::EmptyChoiceList.status() == 2,
        ops.len() >= 2 && ops[0] == choice_word() ==> planned(ops) == Ok::<Plan, ValidationError>(
            Plan::Choice,
        ),
        ops.len() == 1 && ops[0] != choice_word() ==> planned(ops) == Err::<
            Plan,
            ValidationError,
        >(ValidationError::SeedingUnimplemented) && ValidationError::SeedingUnimplemented.status()
            == 255,
        ops.len() > 3 && ops[0] != choice_word() ==> planned(ops) == Err::<Plan, ValidationError>(
            ValidationError::TooManyOperands,
        ) && ValidationError::TooManyOperands.status() == 1,
        planned(ops) matches Ok(Plan::Range { spec, bounds }) ==> ops.len() == 0 || ops.len() == 2
            || ops.len() == 3,
{
}

/// An integer that the operands allow is a member of the progression that
/// they describe: it lies between the start and the end, both included, and
/// differs from the start by a multiple of the step. A token that they allow
/// is one of those after the keyword.
pub proof fn lemma_admitted_outcome(ops: Seq<Seq<char>>, outcome: SampleOutcome)
    requires
        admits(ops, Ok(outcome)),
    ensures
        match outcome {
            SampleOutcome::Integer(v) => planned(ops) matches Ok(Plan::Range { spec, bounds })
                && spec.wf() && spec.start <= v <= spec.end
                && (v - spec.start) % (spec.step as int) == 0,
            SampleOutcome::Token(t) => planned(ops) == Ok::<Plan, ValidationError>(Plan::Choice)
                && ops.len() >= 2 && ops[0] == choice_word() && exists|i: int|
                1 <= i < ops.len() && t@ == #[trigger] ops[i],
        },
{
    lemma_planned_range(ops);
    if let Ok(Plan::Range { spec, bounds }) = planned(ops) {
        let r = choose|r: int|
            bounds.low <= r <= bounds.high && outcome->Integer_0 == #[trigger] spec.value_of(r);
        spec.lemma_value_in_progression(r);
    }
}

/// Whatever is drawn, the operands alone decide whether a request is refused
/// and with which error: two outcomes that the same operands allow are both
/// refused, with the same error, or both accepted, with results of one shape.
pub proof fn lemma_same_decision(
    ops: Seq<Seq<char>>,
    first: Result<SampleOutcome, ValidationError>,
    second: Result<SampleOutcome, ValidationError>,
)
    requires
        admits(ops, first),
        admits(ops, second),
    ensures
        first is Err <==> second is Err,
        first is Err ==> first == second && planned(ops) == Err::<Plan, ValidationError>(
            first->Err_0,
        ),
        first matches Ok(a) ==> second matches Ok(b) && (a is Integer <==> b is Integer),
{
}

/// The process status of an outcome: zero for a result, and for a refusal
/// the status of its kind.
pub open spec fn status_of(outcome: Result<SampleOutcome, ValidationError>) -> int {
    match outcome {
        Ok(_) => 0,
        Err(e) => e.status(),
    }
}

/// The process status of an outcome.
pub fn exit_status(outcome: &Result<SampleOutcome, ValidationError>) -> (code: i32)
    ensures
        code == status_of(*outcome),
{
    match outcome {
        Ok(_) => 0,
        Err(e) => e.exit_code(),
    }
}

/// Produces one member of the progression that the operands describe, or one
/// of the tokens after `choice`. The operands decide alone whether the request
/// is refused and with which error; an accepted request gives an outcome that
/// the operands allow, whatever was drawn.
pub fn random(operands: &Vec<Vec<char>>) -> (r: Result<SampleOutcome, ValidationError>)
    ensures
        admits(tokens_of(operands@), r),
        r is Err <==> planned(tokens_of(operands@)) is Err,
{
    let plan: Plan = match plan(operands) {
        Err(e) => { return Err(e); },
        Ok(p) => p,
    };
    let mut rng = fresh_generator();
    match plan {
        Plan::Choice => {
            let index: usize = draw_index(&mut rng, operands.len() - 1);
            let t: Vec<char> = pick_token(operands, index);
            proof {
                assert(t@ == tokens_of(operands@)[index + 1]);
            }
            Ok(SampleOutcome::Token(t))
        },
        Plan::Range { spec, bounds } => {
            proof {
                lemma_planned_range(tokens_of(operands@));
            }
            let drawn: i64 = draw_i64(&mut rng, bounds.low, bounds.high + 1);
            Ok(complete(operands, &plan, drawn))
        },
    }
}

} // verus!
