use vstd::prelude::*;

use crate::ops::Operators;
use crate::parse::{classify, Term};

verus! {

/// What happens to the accumulator when a token arrives.
#[derive(Clone, Copy, Debug, PartialEq, Eq, Structural)]
pub enum Step {
    /// The operand becomes the accumulator.
    Load,
    /// The accumulator becomes `accumulator op operand`.
    Apply(Operators),
    /// The operand is discarded: no operator is pending and the
    /// accumulator already holds a value.
    Drop,
    /// The accumulator is replaced by its factorial.
    Factorial,
    /// The operator now waits for its right-hand operand.
    Hold,
    /// The operator has no meaning in evaluation.
    Reject,
}

/// The step for an operand, and the pending operator after it.
pub open spec fn number_step(pending: Option<Operators>, acc_is_zero: bool) -> (Step, Option<
    Operators,
>) {
    match pending {
        None => if acc_is_zero {
            (Step::Load, None)
        } else {
            (Step::Drop, None)
        },
        Some(k) => (Step::Apply(k), None),
    }
}

/// The step for an operator, and the pending operator after it.
pub open spec fn operator_step(pending: Option<Operators>, op: Operators) -> (Step, Option<
    Operators,
>) {
    if op == Operators::Factorial {
        (Step::Factorial, pending)
    } else if op == Operators::Unimplemented {
        (Step::Reject, pending)
    } else {
        (Step::Hold, Some(op))
    }
}

/// The evaluator's state besides the accumulator: the operator, if any,
/// that waits for its right-hand operand.
pub struct Evaluator {
    pub pending: Option<Operators>,
}

impl Evaluator {
    /// A fresh evaluator, with no pending operator.
    pub fn new() -> (r: Evaluator)
        ensures
            r.pending is None,
    {
        Evaluator { pending: None }
    }

    /// Decides what an operand does, given whether the accumulator is
    /// still zero.
    pub fn on_number(&mut self, acc_is_zero: bool) -> (s: Step)
        ensures
            (s, final(self).pending) == number_step(old(self).pending, acc_is_zero),
    {
        match self.pending {
            None => {
                if acc_is_zero {
                    Step::Load
                } else {
                    Step::Drop
                }
            },
            Some(k) => {
                self.pending = None;
                Step::Apply(k)
            },
        }
    }

    /// Decides what an operator does. Factorial acts at once; every other
    /// operator becomes the pending one.
    pub fn on_operator(&mut self, op: Operators) -> (s: Step)
        ensures
            (s, final(self).pending) == operator_step(old(self).pending, op),
    {
        match op {
            Operators::Factorial => Step::Factorial,
            Operators::Unimplemented => Step::Reject,
            _ => {
                self.pending = Some(op);
                Step::Hold
            },
        }
    }
}

/// A token whose operand, if any, already has its value.
pub enum Valued<V> {
    Num(V),
    Op(Operators),
}

/// The accumulator after `s`, for an operand `n`.
pub open spec fn perform<V>(
    s: Step,
    acc: V,
    n: V,
    apply: spec_fn(V, Operators, V) -> V,
    fact: spec_fn(V) -> V,
) -> V {
    match s {
        Step::Load => n,
        Step::Apply(k) => apply(acc, k, n),
        Step::Factorial => fact(acc),
        _ => acc,
    }
}

/// Accumulator and pending operator after evaluating `ts` from the given
/// state, with `zero` the accumulator's initial value, `apply` the binary
/// operators and `fact` the factorial.
pub open spec fn run<V>(
    acc: V,
    pending: Option<Operators>,
    ts: Seq<Valued<V>>,
    zero: V,
    apply: spec_fn(V, Operators, V) -> V,
    fact: spec_fn(V) -> V,
) -> (V, Option<Operators>)
    decreases ts.len(),
{
    if ts.len() == 0 {
        (acc, pending)
    } else {
        let rest = ts.subrange(1, ts.len() as int);
        match ts[0] {
            Valued::Num(n) => {
                let (s, p) = number_step(pending, acc == zero);
                run(perform(s, acc, n, apply, fact), p, rest, zero, apply, fact)
            },
            Valued::Op(k) => {
                let (s, p) = operator_step(pending, k);
                run(perform(s, acc, acc, apply, fact), p, rest, zero, apply, fact)
            },
        }
    }
}

/// The value of `ts` evaluated from a zero accumulator.
pub open spec fn evaluated<V>(
    ts: Seq<Valued<V>>,
    zero: V,
    apply: spec_fn(V, Operators, V) -> V,
    fact: spec_fn(V) -> V,
) -> V {
    run(zero, None, ts, zero, apply, fact).0
}

/// Classified terms with their operands given values: `read` gives a
/// number token its value, and a group is one operand, the value of its
/// contents.
pub open spec fn valued<V>(
    ts: Seq<Term>,
    read: spec_fn(Seq<char>) -> V,
    zero: V,
    apply: spec_fn(V, Operators, V) -> V,
    fact: spec_fn(V) -> V,
) -> Seq<Valued<V>>
    decreases ts,
{
    if ts.len() == 0 {
        Seq::empty()
    } else {
        let front = valued(ts.subrange(0, ts.len() - 1), read, zero, apply, fact);
        match ts[ts.len() - 1] {
            Term::Number(t) => front.push(Valued::Num(read(t))),
            Term::Operator(k) => front.push(Valued::Op(k)),
            Term::Group(g) => front.push(
                Valued::Num(evaluated(valued(g, read, zero, apply, fact), zero, apply, fact)),
            ),
        }
    }
}

/// The value of classified terms.
pub open spec fn value_of<V>(
    ts: Seq<Term>,
    read: spec_fn(Seq<char>) -> V,
    zero: V,
    apply: spec_fn(V, Operators, V) -> V,
    fact: spec_fn(V) -> V,
) -> V {
    evaluated(valued(ts, read, zero, apply, fact), zero, apply, fact)
}

/// The tokens `first ops[0] nums[0] ops[1] nums[1] ...`.
pub open spec fn chain<V>(first: V, ops: Seq<Operators>, nums: Seq<V>) -> Seq<Valued<V>>
    decreases ops.len(),
{
    if ops.len() == 0 {
        seq![Valued::Num(first)]
    } else {
        chain(first, ops.subrange(0, ops.len() - 1), nums.subrange(0, ops.len() - 1)) + seq![
            Valued::Op(ops[ops.len() - 1]),
            Valued::Num(nums[ops.len() - 1]),
        ]
    }
}

/// `(((first ops[0] nums[0]) ops[1] nums[1]) ...)`.
pub open spec fn fold_left<V>(
    first: V,
    ops: Seq<Operators>,
    nums: Seq<V>,
    apply: spec_fn(V, Operators, V) -> V,
) -> V
    decreases ops.len(),
{
    if ops.len() == 0 {
        first
    } else {
        apply(
            fold_left(first, ops.subrange(0, ops.len() - 1), nums.subrange(0, ops.len() - 1), apply),
            ops[ops.len() - 1],
            nums[ops.len() - 1],
        )
    }
}

/// Evaluating `a + b` is evaluating `b` from the state that `a` leaves.
proof fn lemma_run_concat<V>(
    acc: V,
    pending: Option<Operators>,
    a: Seq<Valued<V>>,
    b: Seq<Valued<V>>,
    zero: V,
    apply: spec_fn(V, Operators, V) -> V,
    fact: spec_fn(V) -> V,
)
    ensures
        run(acc, pending, a + b, zero, apply, fact) == ({
            let (acc2, p2) = run(acc, pending, a, zero, apply, fact);
            run(acc2, p2, b, zero, apply, fact)
        }),
    decreases a.len(),
{
    if a.len() == 0 {
        assert(a + b =~= b);
    } else {
        let ab = a + b;
        assert(ab.subrange(1, ab.len() as int) =~= a.subrange(1, a.len() as int) + b);
        assert(ab[0] == a[0]);
        match a[0] {
            Valued::Num(n) => {
                let (s, p) = number_step(pending, acc == zero);
                lemma_run_concat(
                    perform(s, acc, n, apply, fact),
                    p,
                    a.subrange(1, a.len() as int),
                    b,
                    zero,
                    apply,
                    fact,
                );
            },
            Valued::Op(k) => {
                let (s, p) = operator_step(pending, k);
                lemma_run_concat(
                    perform(s, acc, acc, apply, fact),
                    p,
                    a.subrange(1, a.len() as int),
                    b,
                    zero,
                    apply,
                    fact,
                );
            },
        }
    }
}

/// A chain of binary operators leaves the left fold in the accumulator
/// and no operator pending.
proof fn lemma_chain_state<V>(
    first: V,
    ops: Seq<Operators>,
    nums: Seq<V>,
    zero: V,
    apply: spec_fn(V, Operators, V) -> V,
    fact: spec_fn(V) -> V,
)
    requires
        ops.len() == nums.len(),
        forall|i: int|
            0 <= i < ops.len() ==> #[trigger] ops[i] != Operators::Factorial && ops[i]
                != Operators::Unimplemented,
    ensures
        run(zero, None, chain(first, ops, nums), zero, apply, fact) == (
            fold_left(first, ops, nums, apply),
            None::<Operators>,
        ),
    decreases ops.len(),
{
    if ops.len() == 0 {
        let ts = chain(first, ops, nums);
        assert(ts.subrange(1, 1) =~= Seq::<Valued<V>>::empty());
        assert(run(first, None, ts.subrange(1, 1), zero, apply, fact) == (first, None::<Operators>));
    } else {
        let m = ops.len() - 1;
        let front_ops = ops.subrange(0, m);
        let front_nums = nums.subrange(0, m);
        assert forall|i: int| 0 <= i < front_ops.len() implies #[trigger] front_ops[i]
            != Operators::Factorial && front_ops[i] != Operators::Unimplemented by {
            assert(front_ops[i] == ops[i]);
        }
        lemma_chain_state(first, front_ops, front_nums, zero, apply, fact);
        let tail = seq![Valued::Op(ops[m]), Valued::Num(nums[m])];
        lemma_run_concat(zero, None, chain(first, front_ops, front_nums), tail, zero, apply, fact);
        let acc = fold_left(first, front_ops, front_nums, apply);
        let after_op = tail.subrange(1, 2);
        assert(after_op =~= seq![Valued::Num(nums[m])]);
        assert(after_op.subrange(1, 1) =~= Seq::<Valued<V>>::empty());
        let acc2 = apply(acc, ops[m], nums[m]);
        assert(run(acc2, None, after_op.subrange(1, 1), zero, apply, fact) == (
            acc2,
            None::<Operators>,
        ));
        assert(run(acc, Some(ops[m]), after_op, zero, apply, fact) == (
            apply(acc, ops[m], nums[m]),
            None::<Operators>,
        ));
    }
}

/// Evaluation is the strict left-to-right fold: for operands
/// `first, nums[0], nums[1], ...` joined by binary operators
/// `ops[0], ops[1], ...`, each operator is applied to the accumulated value
/// and the operand that follows it, in order, with no precedence.
pub proof fn lemma_left_to_right<V>(
    first: V,
    ops: Seq<Operators>,
    nums: Seq<V>,
    zero: V,
    apply: spec_fn(V, Operators, V) -> V,
    fact: spec_fn(V) -> V,
)
    requires
        ops.len() == nums.len(),
        forall|i: int|
            0 <= i < ops.len() ==> #[trigger] ops[i] != Operators::Factorial && ops[i]
                != Operators::Unimplemented,
    ensures
        evaluated(chain(first, ops, nums), zero, apply, fact) == fold_left(first, ops, nums, apply),
{
    lemma_chain_state(first, ops, nums, zero, apply, fact);
}

/// Evaluating a single operand gives that operand back unchanged.
pub proof fn lemma_single_operand<V>(
    n: V,
    zero: V,
    apply: spec_fn(V, Operators, V) -> V,
    fact: spec_fn(V) -> V,
)
    ensures
        evaluated(seq![Valued::Num(n)], zero, apply, fact) == n,
{
    let ts = seq![Valued::Num(n)];
    assert(ts.subrange(1, 1) =~= Seq::<Valued<V>>::empty());
    assert(run(n, None, ts.subrange(1, 1), zero, apply, fact) == (n, None::<Operators>));
}

/// A list of one number token is classified as that number, and
/// evaluates to the token's value unchanged.
pub proof fn lemma_single_number_token<V>(
    t: Seq<char>,
    read: spec_fn(Seq<char>) -> V,
    zero: V,
    apply: spec_fn(V, Operators, V) -> V,
    fact: spec_fn(V) -> V,
)
    ensures
        classify(seq![t], seq![true], 0, 1) == Ok::<Seq<Term>, crate::parse::ParseError>(
            seq![Term::Number(t)],
        ),
        value_of(seq![Term::Number(t)], read, zero, apply, fact) == read(t),
{
    let ts = seq![Term::Number(t)];
    assert(classify(seq![t], seq![true], 1, 1) == Ok::<Seq<Term>, crate::parse::ParseError>(
        Seq::empty(),
    ));
    assert(seq![Term::Number(t)] + Seq::<Term>::empty() =~= ts);
    assert(ts.subrange(0, 0) =~= Seq::<Term>::empty());
    assert(valued(Seq::<Term>::empty(), read, zero, apply, fact) == Seq::<Valued<V>>::empty());
    assert(Seq::<Valued<V>>::empty().push(Valued::Num(read(t))) =~= seq![Valued::Num(read(t))]);
    assert(valued(ts, read, zero, apply, fact) == seq![Valued::Num(read(t))]);
    lemma_single_operand(read(t), zero, apply, fact);
}

} // verus!
