//! How a flat run of operands and binary operators becomes a tree.
//!
//! Operands `e0 .. en` alternate with operators `o0 .. o(n-1)`: operator `k`
//! stands between the operands `k` and `k + 1`. The tree splits the run at
//! the operator that binds least; among several of the same priority it
//! splits at the last, so that operators of one priority associate to the
//! left.

use vstd::prelude::*;
use crate::ast::BinaryOperator;
use crate::model::Expr;

verus! {

/// The index of the operator at which the operands `lo ..= hi` split: the
/// last among the operators `lo .. hi` of the lowest priority.
pub open spec fn split_point(ops: Seq<BinaryOperator>, lo: int, hi: int) -> int
    decreases hi - lo,
{
    if hi - lo <= 1 {
        lo
    } else {
        let k = split_point(ops, lo, hi - 1);
        if ops[hi - 1].spec_priority() <= ops[k].spec_priority() {
            hi - 1
        } else {
            k
        }
    }
}

/// Every operator of `lo .. hi` has at least the priority `p`.
pub open spec fn all_at_least(ops: Seq<BinaryOperator>, lo: int, hi: int, p: int) -> bool {
    forall|j: int| lo <= j < hi ==> (#[trigger] ops[j]).spec_priority() >= p
}

/// Every operator of `lo .. hi` has a priority above `p`.
pub open spec fn all_above(ops: Seq<BinaryOperator>, lo: int, hi: int, p: int) -> bool {
    forall|j: int| lo <= j < hi ==> (#[trigger] ops[j]).spec_priority() > p
}

/// The split point is an operator of the range; none before it binds less,
/// and every one after it binds tighter.
pub proof fn lemma_split_point(ops: Seq<BinaryOperator>, lo: int, hi: int)
    requires
        lo < hi,
    ensures
        lo <= split_point(ops, lo, hi) < hi,
        all_at_least(
            ops,
            lo,
            split_point(ops, lo, hi),
            ops[split_point(ops, lo, hi)].spec_priority() as int,
        ),
        all_above(
            ops,
            split_point(ops, lo, hi) + 1,
            hi,
            ops[split_point(ops, lo, hi)].spec_priority() as int,
        ),
    decreases hi - lo,
{
    if hi - lo > 1 {
        lemma_split_point(ops, lo, hi - 1);
    }
}

/// The split point is the only operator of the range that none before it
/// binds less than and every one after it binds tighter than.
pub proof fn lemma_split_point_unique(ops: Seq<BinaryOperator>, lo: int, hi: int, k: int)
    requires
        lo <= k < hi,
        all_at_least(ops, lo, k, ops[k].spec_priority() as int),
        all_above(ops, k + 1, hi, ops[k].spec_priority() as int),
    ensures
        split_point(ops, lo, hi) == k,
    decreases hi - lo,
{
    if hi - lo > 1 {
        if k == hi - 1 {
            lemma_split_point(ops, lo, hi - 1);
            let before = split_point(ops, lo, hi - 1);
            assert(ops[before].spec_priority() >= ops[k].spec_priority());
        } else {
            lemma_split_point_unique(ops, lo, hi - 1, k);
            assert(ops[hi - 1].spec_priority() > ops[k].spec_priority());
        }
    }
}

/// The tree of the operands `lo ..= hi` with the operators `lo .. hi`
/// between them.
pub open spec fn tree(operands: Seq<Expr>, ops: Seq<BinaryOperator>, lo: int, hi: int) -> Expr
    decreases hi - lo,
{
    if hi <= lo {
        operands[lo]
    } else {
        let k = split_point(ops, lo, hi);
        proof {
            lemma_split_point(ops, lo, hi);
        }
        Expr::BinaryOperation(
            Box::new(tree(operands, ops, lo, k)),
            ops[k],
            Box::new(tree(operands, ops, k + 1, hi)),
        )
    }
}

/// The tree of a whole run: one operand more than operators.
pub open spec fn resolve(operands: Seq<Expr>, ops: Seq<BinaryOperator>) -> Expr {
    tree(operands, ops, 0, ops.len() as int)
}

/// Where the operator `k` binds no tighter than those before it and less
/// tight than those after it, the tree splits there.
pub proof fn lemma_tree_splits_at(
    operands: Seq<Expr>,
    ops: Seq<BinaryOperator>,
    lo: int,
    k: int,
    hi: int,
)
    requires
        lo <= k < hi,
        all_at_least(ops, lo, k, ops[k].spec_priority() as int),
        all_above(ops, k + 1, hi, ops[k].spec_priority() as int),
    ensures
        tree(operands, ops, lo, hi) == Expr::BinaryOperation(
            Box::new(tree(operands, ops, lo, k)),
            ops[k],
            Box::new(tree(operands, ops, k + 1, hi)),
        ),
{
    lemma_split_point_unique(ops, lo, hi, k);
}

/// The split point depends on the operators of the range alone.
pub proof fn lemma_split_point_local(
    ops: Seq<BinaryOperator>,
    other: Seq<BinaryOperator>,
    lo: int,
    hi: int,
)
    requires
        forall|j: int| lo <= j < hi ==> ops[j] == other[j],
    ensures
        split_point(ops, lo, hi) == split_point(other, lo, hi),
    decreases hi - lo,
{
    if hi - lo > 1 {
        lemma_split_point_local(ops, other, lo, hi - 1);
        lemma_split_point(ops, lo, hi - 1);
    }
}

/// The tree of a range depends on the operands and operators of the range
/// alone.
pub proof fn lemma_tree_local(
    operands: Seq<Expr>,
    ops: Seq<BinaryOperator>,
    other_operands: Seq<Expr>,
    other_ops: Seq<BinaryOperator>,
    lo: int,
    hi: int,
)
    requires
        lo <= hi,
        forall|j: int| lo <= j <= hi ==> operands[j] == other_operands[j],
        forall|j: int| lo <= j < hi ==> ops[j] == other_ops[j],
    ensures
        tree(operands, ops, lo, hi) == tree(other_operands, other_ops, lo, hi),
    decreases hi - lo,
{
    if hi > lo {
        lemma_split_point_local(ops, other_ops, lo, hi);
        lemma_split_point(ops, lo, hi);
        let k = split_point(ops, lo, hi);
        assert(ops[k] == other_ops[k]);
        lemma_tree_local(operands, ops, other_operands, other_ops, lo, k);
        lemma_tree_local(operands, ops, other_operands, other_ops, k + 1, hi);
    }
}

/// Precedence and associativity for two operators in a row: `a o1 b o2 c`
/// groups as `a o1 (b o2 c)` where `o2` binds tighter than `o1`, and as
/// `(a o1 b) o2 c` otherwise.
pub proof fn lemma_two_operators(
    a: Expr,
    first: BinaryOperator,
    b: Expr,
    second: BinaryOperator,
    c: Expr,
)
    ensures
        resolve(seq![a, b, c], seq![first, second]) == if first.spec_priority()
            < second.spec_priority() {
            Expr::BinaryOperation(
                Box::new(a),
                first,
                Box::new(Expr::BinaryOperation(Box::new(b), second, Box::new(c))),
            )
        } else {
            Expr::BinaryOperation(
                Box::new(Expr::BinaryOperation(Box::new(a), first, Box::new(b))),
                second,
                Box::new(c),
            )
        },
{
    let operands = seq![a, b, c];
    let ops = seq![first, second];
    reveal_with_fuel(split_point, 3);
    reveal_with_fuel(tree, 3);
    assert(split_point(ops, 0, 1) == 0);
    assert(split_point(ops, 1, 2) == 1);
    if first.spec_priority() < second.spec_priority() {
        assert(split_point(ops, 0, 2) == 0);
    } else {
        assert(split_point(ops, 0, 2) == 1);
    }
}

/// Operators of one priority group from the left: where no operator of a
/// run binds less than the last one, the tree applies the last operator to
/// the tree of the run before it and to the last operand.
pub proof fn lemma_groups_from_the_left(
    operands: Seq<Expr>,
    ops: Seq<BinaryOperator>,
    lo: int,
    hi: int,
)
    requires
        lo < hi,
        all_at_least(ops, lo, hi - 1, ops[hi - 1].spec_priority() as int),
    ensures
        tree(operands, ops, lo, hi) == Expr::BinaryOperation(
            Box::new(tree(operands, ops, lo, hi - 1)),
            ops[hi - 1],
            Box::new(operands[hi]),
        ),
{
    lemma_tree_splits_at(operands, ops, lo, hi - 1, hi);
}

/// A single operator joins its two operands.
pub proof fn lemma_one_operator(a: Expr, op: BinaryOperator, b: Expr)
    ensures
        resolve(seq![a, b], seq![op]) == Expr::BinaryOperation(Box::new(a), op, Box::new(b)),
{
    reveal_with_fuel(tree, 2);
}

/// A lone operand is its own tree.
pub proof fn lemma_no_operator(a: Expr)
    ensures
        resolve(seq![a], Seq::empty()) == a,
{
}

/// What the stack of the climb holds, for its lowest `n` entries.
///
/// The entry `r` of `stack` is the tree of a segment of the run: the
/// operands from `starts[r]` up to the operand before `starts[r + 1]`, or up
/// to `hi` for the entry `n - 1`. The entry `r` of `pending` is the operator
/// between the segments `r` and `r + 1`. The pending operators bind tighter
/// from one to the next; an operator inside a segment binds tighter than the
/// pending operator before the segment, and at least as tight as the one
/// after it.
pub open spec fn stacked(
    stack: Seq<Expr>,
    pending: Seq<BinaryOperator>,
    starts: Seq<int>,
    operands: Seq<Expr>,
    ops: Seq<BinaryOperator>,
    n: int,
    hi: int,
) -> bool
    decreases n,
{
    n >= 1 && {
        let lo = starts[n - 1];
        &&& 0 <= lo <= hi
        &&& stack[n - 1] == tree(operands, ops, lo, hi)
        &&& if n == 1 {
            lo == 0
        } else {
            let before = pending[n - 2].spec_priority() as int;
            &&& lo >= 1
            &&& pending[n - 2] == ops[lo - 1]
            &&& all_above(ops, lo, hi, before)
            &&& all_at_least(ops, starts[n - 2], lo - 1, before)
            &&& (n >= 3 ==> pending[n - 3].spec_priority() < before)
            &&& stacked(stack, pending, starts, operands, ops, n - 1, lo - 1)
        }
    }
}

/// What the stack holds depends on its lowest `n` entries and on the run up
/// to `hi` alone.
pub proof fn lemma_stacked_local(
    stack: Seq<Expr>,
    pending: Seq<BinaryOperator>,
    starts: Seq<int>,
    operands: Seq<Expr>,
    ops: Seq<BinaryOperator>,
    other_stack: Seq<Expr>,
    other_pending: Seq<BinaryOperator>,
    other_starts: Seq<int>,
    other_operands: Seq<Expr>,
    other_ops: Seq<BinaryOperator>,
    n: int,
    hi: int,
)
    requires
        stacked(stack, pending, starts, operands, ops, n, hi),
        forall|r: int| 0 <= r < n ==> stack[r] == other_stack[r],
        forall|r: int| 0 <= r < n ==> starts[r] == other_starts[r],
        forall|r: int| 0 <= r < n - 1 ==> pending[r] == other_pending[r],
        forall|j: int| 0 <= j <= hi ==> operands[j] == other_operands[j],
        forall|j: int| 0 <= j < hi ==> ops[j] == other_ops[j],
    ensures
        stacked(other_stack, other_pending, other_starts, other_operands, other_ops, n, hi),
    decreases n,
{
    let lo = starts[n - 1];
    assert(other_starts[n - 1] == lo);
    assert(other_stack[n - 1] == stack[n - 1]);
    lemma_tree_local(operands, ops, other_operands, other_ops, lo, hi);
    if n > 1 {
        let before = pending[n - 2].spec_priority() as int;
        assert(other_pending[n - 2] == pending[n - 2]);
        assert(other_ops[lo - 1] == ops[lo - 1]);
        assert(other_starts[n - 2] == starts[n - 2]);
        assert(all_above(other_ops, lo, hi, before)) by {
            assert forall|j: int| lo <= j < hi implies (#[trigger] other_ops[j]).spec_priority()
                > before by {
                assert(ops[j] == other_ops[j]);
            }
        }
        lemma_stacked_local(
            stack,
            pending,
            starts,
            operands,
            ops,
            other_stack,
            other_pending,
            other_starts,
            other_operands,
            other_ops,
            n - 1,
            lo - 1,
        );
        assert(0 <= starts[n - 2]);
        assert(all_at_least(other_ops, starts[n - 2], lo - 1, before)) by {
            assert forall|j: int| starts[n - 2] <= j < lo - 1 implies (
            #[trigger] other_ops[j]).spec_priority() >= before by {
                assert(ops[j] == other_ops[j]);
            }
        }
        if n >= 3 {
            assert(other_pending[n - 3] == pending[n - 3]);
        }
    }
}

/// A stack of one entry holds the tree of the whole run.
pub proof fn lemma_stacked_one(
    stack: Seq<Expr>,
    pending: Seq<BinaryOperator>,
    starts: Seq<int>,
    operands: Seq<Expr>,
    ops: Seq<BinaryOperator>,
)
    requires
        stacked(stack, pending, starts, operands, ops, 1, ops.len() as int),
    ensures
        stack[0] == resolve(operands, ops),
{
}

/// Folding the two topmost entries over the topmost pending operator gives
/// the tree of the two segments together.
///
/// It also keeps the bound of a waiting operator: where the folded operator
/// and the operators inside the topmost segment bind at least as tight as
/// `waiting`, so do all operators inside the new topmost segment.
pub proof fn lemma_fold(
    stack: Seq<Expr>,
    pending: Seq<BinaryOperator>,
    starts: Seq<int>,
    operands: Seq<Expr>,
    ops: Seq<BinaryOperator>,
    n: int,
    hi: int,
    waiting: int,
)
    requires
        n >= 2,
        stack.len() == n,
        pending.len() == n - 1,
        starts.len() == n,
        stacked(stack, pending, starts, operands, ops, n, hi),
        all_at_least(ops, starts[n - 1], hi, waiting),
        pending[n - 2].spec_priority() >= waiting,
    ensures
        stacked(
            stack.take(n - 2).push(
                Expr::BinaryOperation(Box::new(stack[n - 2]), pending[n - 2], Box::new(stack[n - 1])),
            ),
            pending.take(n - 2),
            starts.take(n - 1),
            operands,
            ops,
            n - 1,
            hi,
        ),
        all_at_least(ops, starts[n - 2], hi, waiting),
{
    let lo = starts[n - 1];
    let low = starts[n - 2];
    let folded = pending[n - 2];
    let before = folded.spec_priority() as int;
    let merged = Expr::BinaryOperation(Box::new(stack[n - 2]), folded, Box::new(stack[n - 1]));
    let new_stack = stack.take(n - 2).push(merged);
    let new_pending = pending.take(n - 2);
    let new_starts = starts.take(n - 1);
    // The level below, unfolded once.
    assert(stacked(stack, pending, starts, operands, ops, n - 1, lo - 1));
    assert(stack[n - 2] == tree(operands, ops, low, lo - 1));
    assert(0 <= low <= lo - 1);
    lemma_tree_splits_at(operands, ops, low, lo - 1, hi);
    assert(merged == tree(operands, ops, low, hi));
    assert(all_at_least(ops, low, hi, waiting)) by {
        assert forall|j: int| low <= j < hi implies (#[trigger] ops[j]).spec_priority()
            >= waiting by {
            if j < lo - 1 {
                assert(ops[j].spec_priority() >= before);
            } else if j == lo - 1 {
            } else {
            }
        }
    }
    assert(new_starts[n - 2] == low);
    assert(new_stack[n - 2] == merged);
    if n - 1 > 1 {
        let lower = pending[n - 3].spec_priority() as int;
        assert(new_pending[n - 3] == pending[n - 3]);
        assert(new_starts[n - 3] == starts[n - 3]);
        assert(all_above(ops, low, hi, lower)) by {
            assert forall|j: int| low <= j < hi implies (#[trigger] ops[j]).spec_priority()
                > lower by {
                if j < lo - 1 {
                } else if j == lo - 1 {
                } else {
                    assert(ops[j].spec_priority() > before);
                }
            }
        }
        assert(stacked(stack, pending, starts, operands, ops, n - 2, low - 1));
        lemma_stacked_local(
            stack,
            pending,
            starts,
            operands,
            ops,
            new_stack,
            new_pending,
            new_starts,
            operands,
            ops,
            n - 2,
            low - 1,
        );
        if n - 1 >= 3 {
            assert(new_pending[n - 4] == pending[n - 4]);
        }
    }
}

/// Pushing an operator and the operand after it keeps the stack, where the
/// operator binds tighter than the topmost pending one and no tighter than
/// the operators inside the topmost segment.
pub proof fn lemma_push(
    stack: Seq<Expr>,
    pending: Seq<BinaryOperator>,
    starts: Seq<int>,
    operands: Seq<Expr>,
    ops: Seq<BinaryOperator>,
    n: int,
    op: BinaryOperator,
    operand: Expr,
)
    requires
        n >= 1,
        stack.len() == n,
        pending.len() == n - 1,
        starts.len() == n,
        operands.len() == ops.len() + 1,
        stacked(stack, pending, starts, operands, ops, n, ops.len() as int),
        all_at_least(ops, starts[n - 1], ops.len() as int, op.spec_priority() as int),
        n >= 2 ==> pending[n - 2].spec_priority() < op.spec_priority(),
    ensures
        stacked(
            stack.push(operand),
            pending.push(op),
            starts.push(ops.len() as int + 1),
            operands.push(operand),
            ops.push(op),
            n + 1,
            ops.len() as int + 1,
        ),
{
    let m = ops.len() as int;
    let new_stack = stack.push(operand);
    let new_pending = pending.push(op);
    let new_starts = starts.push(m + 1);
    let new_operands = operands.push(operand);
    let new_ops = ops.push(op);
    lemma_stacked_local(
        stack,
        pending,
        starts,
        operands,
        ops,
        new_stack,
        new_pending,
        new_starts,
        new_operands,
        new_ops,
        n,
        m,
    );
    assert(new_starts[n] == m + 1);
    assert(new_stack[n] == operand);
    assert(tree(new_operands, new_ops, m + 1, m + 1) == operand);
    assert(new_pending[n - 1] == op);
    assert(new_ops[m] == op);
    assert(new_starts[n - 1] == starts[n - 1]);
    assert(all_at_least(new_ops, starts[n - 1], m, op.spec_priority() as int)) by {
        assert forall|j: int| starts[n - 1] <= j < m implies (#[trigger] new_ops[j]).spec_priority()
            >= op.spec_priority() by {
            assert(new_ops[j] == ops[j]);
        }
    }
    if n >= 2 {
        assert(new_pending[n - 2] == pending[n - 2]);
    }
}

} // verus!
