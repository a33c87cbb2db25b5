//! The expression builder: folds the expression subtrees of the parse tree
//! into expressions, resolving the precedence of infix operators.

use vstd::prelude::*;

use crate::ast::ast::{
    BinaryOp, Expr, ExprKind, ExprKindView, ExprView, LogicalOp, UnaryOp,
};
use crate::ast::location::Location;
use crate::parser::error::{ParsingError, ParsingErrorView};
use crate::parser::grammar::{Pair, PairView, Rule};
use crate::parser::laws::locations::lemma_expr_well_formed;
use crate::parser::leaf::{ident_of, is_literal, lit_of, parse_ident, parse_lit};
use crate::parser::outcome::{
    all_ok, first_error, lemma_first_error_is, lemma_no_error, required, result_view, values,
};

verus! {

/// The tier of an infix operator. Operators of a higher tier bind tighter;
/// operators of one tier group from the left. A rule that is no infix operator
/// has tier 0.
pub open spec fn tier(rule: Rule) -> nat {
    match rule {
        Rule::Or => 1,
        Rule::And => 2,
        Rule::EqualEqual | Rule::BangEqual => 3,
        Rule::Greater | Rule::GreaterEqual | Rule::Less | Rule::LessEqual => 4,
        Rule::Plus | Rule::Minus => 5,
        Rule::Star | Rule::Slash => 6,
        _ => 0,
    }
}

/// The tier of the operators that bind tightest.
pub const HIGHEST_TIER: u8 = 6;

/// The tokens `&&` and `||`.
pub open spec fn is_logical_operator(rule: Rule) -> bool {
    rule == Rule::And || rule == Rule::Or
}

/// The tokens of arithmetic and comparison that the syntax tree has an
/// operator for.
pub open spec fn is_binary_operator(rule: Rule) -> bool {
    match rule {
        Rule::Plus
        | Rule::Minus
        | Rule::Star
        | Rule::Slash
        | Rule::Greater
        | Rule::GreaterEqual
        | Rule::Less
        | Rule::LessEqual => true,
        _ => false,
    }
}

/// A unary operator node: it holds a `!` or a `-` token.
pub open spec fn is_unary_operator(pair: PairView) -> bool {
    &&& pair.rule == Rule::UnaryOperator
    &&& pair.inner.len() == 1
    &&& (pair.inner[0].rule == Rule::Bang || pair.inner[0].rule == Rule::Minus)
}

/// The logical operator that a token denotes.
pub open spec fn logical_op_of(rule: Rule) -> LogicalOp {
    if rule == Rule::And {
        LogicalOp::And
    } else {
        LogicalOp::Or
    }
}

/// The binary operator that a token denotes.
pub open spec fn binary_op_of(rule: Rule) -> BinaryOp {
    match rule {
        Rule::Plus => BinaryOp::Add,
        Rule::Minus => BinaryOp::Subtract,
        Rule::Star => BinaryOp::Multiply,
        Rule::Slash => BinaryOp::Divide,
        Rule::Greater => BinaryOp::Greater,
        Rule::GreaterEqual => BinaryOp::GreaterEqual,
        Rule::Less => BinaryOp::Less,
        _ => BinaryOp::LessEqual,
    }
}

/// The unary operator that a token denotes.
pub open spec fn unary_op_of(rule: Rule) -> UnaryOp {
    if rule == Rule::Bang {
        UnaryOp::Not
    } else {
        UnaryOp::Minus
    }
}

/// The shape of an expression subtree.
///
/// - An `Expression` node wraps one expression.
/// - A `Logical` or `Binary` node holds operands and operator tokens in turn,
///   starting and ending with an operand.
/// - A `Unary` node holds an expression, or a unary operator and an expression.
/// - A `Call` node holds the callee and then any number of argument lists, each
///   a run of expressions.
/// - The leaves are identifiers and literals.
pub open spec fn is_expression(pair: PairView) -> bool
    decreases pair,
{
    match pair.rule {
        Rule::Expression => pair.inner.len() == 1 && is_expression(pair.inner[0]),
        Rule::Logical | Rule::Binary => {
            &&& pair.inner.len() % 2 == 1
            &&& forall|i: int|
                0 <= i < pair.inner.len() ==> if i % 2 == 0 {
                    is_expression(#[trigger] pair.inner[i])
                } else if pair.rule == Rule::Logical {
                    is_logical_operator(pair.inner[i].rule)
                } else {
                    is_binary_operator(pair.inner[i].rule)
                }
        },
        Rule::Unary => {
            ||| pair.inner.len() == 1 && is_expression(pair.inner[0])
            ||| pair.inner.len() == 2 && is_unary_operator(pair.inner[0]) && is_expression(
                pair.inner[1],
            )
        },
        Rule::Call => {
            &&& pair.inner.len() >= 1
            &&& is_expression(pair.inner[0])
            &&& forall|i: int|
                1 <= i < pair.inner.len() ==> (#[trigger] pair.inner[i]).rule == Rule::Arguments
            &&& forall|i: int, j: int|
                1 <= i < pair.inner.len() && 0 <= j < pair.inner[i].inner.len() ==> is_expression(
                    #[trigger] pair.inner[i].inner[j],
                )
        },
        Rule::Identifier => true,
        Rule::Integer | Rule::Float | Rule::Boolean => is_literal(pair),
        _ => false,
    }
}

/// The expression that an infix operator makes of its operands. It spans from
/// the start of the left operand to the end of the right one.
pub open spec fn infix_expr(operator: Rule, left: ExprView, right: ExprView) -> ExprView {
    ExprView {
        kind: if is_logical_operator(operator) {
            ExprKindView::Logical(logical_op_of(operator), Box::new(left), Box::new(right))
        } else {
            ExprKindView::Binary(binary_op_of(operator), Box::new(left), Box::new(right))
        },
        location: Location { start: left.location.start, end: right.location.end },
    }
}

/// The operator at `k` is the one that binds loosest, and the rightmost of
/// those that do.
pub open spec fn is_root(operators: Seq<Rule>, k: int) -> bool {
    &&& 0 <= k < operators.len()
    &&& forall|i: int| 0 <= i < k ==> tier(#[trigger] operators[i]) >= tier(operators[k])
    &&& forall|i: int| k < i < operators.len() ==> tier(#[trigger] operators[i]) > tier(operators[k])
}

/// The place of the root in a run of operators.
pub open spec fn root_of(operators: Seq<Rule>) -> int {
    choose|k: int| is_root(operators, k)
}

/// The expression that a run of operands makes, with `operators[i]` standing
/// between `operands[i]` and `operands[i + 1]`: the operator that binds loosest,
/// rightmost among equals, joins what stands to its left with what stands to
/// its right.
pub open spec fn climb(operands: Seq<ExprView>, operators: Seq<Rule>) -> ExprView
    decreases operators.len(),
{
    let k = root_of(operators);
    if 0 <= k < operators.len() {
        infix_expr(
            operators[k],
            climb(operands.subrange(0, k + 1), operators.subrange(0, k)),
            climb(
                operands.subrange(k + 1, operands.len() as int),
                operators.subrange(k + 1, operators.len() as int),
            ),
        )
    } else {
        operands[0]
    }
}

/// The operator tokens of an infix node, in order.
pub open spec fn operators_of(pair: PairView) -> Seq<Rule> {
    Seq::new((pair.inner.len() / 2) as nat, |i: int| pair.inner[2 * i + 1].rule)
}

/// The expression that an identifier token denotes.
pub open spec fn ident_expr(pair: PairView) -> Result<ExprView, ParsingErrorView> {
    match ident_of(pair) {
        Ok(ident) => Ok(ExprView { kind: ExprKindView::Ident(ident), location: pair.location }),
        Err(error) => Err(error),
    }
}

/// The expression that a literal token denotes.
pub open spec fn lit_expr(pair: PairView) -> Result<ExprView, ParsingErrorView> {
    match lit_of(pair) {
        Ok(lit) => Ok(ExprView { kind: ExprKindView::Lit(lit), location: pair.location }),
        Err(error) => Err(error),
    }
}

/// The expression that a unary operator makes of its operand. It spans from the
/// start of the operator to the end of the operand.
pub open spec fn unary_expr(operator: PairView, operand: Result<ExprView, ParsingErrorView>) -> Result<
    ExprView,
    ParsingErrorView,
> {
    match operand {
        Ok(operand) => Ok(
            ExprView {
                kind: ExprKindView::Unary(unary_op_of(operator.inner[0].rule), Box::new(operand)),
                location: Location { start: operator.location.start, end: operand.location.end },
            },
        ),
        Err(error) => Err(error),
    }
}

/// The call of `callee` with the arguments of one argument list. It spans from
/// the start of the callee to the end of the argument list.
pub open spec fn call_expr(
    callee: Result<ExprView, ParsingErrorView>,
    arguments: PairView,
    args: Result<Seq<ExprView>, ParsingErrorView>,
) -> Result<ExprView, ParsingErrorView> {
    match callee {
        Ok(callee) => match args {
            Ok(args) => Ok(
                ExprView {
                    kind: ExprKindView::Call(Box::new(callee), args),
                    location: Location {
                        start: callee.location.start,
                        end: arguments.location.end,
                    },
                },
            ),
            Err(error) => Err(error),
        },
        Err(error) => Err(error),
    }
}

/// The expression that an expression subtree denotes, or the error of the
/// leftmost part of it that denotes none.
pub open spec fn expr_of(pair: PairView) -> Result<ExprView, ParsingErrorView>
    decreases pair, pair.inner.len() + 1,
{
    match pair.rule {
        Rule::Expression => if pair.inner.len() > 0 {
            expr_of(pair.inner[0])
        } else {
            arbitrary()
        },
        Rule::Logical | Rule::Binary => match required(operand_outcomes(pair)) {
            Ok(operands) => Ok(climb(operands, operators_of(pair))),
            Err(error) => Err(error),
        },
        Rule::Unary => if pair.inner.len() > 1 && pair.inner[0].rule == Rule::UnaryOperator {
            unary_expr(pair.inner[0], expr_of(pair.inner[1]))
        } else if pair.inner.len() > 0 {
            expr_of(pair.inner[0])
        } else {
            arbitrary()
        },
        Rule::Call => if pair.inner.len() > 0 {
            call_of(pair, (pair.inner.len() - 1) as nat)
        } else {
            arbitrary()
        },
        Rule::Identifier => ident_expr(pair),
        _ => lit_expr(pair),
    }
}

/// What the operands of an infix node denote, in order.
pub open spec fn operand_outcomes(pair: PairView) -> Seq<Result<ExprView, ParsingErrorView>>
    decreases pair, pair.inner.len(),
{
    Seq::new(
        ((pair.inner.len() + 1) / 2) as nat,
        |i: int|
            if 0 <= 2 * i < pair.inner.len() {
                expr_of(pair.inner[2 * i])
            } else {
                arbitrary()
            },
    )
}

/// What the expressions of an argument list denote, in order.
pub open spec fn argument_outcomes(arguments: PairView) -> Seq<Result<ExprView, ParsingErrorView>>
    decreases arguments, arguments.inner.len(),
{
    Seq::new(
        arguments.inner.len(),
        |j: int|
            if 0 <= j < arguments.inner.len() {
                expr_of(arguments.inner[j])
            } else {
                arbitrary()
            },
    )
}

/// What a call node denotes when only its first `n` argument lists are
/// applied: each argument list calls what stands before it.
pub open spec fn call_of(pair: PairView, n: nat) -> Result<ExprView, ParsingErrorView>
    decreases pair, n,
{
    if pair.inner.len() <= n {
        arbitrary()
    } else if n == 0 {
        expr_of(pair.inner[0])
    } else {
        call_expr(
            call_of(pair, (n - 1) as nat),
            pair.inner[n as int],
            required(argument_outcomes(pair.inner[n as int])),
        )
    }
}

/// At most one operator is the root of a run of operators.
pub proof fn lemma_root_is(operators: Seq<Rule>, k: int)
    requires
        is_root(operators, k),
    ensures
        root_of(operators) == k,
{
    let j = root_of(operators);
    if j < k {
        assert(tier(operators[j]) >= tier(operators[k]));
    } else if k < j {
        assert(tier(operators[k]) >= tier(operators[j]));
    }
}

/// Where the operator at `k` is the root, it joins the climb of what stands to
/// its left with the climb of what stands to its right.
pub proof fn lemma_climb_at_root(operands: Seq<ExprView>, operators: Seq<Rule>, k: int)
    requires
        is_root(operators, k),
    ensures
        climb(operands, operators) == infix_expr(
            operators[k],
            climb(operands.subrange(0, k + 1), operators.subrange(0, k)),
            climb(
                operands.subrange(k + 1, operands.len() as int),
                operators.subrange(k + 1, operators.len() as int),
            ),
        ),
{
    lemma_root_is(operators, k);
}

/// The tier of an infix operator, or 0 for a rule that is none.
pub fn tier_of(rule: Rule) -> (t: u8)
    ensures
        t == tier(rule),
        t <= HIGHEST_TIER,
{
    match rule {
        Rule::Or => 1,
        Rule::And => 2,
        Rule::EqualEqual | Rule::BangEqual => 3,
        Rule::Greater | Rule::GreaterEqual | Rule::Less | Rule::LessEqual => 4,
        Rule::Plus | Rule::Minus => 5,
        Rule::Star | Rule::Slash => 6,
        _ => 0,
    }
}

/// The logical operator that an `&&` or `||` token denotes.
pub fn parse_logical_op(pair: &Pair) -> (op: LogicalOp)
    requires
        is_logical_operator(pair@.rule),
    ensures
        op == logical_op_of(pair@.rule),
{
    match pair.rule {
        Rule::And => LogicalOp::And,
        _ => LogicalOp::Or,
    }
}

/// The binary operator that a token of arithmetic or comparison denotes.
pub fn parse_binary_op(pair: &Pair) -> (op: BinaryOp)
    requires
        is_binary_operator(pair@.rule),
    ensures
        op == binary_op_of(pair@.rule),
{
    match pair.rule {
        Rule::Plus => BinaryOp::Add,
        Rule::Minus => BinaryOp::Subtract,
        Rule::Star => BinaryOp::Multiply,
        Rule::Slash => BinaryOp::Divide,
        Rule::Greater => BinaryOp::Greater,
        Rule::GreaterEqual => BinaryOp::GreaterEqual,
        Rule::Less => BinaryOp::Less,
        _ => BinaryOp::LessEqual,
    }
}

/// The unary operator that a unary operator node holds.
pub fn parse_unary_op(pair: &Pair) -> (op: UnaryOp)
    requires
        is_unary_operator(pair@),
    ensures
        op == unary_op_of(pair@.inner[0].rule),
{
    proof {
        pair.lemma_view_inner();
    }
    match pair.inner[0].rule {
        Rule::Bang => UnaryOp::Not,
        _ => UnaryOp::Minus,
    }
}

/// Joins two operands by the operator that stands between them.
pub fn fold_infix(operator: &Pair, left: Expr, right: Expr) -> (expr: Expr)
    requires
        is_logical_operator(operator@.rule) || is_binary_operator(operator@.rule),
    ensures
        expr@ == infix_expr(operator@.rule, left@, right@),
{
    let location = Location::new(left.location.start(), right.location.end());
    match operator.rule {
        Rule::And | Rule::Or => Expr {
            kind: ExprKind::Logical(parse_logical_op(operator), Box::new(left), Box::new(right)),
            location,
        },
        _ => Expr {
            kind: ExprKind::Binary(parse_binary_op(operator), Box::new(left), Box::new(right)),
            location,
        },
    }
}

/// Once a call node denotes an error with some of its argument lists applied,
/// it denotes that error with more of them applied.
pub proof fn lemma_call_error_stays(pair: PairView, k: nat, n: nat)
    requires
        k <= n < pair.inner.len(),
        call_of(pair, k) is Err,
    ensures
        call_of(pair, n) == call_of(pair, k),
    decreases n,
{
    if k < n {
        lemma_call_error_stays(pair, k, (n - 1) as nat);
    }
}

/// Builds the operands of an infix node from the one at `at` on, as far as the
/// operators between them are of tier `t` or higher, and folds them from the
/// left. Returns the expression and the position of the operator that follows
/// it, which is of a lower tier, or the number of inner nodes if none follows.
fn climb_tier(pair: &Pair, at: usize, t: u8) -> (res: Result<(Expr, usize), ParsingError>)
    requires
        pair@.rule == Rule::Logical || pair@.rule == Rule::Binary,
        is_expression(pair@),
        at % 2 == 0,
        at < pair.inner.len(),
        1 <= t <= HIGHEST_TIER + 1,
        all_ok(operand_outcomes(pair@), at as int / 2),
    ensures
        match res {
            Ok((expr, next)) => {
                &&& at < next <= pair.inner.len()
                &&& next % 2 == 1
                &&& all_ok(operand_outcomes(pair@), (next as int + 1) / 2)
                &&& forall|k: int|
                    at as int / 2 <= k < next as int / 2 ==> tier(#[trigger] operators_of(pair@)[k])
                        >= t
                &&& next < pair.inner.len() ==> tier(operators_of(pair@)[next as int / 2]) < t
                &&& expr@ == climb(
                    values(operand_outcomes(pair@)).subrange(at as int / 2, (next as int + 1) / 2),
                    operators_of(pair@).subrange(at as int / 2, next as int / 2),
                )
            },
            Err(error) => first_error(operand_outcomes(pair@)) == Some(error@),
        },
    decreases pair, pair.inner.len() - at, HIGHEST_TIER + 1 - t,
{
    proof {
        pair.lemma_view_inner();
    }
    let ghost outcomes = operand_outcomes(pair@);
    let ghost operators = operators_of(pair@);
    let ghost first = at as int / 2;
    if t > HIGHEST_TIER {
        return match parse_expr(&pair.inner[at]) {
            Ok(expr) => Ok((expr, at + 1)),
            Err(error) => {
                proof {
                    lemma_first_error_is(outcomes, first);
                }
                Err(error)
            },
        };
    }
    let (mut left, mut next) = match climb_tier(pair, at, t + 1) {
        Ok(done) => done,
        Err(error) => {
            return Err(error);
        },
    };
    while next < pair.inner.len() && tier_of(pair.inner[next].rule) == t
        invariant
            pair@.rule == Rule::Logical || pair@.rule == Rule::Binary,
            is_expression(pair@),
            outcomes == operand_outcomes(pair@),
            operators == operators_of(pair@),
            first == at as int / 2,
            at % 2 == 0,
            1 <= t <= HIGHEST_TIER,
            at < next <= pair.inner.len(),
            next % 2 == 1,
            pair@.inner.len() == pair.inner@.len(),
            forall|i: int| 0 <= i < pair.inner@.len() ==> pair@.inner[i] == (#[trigger] pair.inner@[i])@,
            all_ok(outcomes, (next as int + 1) / 2),
            forall|k: int| first <= k < next as int / 2 ==> tier(#[trigger] operators[k]) >= t,
            next < pair.inner.len() ==> tier(operators[next as int / 2]) <= t,
            left@ == climb(
                values(outcomes).subrange(first, (next as int + 1) / 2),
                operators.subrange(first, next as int / 2),
            ),
        decreases pair.inner.len() - next,
    {
        let operator = &pair.inner[next];
        let ghost root = next as int / 2;
        match climb_tier(pair, next + 1, t + 1) {
            Ok((right, after)) => {
                proof {
                    let last = (after as int + 1) / 2;
                    let operands = values(outcomes).subrange(first, last);
                    let between = operators.subrange(first, after as int / 2);
                    let k = root - first;
                    assert(is_root(between, k)) by {
                        assert forall|i: int| 0 <= i < k implies tier(#[trigger] between[i]) >= tier(
                            between[k],
                        ) by {}
                        assert forall|i: int| k < i < between.len() implies tier(
                            #[trigger] between[i],
                        ) > tier(between[k]) by {}
                    }
                    lemma_climb_at_root(operands, between, k);
                    assert(operands.subrange(0, k + 1) =~= values(outcomes).subrange(
                        first,
                        (next as int + 1) / 2,
                    ));
                    assert(between.subrange(0, k) =~= operators.subrange(first, root));
                    assert(operands.subrange(k + 1, operands.len() as int) =~= values(
                        outcomes,
                    ).subrange((next as int + 1) / 2, last));
                    assert(between.subrange(k + 1, between.len() as int) =~= operators.subrange(
                        (next as int + 1) / 2,
                        after as int / 2,
                    ));
                }
                left = fold_infix(operator, left, right);
                next = after;
            },
            Err(error) => {
                return Err(error);
            },
        }
    }
    Ok((left, next))
}

/// Builds the expression that an expression subtree denotes. The first part
/// that fails, from the left, ends the work with its error.
pub fn parse_expr(pair: &Pair) -> (res: Result<Expr, ParsingError>)
    requires
        is_expression(pair@),
    ensures
        result_view(res) == expr_of(pair@),
        pair@.well_spanned() ==> (res matches Ok(expr) ==> expr@.well_formed()
            && pair@.location.contains(expr@.location)),
    decreases pair, pair.inner.len() + 1, 0nat,
{
    proof {
        pair.lemma_view_inner();
        if pair@.well_spanned() {
            lemma_expr_well_formed(pair@);
        }
    }
    let location = pair.location;
    match pair.rule {
        Rule::Expression => parse_expr(&pair.inner[0]),
        Rule::Logical | Rule::Binary => match climb_tier(pair, 0, 1) {
            Ok((expr, next)) => {
                proof {
                    let outcomes = operand_outcomes(pair@);
                    let operators = operators_of(pair@);
                    lemma_no_error(outcomes);
                    assert(values(outcomes).subrange(0, (next as int + 1) / 2) =~= values(outcomes));
                    assert(operators.subrange(0, next as int / 2) =~= operators);
                }
                Ok(expr)
            },
            Err(error) => Err(error),
        },
        Rule::Unary => {
            let first = &pair.inner[0];
            match first.rule {
                Rule::UnaryOperator => {
                    proof {
                        reveal_with_fuel(is_expression, 2);
                    }
                    let op = parse_unary_op(first);
                    match parse_expr(&pair.inner[1]) {
                        Ok(operand) => {
                            let location = Location::new(
                                first.location.start(),
                                operand.location.end(),
                            );
                            Ok(Expr { kind: ExprKind::Unary(op, Box::new(operand)), location })
                        },
                        Err(error) => Err(error),
                    }
                },
                _ => parse_expr(first),
            }
        },
        Rule::Call => {
            let mut expr = match parse_expr(&pair.inner[0]) {
                Ok(callee) => callee,
                Err(error) => {
                    proof {
                        lemma_call_error_stays(pair@, 0, (pair@.inner.len() - 1) as nat);
                    }
                    return Err(error);
                },
            };
            let mut i: usize = 1;
            while i < pair.inner.len()
                invariant
                    pair@.rule == Rule::Call,
                    is_expression(pair@),
                    1 <= i <= pair.inner.len(),
                    pair@.inner.len() == pair.inner@.len(),
                    forall|k: int|
                        0 <= k < pair.inner@.len() ==> pair@.inner[k] == (#[trigger] pair.inner@[k])@,
                    call_of(pair@, (i - 1) as nat) == Ok::<ExprView, ParsingErrorView>(expr@),
                decreases pair.inner.len() - i,
            {
                let arguments = &pair.inner[i];
                let ghost outcomes = argument_outcomes(arguments@);
                proof {
                    arguments.lemma_view_inner();
                }
                let mut args: Vec<Box<Expr>> = Vec::new();
                let mut j: usize = 0;
                while j < arguments.inner.len()
                    invariant
                        pair@.rule == Rule::Call,
                        is_expression(pair@),
                        1 <= i < pair.inner.len(),
                        pair@.inner.len() == pair.inner@.len(),
                        arguments == &pair.inner@[i as int],
                        pair@.inner[i as int] == arguments@,
                        outcomes == argument_outcomes(arguments@),
                        j <= arguments.inner.len(),
                        arguments@.inner.len() == arguments.inner@.len(),
                        forall|k: int|
                            0 <= k < arguments.inner@.len() ==> arguments@.inner[k] == (
                            #[trigger] arguments.inner@[k])@,
                        args@.len() == j,
                        forall|k: int|
                            0 <= k < j ==> (#[trigger] outcomes[k]) == Ok::<ExprView, ParsingErrorView>(
                                args@[k]@,
                            ),
                        call_of(pair@, (i - 1) as nat) == Ok::<ExprView, ParsingErrorView>(expr@),
                    decreases arguments.inner.len() - j,
                {
                    match parse_expr(&arguments.inner[j]) {
                        Ok(arg) => {
                            args.push(Box::new(arg));
                        },
                        Err(error) => {
                            proof {
                                lemma_first_error_is(outcomes, j as int);
                                lemma_call_error_stays(
                                    pair@,
                                    i as nat,
                                    (pair@.inner.len() - 1) as nat,
                                );
                            }
                            return Err(error);
                        },
                    }
                    j += 1;
                }
                proof {
                    lemma_no_error(outcomes);
                }
                let location = Location::new(expr.location.start(), arguments.location.end());
                expr = Expr { kind: ExprKind::Call(Box::new(expr), args), location };
                assert(expr@.kind->Call_1 =~= values(outcomes));
                i += 1;
            }
            Ok(expr)
        },
        Rule::Identifier => match parse_ident(pair) {
            Ok(ident) => Ok(Expr { kind: ExprKind::Ident(ident), location }),
            Err(error) => Err(error),
        },
        _ => match parse_lit(pair) {
            Ok(lit) => Ok(Expr { kind: ExprKind::Lit(lit), location }),
            Err(error) => Err(error),
        },
    }
}

} // verus!
