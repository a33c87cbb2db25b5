#![allow(deprecated)]

use pest::iterators::PairsBuilder;
use pest::prec_climber::{Assoc, Operator, PrecClimber};
use turbo_bear::ast::ast::{BinaryOp, Expr, ExprKind, LogicalOp};
use turbo_bear::parser::grammar::{Pair, Rule};
use turbo_bear::parser::parse_expr;

const BINARY: [(Rule, &str); 8] = [
    (Rule::Plus, "+"),
    (Rule::Minus, "-"),
    (Rule::Star, "*"),
    (Rule::Slash, "/"),
    (Rule::Greater, ">"),
    (Rule::GreaterEqual, ">="),
    (Rule::Less, "<"),
    (Rule::LessEqual, "<="),
];

const LOGICAL: [(Rule, &str); 2] = [(Rule::And, "&&"), (Rule::Or, "||")];

/// The source text of operands `a`, `b`, ... with the given operators between
/// them, and the rule and span of each operand and operator, in order.
fn layout(operators: &[(Rule, &str)]) -> (String, Vec<(Rule, usize, usize)>) {
    let mut source = String::new();
    let mut tokens = Vec::new();
    for i in 0..=operators.len() {
        if i > 0 {
            let (rule, text) = operators[i - 1];
            source.push(' ');
            tokens.push((rule, source.len(), source.len() + text.len()));
            source.push_str(text);
            source.push(' ');
        }
        tokens.push((Rule::Identifier, source.len(), source.len() + 1));
        source.push(char::from(b'a' + u8::try_from(i).unwrap()));
    }
    (source, tokens)
}

/// How the climber of the grammar engine groups the tokens: every group in
/// brackets, with the span that reaches from its left operand to its right one.
fn grouped_by_engine(climber: &PrecClimber<Rule>, source: &str, tokens: &[(Rule, usize, usize)]) -> String {
    let mut builder = PairsBuilder::new(source);
    for (rule, start, end) in tokens {
        builder = builder.rule(*rule, *start, *end);
    }
    let (text, _, _) = climber.climb(
        builder.build(),
        |pair| (pair.as_str().to_owned(), pair.as_span().start(), pair.as_span().end()),
        |(left, start, _), operator, (right, _, end)| {
            (format!("[{} {} {} @{}..{}]", left, operator.as_str(), right, start, end), start, end)
        },
    );
    text
}

fn render(expr: &Expr) -> String {
    let (operator, left, right) = match &expr.kind {
        ExprKind::Ident(ident) => return ident.name.clone(),
        ExprKind::Binary(op, left, right) => {
            let operator = match op {
                BinaryOp::Add => "+",
                BinaryOp::Subtract => "-",
                BinaryOp::Multiply => "*",
                BinaryOp::Divide => "/",
                BinaryOp::Greater => ">",
                BinaryOp::GreaterEqual => ">=",
                BinaryOp::Less => "<",
                BinaryOp::LessEqual => "<=",
            };
            (operator, left, right)
        }
        ExprKind::Logical(op, left, right) => {
            let operator = match op {
                LogicalOp::And => "&&",
                LogicalOp::Or => "||",
            };
            (operator, left, right)
        }
        other => panic!("no operand and no infix expression: {:?}", other),
    };
    format!(
        "[{} {} {} @{}..{}]",
        render(left),
        operator,
        render(right),
        expr.location.start,
        expr.location.end
    )
}

/// How the library groups the tokens.
fn grouped_by_library(node: Rule, source: &str, tokens: &[(Rule, usize, usize)]) -> String {
    let inner = tokens
        .iter()
        .map(|(rule, start, end)| Pair::new(*rule, *start, *end, &source[*start..*end], Vec::new()))
        .collect();
    let pair = Pair::new(node, 0, source.len(), source, inner);
    render(&parse_expr(&pair).unwrap())
}

fn binary_climber() -> PrecClimber<Rule> {
    PrecClimber::new(vec![
        Operator::new(Rule::EqualEqual, Assoc::Left) | Operator::new(Rule::BangEqual, Assoc::Left),
        Operator::new(Rule::Greater, Assoc::Left)
            | Operator::new(Rule::GreaterEqual, Assoc::Left)
            | Operator::new(Rule::Less, Assoc::Left)
            | Operator::new(Rule::LessEqual, Assoc::Left),
        Operator::new(Rule::Plus, Assoc::Left) | Operator::new(Rule::Minus, Assoc::Left),
        Operator::new(Rule::Star, Assoc::Left) | Operator::new(Rule::Slash, Assoc::Left),
    ])
}

fn logical_climber() -> PrecClimber<Rule> {
    PrecClimber::new(vec![
        Operator::new(Rule::Or, Assoc::Left),
        Operator::new(Rule::And, Assoc::Left),
    ])
}

/// Every run of `length` operators out of `choices`.
fn runs(choices: &[(Rule, &'static str)], length: usize) -> Vec<Vec<(Rule, &'static str)>> {
    let mut all = vec![Vec::new()];
    for _ in 0..length {
        let mut longer = Vec::new();
        for run in &all {
            for choice in choices {
                let mut next = run.clone();
                next.push(*choice);
                longer.push(next);
            }
        }
        all = longer;
    }
    all
}

#[test]
fn engine_groups_two_times_three_plus_four_from_the_left() {
    let (source, tokens) = layout(&[(Rule::Star, "*"), (Rule::Plus, "+")]);
    assert_eq!(source, "a * b + c");
    assert_eq!(grouped_by_engine(&binary_climber(), &source, &tokens), "[[a * b @0..5] + c @0..9]");
    assert_eq!(grouped_by_library(Rule::Binary, &source, &tokens), "[[a * b @0..5] + c @0..9]");
}

#[test]
fn binary_operators_group_as_the_engine_groups_them() {
    let climber = binary_climber();
    let mut compared = 0;
    for length in 0..=4 {
        for run in runs(&BINARY, length) {
            let (source, tokens) = layout(&run);
            assert_eq!(
                grouped_by_library(Rule::Binary, &source, &tokens),
                grouped_by_engine(&climber, &source, &tokens),
                "{}",
                source
            );
            compared += 1;
        }
    }
    assert_eq!(compared, 1 + 8 + 64 + 512 + 4096);
}

#[test]
fn logical_operators_group_as_the_engine_groups_them() {
    let climber = logical_climber();
    let mut compared = 0;
    for length in 0..=8 {
        for run in runs(&LOGICAL, length) {
            let (source, tokens) = layout(&run);
            assert_eq!(
                grouped_by_library(Rule::Logical, &source, &tokens),
                grouped_by_engine(&climber, &source, &tokens),
                "{}",
                source
            );
            compared += 1;
        }
    }
    assert_eq!(compared, 511);
}
