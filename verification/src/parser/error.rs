//! The errors of a parse, the failures of the grammar engine that they may
//! stand for, and what they say to the user.

use vstd::prelude::*;
use vstd::string::StringExecFns;

use crate::ast::location::Location;
use crate::parser::grammar::Rule;

verus! {

/// What went wrong.
#[derive(Debug, PartialEq, Eq)]
pub enum ParsingErrorKind {
    /// The source text does not match the grammar; the message says what was
    /// expected.
    Grammar(String),
    /// A reserved word stands where a name is expected.
    ReservedKeyword(String),
    /// The text of an integer literal denotes no 64-bit unsigned number.
    InvalidInteger(String),
    /// The text of a float literal denotes no 64-bit float.
    InvalidFloat(String),
    /// A return statement outside of any function.
    TopLevelReturn,
}

/// The mathematical value of a [`ParsingErrorKind`].
pub enum ParsingErrorKindView {
    Grammar(Seq<char>),
    ReservedKeyword(Seq<char>),
    InvalidInteger(Seq<char>),
    InvalidFloat(Seq<char>),
    TopLevelReturn,
}

/// Where it went wrong: at one offset, or over a span of offsets.
#[derive(Debug, Clone, Copy, PartialEq, Eq)]
pub enum ParsingErrorLocation {
    Position(usize),
    Span((usize, usize)),
}

/// An error of a parse: what went wrong, and where.
#[derive(Debug, PartialEq, Eq)]
pub struct ParsingError {
    pub kind: ParsingErrorKind,
    pub location: ParsingErrorLocation,
}

/// The mathematical value of a [`ParsingError`].
pub struct ParsingErrorView {
    pub kind: ParsingErrorKindView,
    pub location: ParsingErrorLocation,
}

impl View for ParsingErrorKind {
    type V = ParsingErrorKindView;

    open spec fn view(&self) -> ParsingErrorKindView {
        match self {
            ParsingErrorKind::Grammar(message) => ParsingErrorKindView::Grammar(message@),
            ParsingErrorKind::ReservedKeyword(name) => ParsingErrorKindView::ReservedKeyword(name@),
            ParsingErrorKind::InvalidInteger(text) => ParsingErrorKindView::InvalidInteger(text@),
            ParsingErrorKind::InvalidFloat(text) => ParsingErrorKindView::InvalidFloat(text@),
            ParsingErrorKind::TopLevelReturn => ParsingErrorKindView::TopLevelReturn,
        }
    }
}

impl View for ParsingError {
    type V = ParsingErrorView;

    open spec fn view(&self) -> ParsingErrorView {
        ParsingErrorView { kind: self.kind@, location: self.location }
    }
}

impl DeepView for ParsingError {
    type V = ParsingErrorView;

    open spec fn deep_view(&self) -> ParsingErrorView {
        self@
    }
}

impl ParsingErrorView {
    /// The error of the given kind over the span of `location`.
    pub open spec fn at(kind: ParsingErrorKindView, location: Location) -> ParsingErrorView {
        ParsingErrorView {
            kind,
            location: ParsingErrorLocation::Span((location.start, location.end)),
        }
    }
}

impl ParsingError {
    /// An error of the given kind over the span of `location`.
    pub fn new(kind: ParsingErrorKind, location: Location) -> (error: ParsingError)
        ensures
            error@ == ParsingErrorView::at(kind@, location),
    {
        ParsingError { kind, location: ParsingErrorLocation::Span((location.start, location.end)) }
    }
}

/// The errors of one parse, in the order in which they were found.
pub type ParsingErrors = Vec<ParsingError>;

/// The list that holds `error` alone.
pub fn errors_from(error: ParsingError) -> (errors: ParsingErrors)
    ensures
        errors.deep_view() == seq![error@],
        errors@.len() == 1,
{
    let mut errors = Vec::new();
    errors.push(error);
    errors
}

/// What the grammar engine reports when the source text does not match the
/// grammar: the rules that it expected or did not expect, or a message of its
/// own.
#[derive(Debug, PartialEq, Eq)]
pub enum ErrorVariant {
    ParsingError { positives: Vec<Rule>, negatives: Vec<Rule> },
    CustomError { message: String },
}

/// The mathematical value of an [`ErrorVariant`].
pub enum ErrorVariantView {
    ParsingError { positives: Seq<Rule>, negatives: Seq<Rule> },
    CustomError { message: Seq<char> },
}

/// Where the grammar engine stopped.
#[derive(Debug, Clone, Copy, PartialEq, Eq)]
pub enum InputLocation {
    Pos(usize),
    Span((usize, usize)),
}

/// A failure of the grammar engine to shape the source text into a parse tree.
#[derive(Debug, PartialEq, Eq)]
pub struct GrammarError {
    pub variant: ErrorVariant,
    pub location: InputLocation,
}

/// The mathematical value of a [`GrammarError`].
pub struct GrammarErrorView {
    pub variant: ErrorVariantView,
    pub location: InputLocation,
}

impl View for ErrorVariant {
    type V = ErrorVariantView;

    open spec fn view(&self) -> ErrorVariantView {
        match self {
            ErrorVariant::ParsingError { positives, negatives } => ErrorVariantView::ParsingError {
                positives: positives@,
                negatives: negatives@,
            },
            ErrorVariant::CustomError { message } => ErrorVariantView::CustomError {
                message: message@,
            },
        }
    }
}

impl View for GrammarError {
    type V = GrammarErrorView;

    open spec fn view(&self) -> GrammarErrorView {
        GrammarErrorView { variant: self.variant@, location: self.location }
    }
}

/// How a rule is called in a message.
pub open spec fn rule_name(rule: Rule) -> Seq<char> {
    match rule {
        Rule::EndOfInput => "end of file"@,
        Rule::Program => "program"@,
        Rule::Statement => "statement"@,
        Rule::Block => "block"@,
        Rule::VariableDeclaration => "variable declaration"@,
        Rule::FunctionDeclaration => "function declaration"@,
        Rule::FunctionParams => "function parameters"@,
        Rule::ExpressionStatement => "expression statement"@,
        Rule::ReturnStatement => "return statement"@,
        Rule::Plus => "+"@,
        Rule::Minus => "-"@,
        Rule::Star => "*"@,
        Rule::Slash => "/"@,
        Rule::Equal => "="@,
        Rule::EqualEqual => "=="@,
        Rule::Bang => "!"@,
        Rule::BangEqual => "!="@,
        Rule::Greater => ">"@,
        Rule::GreaterEqual => ">="@,
        Rule::Less => "<"@,
        Rule::LessEqual => "<="@,
        Rule::And => "&&"@,
        Rule::Or => "||"@,
        Rule::UnaryOperator => "unary operator"@,
        Rule::LogicalOperator => "logical operator"@,
        Rule::BinaryOperator => "binary operator"@,
        Rule::Expression => "expression"@,
        Rule::Logical => "logical expression"@,
        Rule::Binary => "binary expression"@,
        Rule::Unary => "unary expression"@,
        Rule::Call => "call expression"@,
        Rule::Arguments => "arguments"@,
        Rule::Primary => "primary expression"@,
        Rule::Identifier => "identifier"@,
        Rule::Ty => "type"@,
        Rule::Float | Rule::FloatCharacteristic | Rule::FloatMantissa => "float"@,
        Rule::Integer => "integer"@,
        Rule::Boolean => "boolean"@,
        Rule::Whitespace => "whitespace character"@,
    }
}

/// The names of the rules, in order, with a comma and a space between each two.
pub open spec fn rules_text(rules: Seq<Rule>) -> Seq<char>
    decreases rules.len(),
{
    if rules.len() == 0 {
        Seq::empty()
    } else if rules.len() == 1 {
        rule_name(rules[0])
    } else {
        rules_text(rules.drop_last()) + ", "@ + rule_name(rules.last())
    }
}

impl ErrorVariantView {
    /// What the failure says: the rules that were expected and those that were
    /// not, or the engine's own message.
    pub open spec fn message(self) -> Seq<char> {
        match self {
            ErrorVariantView::ParsingError { positives, negatives } => "Expected "@ + rules_text(
                positives + negatives,
            ) + "."@,
            ErrorVariantView::CustomError { message } => message,
        }
    }
}

impl GrammarErrorView {
    /// The parsing error that stands for a failure of the grammar engine.
    pub open spec fn error(self) -> ParsingErrorView {
        ParsingErrorView {
            kind: ParsingErrorKindView::Grammar(self.variant.message()),
            location: match self.location {
                InputLocation::Pos(offset) => ParsingErrorLocation::Position(offset),
                InputLocation::Span(span) => ParsingErrorLocation::Span(span),
            },
        }
    }
}

impl ParsingErrorKindView {
    /// What the error says to the user.
    pub open spec fn message(self) -> Seq<char> {
        match self {
            ParsingErrorKindView::Grammar(message) => message,
            ParsingErrorKindView::ReservedKeyword(name) => "Invalid identifier. '"@ + name
                + "' is a reserved keyword."@,
            ParsingErrorKindView::InvalidInteger(text) => "Invalid integer literal. Failed to parse '"@
                + text + "'."@,
            ParsingErrorKindView::InvalidFloat(text) => "Invalid float literal. Failed to parse '"@
                + text + "'."@,
            ParsingErrorKindView::TopLevelReturn => "Invalid return statement. Top level code can't return."@,
        }
    }
}

impl ParsingErrorView {
    /// What the error says to the user: the message of its kind and a period.
    pub open spec fn message(self) -> Seq<char> {
        self.kind.message() + "."@
    }
}

/// How a rule is called in a message.
fn rule_name_of(rule: Rule) -> (name: &'static str)
    ensures
        name@ == rule_name(rule),
{
    match rule {
        Rule::EndOfInput => "end of file",
        Rule::Program => "program",
        Rule::Statement => "statement",
        Rule::Block => "block",
        Rule::VariableDeclaration => "variable declaration",
        Rule::FunctionDeclaration => "function declaration",
        Rule::FunctionParams => "function parameters",
        Rule::ExpressionStatement => "expression statement",
        Rule::ReturnStatement => "return statement",
        Rule::Plus => "+",
        Rule::Minus => "-",
        Rule::Star => "*",
        Rule::Slash => "/",
        Rule::Equal => "=",
        Rule::EqualEqual => "==",
        Rule::Bang => "!",
        Rule::BangEqual => "!=",
        Rule::Greater => ">",
        Rule::GreaterEqual => ">=",
        Rule::Less => "<",
        Rule::LessEqual => "<=",
        Rule::And => "&&",
        Rule::Or => "||",
        Rule::UnaryOperator => "unary operator",
        Rule::LogicalOperator => "logical operator",
        Rule::BinaryOperator => "binary operator",
        Rule::Expression => "expression",
        Rule::Logical => "logical expression",
        Rule::Binary => "binary expression",
        Rule::Unary => "unary expression",
        Rule::Call => "call expression",
        Rule::Arguments => "arguments",
        Rule::Primary => "primary expression",
        Rule::Identifier => "identifier",
        Rule::Ty => "type",
        Rule::Float | Rule::FloatCharacteristic | Rule::FloatMantissa => "float",
        Rule::Integer => "integer",
        Rule::Boolean => "boolean",
        Rule::Whitespace => "whitespace character",
    }
}

/// Names the rules, in order, with a comma and a space between each two.
pub fn format_rules(rules: Vec<Rule>) -> (formatted: String)
    ensures
        formatted@ == rules_text(rules@),
{
    let mut formatted = String::new();
    let mut i: usize = 0;
    while i < rules.len()
        invariant
            i <= rules.len(),
            formatted@ == rules_text(rules@.subrange(0, i as int)),
        decreases rules.len() - i,
    {
        proof {
            assert(rules@.subrange(0, i + 1).drop_last() =~= rules@.subrange(0, i as int));
        }
        if i > 0 {
            formatted.append(", ");
        }
        formatted.append(rule_name_of(rules[i]));
        i += 1;
    }
    assert(rules@.subrange(0, rules@.len() as int) =~= rules@);
    formatted
}

impl ParsingErrorKind {
    /// What the error says to the user.
    pub fn message(&self) -> (message: String)
        ensures
            message@ == self@.message(),
    {
        match self {
            ParsingErrorKind::Grammar(message) => message.clone(),
            ParsingErrorKind::ReservedKeyword(name) => {
                let mut message = String::from_str("Invalid identifier. '");
                message.append(name.as_str());
                message.append("' is a reserved keyword.");
                message
            },
            ParsingErrorKind::InvalidInteger(text) => {
                let mut message = String::from_str("Invalid integer literal. Failed to parse '");
                message.append(text.as_str());
                message.append("'.");
                message
            },
            ParsingErrorKind::InvalidFloat(text) => {
                let mut message = String::from_str("Invalid float literal. Failed to parse '");
                message.append(text.as_str());
                message.append("'.");
                message
            },
            ParsingErrorKind::TopLevelReturn => String::from_str(
                "Invalid return statement. Top level code can't return.",
            ),
        }
    }
}

impl ParsingError {
    /// What the error says to the user: the message of its kind and a period.
    pub fn message(&self) -> (message: String)
        ensures
            message@ == self@.message(),
    {
        let mut message = self.kind.message();
        message.append(".");
        message
    }

    /// The parsing error that stands for a failure of the grammar engine: it
    /// says which rules were expected, or what the engine itself said, at the
    /// place where the engine stopped.
    pub fn from(err: GrammarError) -> (error: ParsingError)
        ensures
            error@ == err@.error(),
    {
        let message = match err.variant {
            ErrorVariant::ParsingError { positives, negatives } => {
                let mut rules = positives;
                let mut negatives = negatives;
                rules.append(&mut negatives);
                let mut message = String::from_str("Expected ");
                message.append(format_rules(rules).as_str());
                message.append(".");
                message
            },
            ErrorVariant::CustomError { message } => message,
        };
        let location = match err.location {
            InputLocation::Pos(offset) => ParsingErrorLocation::Position(offset),
            InputLocation::Span(span) => ParsingErrorLocation::Span(span),
        };
        ParsingError { kind: ParsingErrorKind::Grammar(message), location }
    }
}

} // verus!
