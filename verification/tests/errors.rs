use turbo_bear::ast::location::Location;
use turbo_bear::parser::error::{
    format_rules, ErrorVariant, GrammarError, InputLocation, ParsingError, ParsingErrorKind,
    ParsingErrorLocation,
};
use turbo_bear::parser::grammar::Rule;

#[test]
fn no_rules_have_no_names() {
    assert_eq!(format_rules(Vec::new()), "");
}

#[test]
fn one_rule_stands_alone() {
    assert_eq!(format_rules(vec![Rule::Identifier]), "identifier");
}

#[test]
fn rules_are_separated_by_commas() {
    assert_eq!(
        format_rules(vec![Rule::Plus, Rule::Minus, Rule::EndOfInput]),
        "+, -, end of file"
    );
}

#[test]
fn every_rule_has_its_name() {
    let names = [
        (Rule::EndOfInput, "end of file"),
        (Rule::Program, "program"),
        (Rule::Statement, "statement"),
        (Rule::Block, "block"),
        (Rule::VariableDeclaration, "variable declaration"),
        (Rule::FunctionDeclaration, "function declaration"),
        (Rule::FunctionParams, "function parameters"),
        (Rule::ExpressionStatement, "expression statement"),
        (Rule::ReturnStatement, "return statement"),
        (Rule::Plus, "+"),
        (Rule::Minus, "-"),
        (Rule::Star, "*"),
        (Rule::Slash, "/"),
        (Rule::Equal, "="),
        (Rule::EqualEqual, "=="),
        (Rule::Bang, "!"),
        (Rule::BangEqual, "!="),
        (Rule::Greater, ">"),
        (Rule::GreaterEqual, ">="),
        (Rule::Less, "<"),
        (Rule::LessEqual, "<="),
        (Rule::And, "&&"),
        (Rule::Or, "||"),
        (Rule::UnaryOperator, "unary operator"),
        (Rule::LogicalOperator, "logical operator"),
        (Rule::BinaryOperator, "binary operator"),
        (Rule::Expression, "expression"),
        (Rule::Logical, "logical expression"),
        (Rule::Binary, "binary expression"),
        (Rule::Unary, "unary expression"),
        (Rule::Call, "call expression"),
        (Rule::Arguments, "arguments"),
        (Rule::Primary, "primary expression"),
        (Rule::Identifier, "identifier"),
        (Rule::Ty, "type"),
        (Rule::Float, "float"),
        (Rule::FloatCharacteristic, "float"),
        (Rule::FloatMantissa, "float"),
        (Rule::Integer, "integer"),
        (Rule::Boolean, "boolean"),
        (Rule::Whitespace, "whitespace character"),
    ];
    for (rule, name) in names {
        assert_eq!(format_rules(vec![rule]), name);
    }
}

#[test]
fn expected_rules_come_before_unexpected_ones() {
    let failure = GrammarError {
        variant: ErrorVariant::ParsingError {
            positives: vec![Rule::Identifier, Rule::Integer],
            negatives: vec![Rule::Boolean],
        },
        location: InputLocation::Span((3, 9)),
    };
    assert_eq!(
        ParsingError::from(failure),
        ParsingError {
            kind: ParsingErrorKind::Grammar("Expected identifier, integer, boolean.".to_owned()),
            location: ParsingErrorLocation::Span((3, 9)),
        }
    );
}

#[test]
fn failure_without_rules() {
    let failure = GrammarError {
        variant: ErrorVariant::ParsingError { positives: Vec::new(), negatives: Vec::new() },
        location: InputLocation::Pos(0),
    };
    assert_eq!(
        ParsingError::from(failure),
        ParsingError {
            kind: ParsingErrorKind::Grammar("Expected .".to_owned()),
            location: ParsingErrorLocation::Position(0),
        }
    );
}

#[test]
fn message_of_the_grammar_engine_is_kept() {
    let failure = GrammarError {
        variant: ErrorVariant::CustomError { message: "unbalanced braces".to_owned() },
        location: InputLocation::Pos(12),
    };
    assert_eq!(
        ParsingError::from(failure),
        ParsingError {
            kind: ParsingErrorKind::Grammar("unbalanced braces".to_owned()),
            location: ParsingErrorLocation::Position(12),
        }
    );
}

#[test]
fn messages_of_the_kinds() {
    assert_eq!(ParsingErrorKind::Grammar("Expected block.".to_owned()).message(), "Expected block.");
    assert_eq!(
        ParsingErrorKind::ReservedKeyword("let".to_owned()).message(),
        "Invalid identifier. 'let' is a reserved keyword."
    );
    assert_eq!(
        ParsingErrorKind::InvalidInteger("99999999999999999999".to_owned()).message(),
        "Invalid integer literal. Failed to parse '99999999999999999999'."
    );
    assert_eq!(
        ParsingErrorKind::InvalidFloat("1.x".to_owned()).message(),
        "Invalid float literal. Failed to parse '1.x'."
    );
    assert_eq!(
        ParsingErrorKind::TopLevelReturn.message(),
        "Invalid return statement. Top level code can't return."
    );
}

#[test]
fn message_of_an_error_ends_with_a_period() {
    let error =
        ParsingError::new(ParsingErrorKind::ReservedKeyword("fn".to_owned()), Location::new(0, 2));
    assert_eq!(error.message(), "Invalid identifier. 'fn' is a reserved keyword..");
    let error = ParsingError::new(ParsingErrorKind::TopLevelReturn, Location::new(0, 7));
    assert_eq!(error.message(), "Invalid return statement. Top level code can't return..");
}
