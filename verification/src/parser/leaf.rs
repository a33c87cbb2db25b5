//! The leaves of the syntax tree: identifiers, type names and literals.

use vstd::prelude::*;

use crate::ast::ast::{Ident, IdentView, Lit, LitKind, Ty, TyView};
use crate::parser::error::{ParsingError, ParsingErrorKind, ParsingErrorKindView, ParsingErrorView};
use crate::parser::grammar::{Pair, PairView, Rule};
use crate::parser::outcome::result_view;
use crate::parser::text::{integer_of, is_reserved, is_reserved_word, parse_integer, str_eq};

verus! {

/// The identifier that a token denotes: its text at its span, unless the text
/// is a reserved word.
pub open spec fn ident_of(pair: PairView) -> Result<IdentView, ParsingErrorView> {
    if is_reserved_word(pair.text) {
        Err(ParsingErrorView::at(ParsingErrorKindView::ReservedKeyword(pair.text), pair.location))
    } else {
        Ok(IdentView { name: pair.text, location: pair.location })
    }
}

/// The type name that a token denotes, under the same rule as an identifier.
pub open spec fn ty_of(pair: PairView) -> Result<TyView, ParsingErrorView> {
    if is_reserved_word(pair.text) {
        Err(ParsingErrorView::at(ParsingErrorKindView::ReservedKeyword(pair.text), pair.location))
    } else {
        Ok(TyView { name: pair.text, location: pair.location })
    }
}

/// A token that can be read as a literal: an integer, a float, or a boolean
/// that reads `true` or `false`.
pub open spec fn is_literal(pair: PairView) -> bool {
    match pair.rule {
        Rule::Integer | Rule::Float => true,
        Rule::Boolean => pair.text == "true"@ || pair.text == "false"@,
        _ => false,
    }
}

/// The literal that a token denotes.
pub open spec fn lit_of(pair: PairView) -> Result<Lit, ParsingErrorView> {
    match pair.rule {
        Rule::Integer => match integer_of(pair.text) {
            Some(value) => Ok(Lit { kind: LitKind::Int(value), location: pair.location }),
            None => Err(
                ParsingErrorView::at(ParsingErrorKindView::InvalidInteger(pair.text), pair.location),
            ),
        },
        Rule::Float => match pair.float_bits {
            Some(bits) => Ok(Lit { kind: LitKind::Float(bits), location: pair.location }),
            None => Err(
                ParsingErrorView::at(ParsingErrorKindView::InvalidFloat(pair.text), pair.location),
            ),
        },
        _ => Ok(Lit { kind: LitKind::Bool(pair.text == "true"@), location: pair.location }),
    }
}

/// Builds the identifier that a token denotes, unless it reads as a reserved
/// word.
pub fn parse_ident(pair: &Pair) -> (res: Result<Ident, ParsingError>)
    requires
        pair@.rule == Rule::Identifier,
    ensures
        result_view(res) == ident_of(pair@),
{
    let name = pair.text.clone();
    if is_reserved(name.as_str()) {
        Err(ParsingError::new(ParsingErrorKind::ReservedKeyword(name), pair.location))
    } else {
        Ok(Ident { name, location: pair.location })
    }
}

/// Builds the type name that a token denotes, unless it reads as a reserved
/// word.
pub fn parse_ty(pair: &Pair) -> (res: Result<Ty, ParsingError>)
    requires
        pair@.rule == Rule::Ty,
    ensures
        result_view(res) == ty_of(pair@),
{
    let name = pair.text.clone();
    if is_reserved(name.as_str()) {
        Err(ParsingError::new(ParsingErrorKind::ReservedKeyword(name), pair.location))
    } else {
        Ok(Ty { name, location: pair.location })
    }
}

/// Builds the literal that a token denotes. An integer is read from the text
/// of the token; a float is taken as the tree holds it.
pub fn parse_lit(pair: &Pair) -> (res: Result<Lit, ParsingError>)
    requires
        is_literal(pair@),
    ensures
        result_view(res) == lit_of(pair@),
{
    let location = pair.location;
    match pair.rule {
        Rule::Integer => match parse_integer(pair.text.as_str()) {
            Some(value) => Ok(Lit { kind: LitKind::Int(value), location }),
            None => Err(
                ParsingError::new(ParsingErrorKind::InvalidInteger(pair.text.clone()), location),
            ),
        },
        Rule::Float => match pair.float_bits {
            Some(bits) => Ok(Lit { kind: LitKind::Float(bits), location }),
            None => Err(
                ParsingError::new(ParsingErrorKind::InvalidFloat(pair.text.clone()), location),
            ),
        },
        _ => Ok(Lit { kind: LitKind::Bool(str_eq(pair.text.as_str(), "true")), location }),
    }
}

} // verus!
