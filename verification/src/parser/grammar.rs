//! The concrete parse tree, as the grammar engine hands it over.

use vstd::prelude::*;

use crate::ast::location::Location;

verus! {

/// The rules of the grammar. Every node of a concrete parse tree is tagged with
/// the rule that matched it.
#[derive(Debug, Clone, Copy, PartialEq, Eq, PartialOrd, Ord, Hash, Structural)]
pub enum Rule {
    EndOfInput,
    Program,
    Statement,
    Block,
    VariableDeclaration,
    FunctionDeclaration,
    FunctionParams,
    ExpressionStatement,
    ReturnStatement,
    Plus,
    Minus,
    Star,
    Slash,
    Equal,
    EqualEqual,
    Bang,
    BangEqual,
    Greater,
    GreaterEqual,
    Less,
    LessEqual,
    And,
    Or,
    UnaryOperator,
    LogicalOperator,
    BinaryOperator,
    Expression,
    Logical,
    Binary,
    Unary,
    Call,
    Arguments,
    Primary,
    Identifier,
    Ty,
    Float,
    FloatCharacteristic,
    FloatMantissa,
    Integer,
    Boolean,
    Whitespace,
}

/// One node of the concrete parse tree that the grammar engine hands over: the
/// rule that matched, the span of source text it matched, that text, and the
/// nodes matched inside it, from left to right.
///
/// This library does no floating-point arithmetic. Whoever builds the tree
/// decodes the text of a float token and stores the IEEE 754 bit pattern of the
/// 64-bit value in `float_bits`, or `None` where the text denotes no value.
#[derive(Debug, PartialEq, Eq)]
pub struct Pair {
    pub rule: Rule,
    pub location: Location,
    pub text: String,
    pub float_bits: Option<u64>,
    pub inner: Vec<Pair>,
}

/// The mathematical value of a [`Pair`].
pub struct PairView {
    pub rule: Rule,
    pub location: Location,
    pub text: Seq<char>,
    pub float_bits: Option<u64>,
    pub inner: Seq<PairView>,
}

impl Pair {
    /// The view of a node, by recursion over the tree.
    pub open spec fn model(self) -> PairView
        decreases self,
    {
        PairView {
            rule: self.rule,
            location: self.location,
            text: self.text@,
            float_bits: self.float_bits,
            inner: Seq::new(
                self.inner@.len(),
                |i: int|
                    if 0 <= i < self.inner@.len() {
                        self.inner@[i].model()
                    } else {
                        arbitrary()
                    },
            ),
        }
    }
}

impl View for Pair {
    type V = PairView;

    open spec fn view(&self) -> PairView {
        self.model()
    }
}

impl DeepView for Pair {
    type V = PairView;

    open spec fn deep_view(&self) -> PairView {
        self@
    }
}

impl PairView {
    /// A tree is well spanned when the span of every node is valid, holds the
    /// spans of the nodes inside it, and those stand in order, none reaching
    /// into the next.
    pub open spec fn well_spanned(self) -> bool
        decreases self,
    {
        &&& self.location.is_valid()
        &&& forall|i: int|
            0 <= i < self.inner.len() ==> (#[trigger] self.inner[i]).well_spanned()
                && self.location.contains(self.inner[i].location)
        &&& forall|i: int, j: int|
            0 <= i < j < self.inner.len() ==> (#[trigger] self.inner[i]).location.precedes(
                (#[trigger] self.inner[j]).location,
            )
    }
}

impl Pair {
    /// A node with the given rule, span, text and inner nodes.
    pub fn new(rule: Rule, start: usize, end: usize, text: &str, inner: Vec<Pair>) -> (pair: Pair)
        ensures
            pair@.rule == rule,
            pair@.location == (Location { start, end }),
            pair@.text == text@,
            pair@.float_bits == None::<u64>,
            pair@.inner == inner.deep_view(),
    {
        let pair = Pair {
            rule,
            location: Location::new(start, end),
            text: text.to_owned(),
            float_bits: None,
            inner,
        };
        pair
    }

    /// A float token whose text denotes the value with the bit pattern `bits`,
    /// or no value.
    pub fn float(start: usize, end: usize, text: &str, bits: Option<u64>) -> (pair: Pair)
        ensures
            pair@.rule == Rule::Float,
            pair@.location == (Location { start, end }),
            pair@.text == text@,
            pair@.float_bits == bits,
            pair@.inner == Seq::<PairView>::empty(),
    {
        let pair = Pair {
            rule: Rule::Float,
            location: Location::new(start, end),
            text: text.to_owned(),
            float_bits: bits,
            inner: Vec::new(),
        };
        pair
    }

    /// The view of the `i`-th inner node is the `i`-th inner node of the view.
    pub proof fn lemma_view_inner(&self)
        ensures
            self@.inner.len() == self.inner@.len(),
            forall|i: int| 0 <= i < self.inner@.len() ==> self@.inner[i] == (#[trigger] self.inner@[i])@,
            self@.inner == self.inner.deep_view(),
    {
    }
}

} // verus!
