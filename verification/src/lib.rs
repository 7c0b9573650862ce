//! Poker starting-hand range notation: the hand model, the canonical table of
//! the 169 starting hands, and the parser that expands a range expression
//! such as `AQo+` into the hands it denotes.

pub mod cli;
pub mod parser;
pub mod utils;

use vstd::prelude::*;

verus! {

/// A seat at the table, by the order in which it acts before the flop.
#[derive(Debug, Clone, Copy, PartialEq, Eq, Structural)]
pub enum Position {
    EarlyPosition1,
    EarlyPosition2,
    EarlyPosition3,
    LowJack,
    HighJack,
    Cutoff,
    Button,
    SmallBlind,
}

/// The ranges of one position, each as text in range notation.
#[derive(Debug)]
pub struct Schema {
    raise: String,
    raise_or_fold: String,
}

/// What a `Schema` holds.
pub struct SchemaView {
    pub raise: Seq<char>,
    pub raise_or_fold: Seq<char>,
}

/// The name of a position and its ranges.
#[derive(Debug)]
pub struct PositionInput {
    position: String,
    schema: Schema,
}

/// What a `PositionInput` holds.
pub struct PositionInputView {
    pub position: Seq<char>,
    pub schema: SchemaView,
}

impl View for Schema {
    type V = SchemaView;

    closed spec fn view(&self) -> SchemaView {
        SchemaView { raise: self.raise@, raise_or_fold: self.raise_or_fold@ }
    }
}

impl View for PositionInput {
    type V = PositionInputView;

    closed spec fn view(&self) -> PositionInputView {
        PositionInputView { position: self.position@, schema: self.schema@ }
    }
}

impl Schema {
    pub fn new(raise: String, raise_or_fold: String) -> (schema: Self)
        ensures
            schema@ == (SchemaView { raise: raise@, raise_or_fold: raise_or_fold@ }),
    {
        Schema { raise, raise_or_fold }
    }

    /// The range to raise with.
    pub fn raise(&self) -> (text: &str)
        ensures
            text@ == self@.raise,
    {
        self.raise.as_str()
    }

    /// The range to raise with, or else to fold.
    pub fn raise_or_fold(&self) -> (text: &str)
        ensures
            text@ == self@.raise_or_fold,
    {
        self.raise_or_fold.as_str()
    }
}

impl PositionInput {
    pub fn new(position: String, schema: Schema) -> (input: Self)
        ensures
            input@ == (PositionInputView { position: position@, schema: schema@ }),
    {
        PositionInput { position, schema }
    }

    /// The name of the position.
    pub fn position(&self) -> (text: &str)
        ensures
            text@ == self@.position,
    {
        self.position.as_str()
    }

    /// The ranges of the position.
    pub fn schema(&self) -> (schema: &Schema)
        ensures
            schema@ == self@.schema,
    {
        &self.schema
    }
}

} // verus!
