//! What can go wrong while the text of a query is turned into its typed form.

use vstd::prelude::*;

verus! {

/// The three classes of failure of a query.
#[derive(Debug, Clone, Copy, PartialEq, Eq, Structural)]
pub enum ErrorKind {
    /// The text cannot be read as a predicate, a grouping or an aggregate.
    MalformedSpec,
    /// An operator or a function is applied to a field that it does not fit.
    TypeMismatch,
    /// A literal cannot be read as a value of the field's type.
    LiteralParse,
}

/// Why the text of a query could not be turned into its typed form.
#[derive(Debug, Clone, Copy, PartialEq, Eq, Structural)]
pub enum Cause {
    /// A condition that is not of the form `field,operator,value`.
    ConditionFormat,
    /// A predicate that is neither `field,operator,value` nor `field,value`.
    PredicateFormat,
    /// A field name that is not known.
    InvalidField,
    /// An operator name that is not known, inside a condition or a predicate.
    InvalidOperator,
    /// An operator name that is not known, given by itself.
    InvalidComparison,
    /// A field and an operator that do not go together.
    InvalidPredicate,
    /// A size literal that is not an unsigned 64-bit number.
    InvalidSize,
    /// A time literal in neither of the two accepted forms.
    InvalidDateTime,
    /// A time literal that names no single instant on the local clock.
    AmbiguousLocalTime,
    /// A grouping by a field that needs a modifier, given without one.
    GroupingFormat,
    /// A size unit that is not known.
    InvalidMagnitude,
    /// A grouping by a field that records cannot be grouped by.
    UnsupportedGrouping,
    /// `max` or `min` without the field to compare by.
    MissingArgument,
    /// An aggregate function that is not known.
    UnknownAggregate,
    /// A field that records cannot be compared by.
    UnknownAggregator,
    /// A field that cannot be summed or averaged.
    UnsupportedParameter,
}

impl Cause {
    /// The class that the cause belongs to.
    pub open spec fn class(self) -> ErrorKind {
        match self {
            Cause::InvalidPredicate => ErrorKind::TypeMismatch,
            Cause::UnsupportedParameter => ErrorKind::TypeMismatch,
            Cause::InvalidSize => ErrorKind::LiteralParse,
            Cause::InvalidDateTime => ErrorKind::LiteralParse,
            Cause::AmbiguousLocalTime => ErrorKind::LiteralParse,
            _ => ErrorKind::MalformedSpec,
        }
    }
}

impl Cause {
    /// How a message about the cause begins. The text at fault, where the
    /// cause names one, follows.
    pub open spec fn preamble(self) -> Seq<char> {
        match self {
            Cause::ConditionFormat =>
                "Invalid WHERE condition format. Expected: field,operator,value, got: "@,
            Cause::PredicateFormat =>
                "Invalid predicate format. Expected: field,operator,value, got: "@,
            Cause::InvalidField => "Invalid field: "@,
            Cause::InvalidOperator => "Invalid operator: "@,
            Cause::InvalidComparison => "Invalid comparison operator: "@,
            Cause::InvalidPredicate => "Invalid predicate: "@,
            Cause::InvalidSize => "Invalid size value: "@,
            Cause::InvalidDateTime => "Invalid date/time format: "@,
            Cause::AmbiguousLocalTime => "Ambiguous or invalid local datetime"@,
            Cause::GroupingFormat => "Invalid grouping operator format"@,
            Cause::InvalidMagnitude => "Invalid size magnitude"@,
            Cause::UnsupportedGrouping => "Unsupported grouping operator"@,
            Cause::MissingArgument => "Missing argument for "@,
            Cause::UnknownAggregate => "Unknown aggregate function: "@,
            Cause::UnknownAggregator => "Unknown comparing aggregator: "@,
            Cause::UnsupportedParameter => "Unsupported parameter: "@,
        }
    }

    /// How a message about the cause begins.
    pub fn opening(&self) -> (text: &'static str)
        ensures
            text@ == self.preamble(),
    {
        match self {
            Cause::ConditionFormat =>
                "Invalid WHERE condition format. Expected: field,operator,value, got: ",
            Cause::PredicateFormat =>
                "Invalid predicate format. Expected: field,operator,value, got: ",
            Cause::InvalidField => "Invalid field: ",
            Cause::InvalidOperator => "Invalid operator: ",
            Cause::InvalidComparison => "Invalid comparison operator: ",
            Cause::InvalidPredicate => "Invalid predicate: ",
            Cause::InvalidSize => "Invalid size value: ",
            Cause::InvalidDateTime => "Invalid date/time format: ",
            Cause::AmbiguousLocalTime => "Ambiguous or invalid local datetime",
            Cause::GroupingFormat => "Invalid grouping operator format",
            Cause::InvalidMagnitude => "Invalid size magnitude",
            Cause::UnsupportedGrouping => "Unsupported grouping operator",
            Cause::MissingArgument => "Missing argument for ",
            Cause::UnknownAggregate => "Unknown aggregate function: ",
            Cause::UnknownAggregator => "Unknown comparing aggregator: ",
            Cause::UnsupportedParameter => "Unsupported parameter: ",
        }
    }
}

/// A failure to read a query: its cause and the piece of the
/// input that is at fault, as it was given (empty where the cause names none).
#[derive(Debug, Clone, PartialEq, Eq)]
pub struct QueryError {
    pub cause: Cause,
    pub detail: String,
}

impl View for QueryError {
    type V = (Cause, Seq<char>);

    open spec fn view(&self) -> (Cause, Seq<char>) {
        (self.cause, self.detail@)
    }
}

impl QueryError {
    /// The failure with the given cause and offending text.
    pub fn new(cause: Cause, detail: &str) -> (e: QueryError)
        ensures
            e@ == (cause, detail@),
    {
        QueryError { cause, detail: detail.to_owned() }
    }

    /// The failure with the given cause that names no text.
    pub fn bare(cause: Cause) -> (e: QueryError)
        ensures
            e@ == (cause, Seq::<char>::empty()),
    {
        QueryError { cause, detail: String::new() }
    }

    /// The failure in words: how its cause begins, then the text at fault.
    pub fn message(&self) -> (text: String)
        ensures
            text@ == self.cause.preamble() + self.detail@,
    {
        self.cause.opening().to_owned().concat(self.detail.as_str())
    }

    /// The class that the failure belongs to.
    pub fn kind(&self) -> (kind: ErrorKind)
        ensures
            kind == self.cause.class(),
    {
        match self.cause {
            Cause::InvalidPredicate => ErrorKind::TypeMismatch,
            Cause::UnsupportedParameter => ErrorKind::TypeMismatch,
            Cause::InvalidSize => ErrorKind::LiteralParse,
            Cause::InvalidDateTime => ErrorKind::LiteralParse,
            Cause::AmbiguousLocalTime => ErrorKind::LiteralParse,
            _ => ErrorKind::MalformedSpec,
        }
    }
}

/// What a fallible step came to, with the value and the failure each taken by
/// its model.
pub open spec fn outcome<T: View>(r: Result<T, QueryError>) -> Result<T::V, (Cause, Seq<char>)> {
    match r {
        Ok(value) => Ok(value@),
        Err(e) => Err(e@),
    }
}

} // verus!
