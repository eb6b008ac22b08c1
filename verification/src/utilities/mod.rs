//! The query vocabulary shared by the stages: comparison operators, record
//! fields and aggregate functions, as the command line names them.

pub mod aggregate;
pub mod filter;
pub mod group;
pub mod lexical;
pub mod raw;

use crate::error::{Cause, QueryError};
use crate::text::{chars_of, lowercase, same_chars};
use core::cmp::Ordering;
use vstd::prelude::*;
use vstd::std_specs::cmp::{PartialEqSpec, PartialOrdSpec};

verus! {

/// Whether the word `word` is the text of `literal`.
pub fn is_word(word: &Vec<char>, literal: &str) -> (same: bool)
    ensures
        same == (word@ == literal@),
{
    let other = chars_of(literal);
    same_chars(word, &other)
}

/// A comparison operator: six relational ones for any ordered type and
/// three that apply to text only.
#[derive(Debug, Clone, Copy, PartialEq, Eq, Structural)]
pub enum Comparison {
    /// Not equal to
    Ne,
    /// Equal to
    Eq,
    /// Greater than
    Gt,
    /// Greater than or equal
    Ge,
    /// Less than
    Lt,
    /// Less than or equal
    Le,
    /// Contains (for text)
    Contains,
    /// Starts with (for text)
    StartsWith,
    /// Ends with (for text)
    EndsWith,
}

impl Comparison {
    /// The operator that the lower-case word `word` names.
    pub open spec fn named(word: Seq<char>) -> Option<Comparison> {
        if word == "eq"@ || word == "equal"@ || word == "equals"@ {
            Some(Comparison::Eq)
        } else if word == "ne"@ || word == "not_equal"@ || word == "neq"@ {
            Some(Comparison::Ne)
        } else if word == "gt"@ || word == "greater"@ || word == "greater_than"@ {
            Some(Comparison::Gt)
        } else if word == "ge"@ || word == "gte"@ || word == "greater_equal"@ {
            Some(Comparison::Ge)
        } else if word == "lt"@ || word == "less"@ || word == "less_than"@ {
            Some(Comparison::Lt)
        } else if word == "le"@ || word == "lte"@ || word == "less_equal"@ {
            Some(Comparison::Le)
        } else if word == "contains"@ {
            Some(Comparison::Contains)
        } else if word == "starts_with"@ || word == "startswith"@ {
            Some(Comparison::StartsWith)
        } else if word == "ends_with"@ || word == "endswith"@ {
            Some(Comparison::EndsWith)
        } else {
            None
        }
    }

    /// The operator that the lower-case word `word` names.
    pub fn of_word(word: &Vec<char>) -> (op: Option<Comparison>)
        ensures
            op == Comparison::named(word@),
    {
        if is_word(word, "eq") || is_word(word, "equal") || is_word(word, "equals") {
            Some(Comparison::Eq)
        } else if is_word(word, "ne") || is_word(word, "not_equal") || is_word(word, "neq") {
            Some(Comparison::Ne)
        } else if is_word(word, "gt") || is_word(word, "greater") || is_word(word, "greater_than") {
            Some(Comparison::Gt)
        } else if is_word(word, "ge") || is_word(word, "gte") || is_word(word, "greater_equal") {
            Some(Comparison::Ge)
        } else if is_word(word, "lt") || is_word(word, "less") || is_word(word, "less_than") {
            Some(Comparison::Lt)
        } else if is_word(word, "le") || is_word(word, "lte") || is_word(word, "less_equal") {
            Some(Comparison::Le)
        } else if is_word(word, "contains") {
            Some(Comparison::Contains)
        } else if is_word(word, "starts_with") || is_word(word, "startswith") {
            Some(Comparison::StartsWith)
        } else if is_word(word, "ends_with") || is_word(word, "endswith") {
            Some(Comparison::EndsWith)
        } else {
            None
        }
    }

    /// Reads an operator name, in any letter case. A name that is not known
    /// is handed back in the error.
    pub fn from_str(s: &str) -> (r: Result<Comparison, QueryError>)
        ensures
            match Comparison::named(lowercase(s@)) {
                Some(op) => r == Ok::<Comparison, QueryError>(op),
                None => r matches Err(e) && e@ == (Cause::InvalidComparison, s@),
            },
    {
        let lowered = s.to_lowercase();
        let word = chars_of(lowered.as_str());
        match Comparison::of_word(&word) {
            Some(op) => Ok(op),
            None => Err(QueryError::new(Cause::InvalidComparison, s)),
        }
    }

    /// Whether the operator is one of the six that order values.
    pub open spec fn is_relational(self) -> bool {
        !(self is Contains || self is StartsWith || self is EndsWith)
    }

    /// Whether `a` stands to `b` as the operator says. The three text
    /// operators hold of no pair of ordered values.
    pub open spec fn holds<T: PartialEq + PartialOrd>(self, a: T, b: T) -> bool {
        match self {
            Comparison::Ne => !a.eq_spec(&b),
            Comparison::Eq => a.eq_spec(&b),
            Comparison::Gt => a.partial_cmp_spec(&b) == Some(Ordering::Greater),
            Comparison::Ge => a.partial_cmp_spec(&b) == Some(Ordering::Greater)
                || a.partial_cmp_spec(&b) == Some(Ordering::Equal),
            Comparison::Lt => a.partial_cmp_spec(&b) == Some(Ordering::Less),
            Comparison::Le => a.partial_cmp_spec(&b) == Some(Ordering::Less)
                || a.partial_cmp_spec(&b) == Some(Ordering::Equal),
            _ => false,
        }
    }

    /// Compares two values of one ordered type by the operator.
    pub fn compare<T: PartialEq + PartialOrd>(&self, a: T, b: T) -> (r: bool)
        ensures
            T::obeys_eq_spec() && T::obeys_partial_cmp_spec() ==> r == self.holds(a, b),
    {
        match self {
            Comparison::Ne => a != b,
            Comparison::Eq => a == b,
            Comparison::Gt => a > b,
            Comparison::Ge => a >= b,
            Comparison::Lt => a < b,
            Comparison::Le => a <= b,
            _ => false,
        }
    }
}

/// A field of a record that a condition can speak of.
#[derive(Debug, Clone, Copy, PartialEq, Eq, Structural)]
pub enum Field {
    Name,
    Extension,
    FileType,
    Size,
    Modified,
    Accessed,
    Created,
}

impl Field {
    /// The field that the lower-case word `word` names.
    pub open spec fn named(word: Seq<char>) -> Option<Field> {
        if word == "name"@ || word == "n"@ {
            Some(Field::Name)
        } else if word == "extension"@ || word == "ext"@ || word == "e"@ {
            Some(Field::Extension)
        } else if word == "size"@ || word == "s"@ {
            Some(Field::Size)
        } else if word == "modified"@ || word == "mod"@ || word == "m"@ {
            Some(Field::Modified)
        } else if word == "accessed"@ || word == "acc"@ || word == "a"@ {
            Some(Field::Accessed)
        } else if word == "created"@ || word == "cre"@ || word == "c"@ {
            Some(Field::Created)
        } else if word == "filetype"@ || word == "file_type"@ || word == "type"@ || word == "f"@
            || word == "t"@ {
            Some(Field::FileType)
        } else {
            None
        }
    }

    /// The field that the lower-case word `word` names.
    pub fn of_word(word: &Vec<char>) -> (field: Option<Field>)
        ensures
            field == Field::named(word@),
    {
        if is_word(word, "name") || is_word(word, "n") {
            Some(Field::Name)
        } else if is_word(word, "extension") || is_word(word, "ext") || is_word(word, "e") {
            Some(Field::Extension)
        } else if is_word(word, "size") || is_word(word, "s") {
            Some(Field::Size)
        } else if is_word(word, "modified") || is_word(word, "mod") || is_word(word, "m") {
            Some(Field::Modified)
        } else if is_word(word, "accessed") || is_word(word, "acc") || is_word(word, "a") {
            Some(Field::Accessed)
        } else if is_word(word, "created") || is_word(word, "cre") || is_word(word, "c") {
            Some(Field::Created)
        } else if is_word(word, "filetype") || is_word(word, "file_type") || is_word(word, "type")
            || is_word(word, "f") || is_word(word, "t") {
            Some(Field::FileType)
        } else {
            None
        }
    }

    /// Reads a field name, in any letter case. A name that is not known is
    /// handed back in the error.
    pub fn from_str(s: &str) -> (r: Result<Field, QueryError>)
        ensures
            match Field::named(lowercase(s@)) {
                Some(field) => r == Ok::<Field, QueryError>(field),
                None => r matches Err(e) && e@ == (Cause::InvalidField, s@),
            },
    {
        let lowered = s.to_lowercase();
        let word = chars_of(lowered.as_str());
        match Field::of_word(&word) {
            Some(field) => Ok(field),
            None => Err(QueryError::new(Cause::InvalidField, s)),
        }
    }

    /// Whether the field holds a timestamp.
    pub open spec fn is_time(self) -> bool {
        self is Modified || self is Accessed || self is Created
    }

    /// Whether the field holds a timestamp.
    pub fn holds_time(&self) -> (timed: bool)
        ensures
            timed == self.is_time(),
    {
        matches!(self, Field::Modified | Field::Accessed | Field::Created)
    }
}

impl core::str::FromStr for Comparison {
    type Err = QueryError;

    /// Reads an operator name as `Comparison::from_str` does.
    fn from_str(s: &str) -> (r: Result<Comparison, QueryError>)
        ensures
            match Comparison::named(lowercase(s@)) {
                Some(op) => r == Ok::<Comparison, QueryError>(op),
                None => r matches Err(e) && e@ == (Cause::InvalidComparison, s@),
            },
    {
        Comparison::from_str(s)
    }
}

impl core::str::FromStr for Field {
    type Err = QueryError;

    /// Reads a field name as `Field::from_str` does.
    fn from_str(s: &str) -> (r: Result<Field, QueryError>)
        ensures
            match Field::named(lowercase(s@)) {
                Some(field) => r == Ok::<Field, QueryError>(field),
                None => r matches Err(e) && e@ == (Cause::InvalidField, s@),
            },
    {
        Field::from_str(s)
    }
}

/// An aggregate function, as the command line names it.
#[derive(Debug, Clone, Copy, PartialEq, Eq, Structural)]
pub enum AggrFunc {
    Count,
    Sum,
    Avg,
    Max,
    Min,
}

impl AggrFunc {
    /// The function's name on the command line.
    pub open spec fn word(self) -> Seq<char> {
        match self {
            AggrFunc::Count => "count"@,
            AggrFunc::Sum => "sum"@,
            AggrFunc::Avg => "avg"@,
            AggrFunc::Max => "max"@,
            AggrFunc::Min => "min"@,
        }
    }

    /// The function's name on the command line.
    pub fn name(&self) -> (name: &'static str)
        ensures
            name@ == self.word(),
    {
        match self {
            AggrFunc::Count => "count",
            AggrFunc::Sum => "sum",
            AggrFunc::Avg => "avg",
            AggrFunc::Max => "max",
            AggrFunc::Min => "min",
        }
    }
}

} // verus!
