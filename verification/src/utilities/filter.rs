//! The filter: one typed predicate evaluated against each record.

use crate::calendar::{read_instant, reading_fits, TimeReading};
use crate::decimal::{parse_u64, parsed_u64};
use crate::error::{outcome, Cause, QueryError};
use crate::file::{File, Timestamp};
use crate::text::{
    chars_of, lowercase, normal, normalise, same_text, split, split_limited, texts,
};
use crate::utilities::Field;
use core::cmp::Ordering;
use regex::Regex;
use vstd::prelude::*;
use vstd::std_specs::cmp::{PartialEqSpec, PartialOrdSpec};

verus! {

/// A relational operator for fields whose values are ordered.
#[derive(Debug, Clone, Copy, PartialEq, Eq, Structural)]
pub enum Comparison {
    /// Not equal to
    Ne,
    /// Equal to
    Eq,
    /// Greater than
    Gt,
    /// Greater than or equal
    Ge,
    /// Less than
    Lt,
    /// Less than or equal
    Le,
}

impl Comparison {
    /// The operator that the lower-case word `word` names.
    pub open spec fn named(word: Seq<char>) -> Option<Comparison> {
        match crate::utilities::Comparison::named(word) {
            Some(op) => Comparison::narrowed(op),
            None => None,
        }
    }

    /// The relational operator that `op` is, if it is one.
    pub open spec fn narrowed(op: crate::utilities::Comparison) -> Option<Comparison> {
        match op {
            crate::utilities::Comparison::Ne => Some(Comparison::Ne),
            crate::utilities::Comparison::Eq => Some(Comparison::Eq),
            crate::utilities::Comparison::Gt => Some(Comparison::Gt),
            crate::utilities::Comparison::Ge => Some(Comparison::Ge),
            crate::utilities::Comparison::Lt => Some(Comparison::Lt),
            crate::utilities::Comparison::Le => Some(Comparison::Le),
            _ => None,
        }
    }

    /// The relational operator that `op` is; none for the three operators
    /// that apply to text only.
    pub fn narrow(op: crate::utilities::Comparison) -> (r: Option<Comparison>)
        ensures
            r == Comparison::narrowed(op),
    {
        match op {
            crate::utilities::Comparison::Ne => Some(Comparison::Ne),
            crate::utilities::Comparison::Eq => Some(Comparison::Eq),
            crate::utilities::Comparison::Gt => Some(Comparison::Gt),
            crate::utilities::Comparison::Ge => Some(Comparison::Ge),
            crate::utilities::Comparison::Lt => Some(Comparison::Lt),
            crate::utilities::Comparison::Le => Some(Comparison::Le),
            _ => None,
        }
    }

    /// Reads the name of a relational operator, in any letter case. A name
    /// that is not one is handed back in the error.
    pub fn from_str(s: &str) -> (r: Result<Comparison, QueryError>)
        ensures
            match Comparison::named(lowercase(s@)) {
                Some(op) => r == Ok::<Comparison, QueryError>(op),
                None => r matches Err(e) && e@ == (Cause::InvalidComparison, s@),
            },
    {
        let lowered = s.to_lowercase();
        let word = chars_of(lowered.as_str());
        let wide = crate::utilities::Comparison::of_word(&word);
        let found = match wide {
            Some(op) => Comparison::narrow(op),
            None => None,
        };
        match found {
            Some(op) => Ok(op),
            None => Err(QueryError::new(Cause::InvalidComparison, s)),
        }
    }

    /// Whether `a` stands to `b` as the operator says.
    pub open spec fn holds<T: PartialEq + PartialOrd>(self, a: T, b: T) -> bool {
        match self {
            Comparison::Ne => !a.eq_spec(&b),
            Comparison::Eq => a.eq_spec(&b),
            Comparison::Gt => a.partial_cmp_spec(&b) == Some(Ordering::Greater),
            Comparison::Ge => a.partial_cmp_spec(&b) == Some(Ordering::Greater)
                || a.partial_cmp_spec(&b) == Some(Ordering::Equal),
            Comparison::Lt => a.partial_cmp_spec(&b) == Some(Ordering::Less),
            Comparison::Le => a.partial_cmp_spec(&b) == Some(Ordering::Less)
                || a.partial_cmp_spec(&b) == Some(Ordering::Equal),
        }
    }

    /// Compares two values of one ordered type by the operator.
    pub fn compare<T: PartialEq + PartialOrd>(&self, a: T, b: T) -> (r: bool)
        ensures
            T::obeys_eq_spec() && T::obeys_partial_cmp_spec() ==> r == self.holds(a, b),
    {
        match self {
            Comparison::Ne => a != b,
            Comparison::Eq => a == b,
            Comparison::Gt => a > b,
            Comparison::Ge => a >= b,
            Comparison::Lt => a < b,
            Comparison::Le => a <= b,
        }
    }

    /// Whether the operator holds of two values that stand to each other as
    /// `order` says.
    pub open spec fn allows(self, order: Ordering) -> bool {
        match self {
            Comparison::Ne => order != Ordering::Equal,
            Comparison::Eq => order == Ordering::Equal,
            Comparison::Gt => order == Ordering::Greater,
            Comparison::Ge => order != Ordering::Less,
            Comparison::Lt => order == Ordering::Less,
            Comparison::Le => order != Ordering::Greater,
        }
    }

    /// Whether the operator holds of two values that stand to each other as
    /// `order` says.
    pub fn allows_order(&self, order: Ordering) -> (r: bool)
        ensures
            r == self.allows(order),
    {
        match self {
            Comparison::Ne => !matches!(order, Ordering::Equal),
            Comparison::Eq => matches!(order, Ordering::Equal),
            Comparison::Gt => matches!(order, Ordering::Greater),
            Comparison::Ge => !matches!(order, Ordering::Less),
            Comparison::Lt => matches!(order, Ordering::Less),
            Comparison::Le => !matches!(order, Ordering::Greater),
        }
    }
}

/// How the size `a` stands to the size `b`.
pub open spec fn size_order(a: u64, b: u64) -> Ordering {
    if a < b {
        Ordering::Less
    } else if a > b {
        Ordering::Greater
    } else {
        Ordering::Equal
    }
}

/// Whether `Regex::new` accepts the pattern `pattern`.
pub uninterp spec fn regex_compiles(pattern: Seq<char>) -> bool;

/// Whether the regular expression compiled from `pattern` has a match
/// anywhere in `text` (`Regex::is_match`).
pub uninterp spec fn regex_finds(pattern: Seq<char>, text: Seq<char>) -> bool;

/// Compiles `pattern` with `Regex::new` and, if that succeeds, searches `text`
/// with `Regex::is_match`. Both depend on their arguments alone: whether the
/// pattern compiles is `regex_compiles`, and whether the compiled expression
/// matches somewhere in the text is `regex_finds`.
#[verifier::external_body]
pub(crate) fn regex_search(pattern: &str, text: &str) -> (found: Option<bool>)
    ensures
        found == (if regex_compiles(pattern@) {
            Some(regex_finds(pattern@, text@))
        } else {
            None::<bool>
        }),
{
    match Regex::new(pattern) {
        Ok(expression) => Some(expression.is_match(text)),
        Err(_) => None,
    }
}

/// Whether a name predicate with the literal `literal` accepts the name
/// `name`: where the literal compiles as a regular expression, the expression
/// must match somewhere in the name; where it does not, the name must be the
/// literal itself.
pub open spec fn name_accepts(literal: Seq<char>, name: Seq<char>) -> bool {
    if regex_compiles(literal) {
        regex_finds(literal, name)
    } else {
        name == literal
    }
}

/// Settles a name predicate from the outcome of the search: the outcome itself
/// where the literal compiled, else whether the name is the literal.
pub fn name_verdict(found: Option<bool>, literal: &str, name: &str) -> (accepted: bool)
    ensures
        accepted == match found {
            Some(hit) => hit,
            None => name@ == literal@,
        },
{
    match found {
        Some(hit) => hit,
        None => same_text(name, literal),
    }
}

/// A condition on one field of a record.
///
/// `Name` carries a literal that is read as a regular expression where it
/// compiles as one, and as the exact name where it does not. `Extension` and
/// `FileType` ask for the exact value. The others compare the field to a value
/// by a relational operator.
#[derive(Debug, PartialEq, Eq)]
pub enum Predicate {
    Name(String),
    Extension(String),
    Size(u64, Comparison),
    Modified(Timestamp, Comparison),
    Accessed(Timestamp, Comparison),
    Created(Timestamp, Comparison),
    FileType(String),
}

impl Clone for Predicate {
    fn clone(&self) -> (copy: Predicate)
        ensures
            copy == *self,
    {
        match self {
            Predicate::Name(literal) => Predicate::Name(literal.clone()),
            Predicate::Extension(extension) => Predicate::Extension(extension.clone()),
            Predicate::Size(size, comparison) => Predicate::Size(*size, *comparison),
            Predicate::Modified(time, comparison) => Predicate::Modified(*time, *comparison),
            Predicate::Accessed(time, comparison) => Predicate::Accessed(*time, *comparison),
            Predicate::Created(time, comparison) => Predicate::Created(*time, *comparison),
            Predicate::FileType(file_type) => Predicate::FileType(file_type.clone()),
        }
    }
}

/// A predicate with each literal taken as its text.
pub enum PredicateModel {
    Name(Seq<char>),
    Extension(Seq<char>),
    Size(u64, Comparison),
    Modified(Timestamp, Comparison),
    Accessed(Timestamp, Comparison),
    Created(Timestamp, Comparison),
    FileType(Seq<char>),
}

impl View for Predicate {
    type V = PredicateModel;

    open spec fn view(&self) -> PredicateModel {
        match *self {
            Predicate::Name(literal) => PredicateModel::Name(literal@),
            Predicate::Extension(extension) => PredicateModel::Extension(extension@),
            Predicate::Size(size, comparison) => PredicateModel::Size(size, comparison),
            Predicate::Modified(time, comparison) => PredicateModel::Modified(time, comparison),
            Predicate::Accessed(time, comparison) => PredicateModel::Accessed(time, comparison),
            Predicate::Created(time, comparison) => PredicateModel::Created(time, comparison),
            Predicate::FileType(file_type) => PredicateModel::FileType(file_type@),
        }
    }
}

/// The field, the operator and the value that a predicate's text names. The
/// field is absent where its name is not known.
pub type Layout = (Option<Field>, Comparison, Seq<char>);

impl Predicate {
    /// The layout of the predicate text `text`: two or three pieces between
    /// commas, each trimmed and in lower case; with two pieces the operator is
    /// equality.
    pub open spec fn layout(text: Seq<char>) -> Result<Layout, (Cause, Seq<char>)> {
        let pieces = split_limited(text, ',', 3);
        if pieces.len() < 2 {
            Err((Cause::PredicateFormat, text))
        } else if pieces.len() == 2 {
            Ok((Field::named(normal(pieces[0])), Comparison::Eq, normal(pieces[1])))
        } else {
            match Comparison::named(normal(pieces[1])) {
                Some(comparison) => Ok(
                    (Field::named(normal(pieces[0])), comparison, normal(pieces[2])),
                ),
                None => Err((Cause::InvalidOperator, normal(pieces[1]))),
            }
        }
    }

    /// The predicate on a time field that a reading of its literal gives.
    pub open spec fn timed(
        field: Field,
        comparison: Comparison,
        text: Seq<char>,
        reading: TimeReading,
    ) -> Result<PredicateModel, (Cause, Seq<char>)> {
        match reading {
            TimeReading::Instant(time) => Ok(
                match field {
                    Field::Modified => PredicateModel::Modified(time, comparison),
                    Field::Accessed => PredicateModel::Accessed(time, comparison),
                    _ => PredicateModel::Created(time, comparison),
                },
            ),
            TimeReading::Ambiguous => Err((Cause::AmbiguousLocalTime, Seq::empty())),
            TimeReading::Unreadable => Err((Cause::InvalidDateTime, text)),
        }
    }

    /// The predicate that a layout stands for, given what the value came to as
    /// a time literal. Name, extension and file type take equality only; a
    /// size must be an unsigned 64-bit number.
    pub open spec fn built(layout: Layout, text: Seq<char>, reading: TimeReading) -> Result<
        PredicateModel,
        (Cause, Seq<char>),
    > {
        let (field, comparison, value) = layout;
        match field {
            Some(Field::Name) if comparison == Comparison::Eq => Ok(PredicateModel::Name(value)),
            Some(Field::Extension) if comparison == Comparison::Eq => Ok(
                PredicateModel::Extension(value),
            ),
            Some(Field::FileType) if comparison == Comparison::Eq => Ok(
                PredicateModel::FileType(value),
            ),
            Some(Field::Size) => match parsed_u64(value) {
                Some(size) => Ok(PredicateModel::Size(size, comparison)),
                None => Err((Cause::InvalidSize, value)),
            },
            Some(Field::Modified) => Predicate::timed(Field::Modified, comparison, text, reading),
            Some(Field::Accessed) => Predicate::timed(Field::Accessed, comparison, text, reading),
            Some(Field::Created) => Predicate::timed(Field::Created, comparison, text, reading),
            _ => Err((Cause::InvalidPredicate, text)),
        }
    }

    /// What the predicate text `text` comes to, given what its value came to
    /// as a time literal.
    pub open spec fn parse_with(text: Seq<char>, reading: TimeReading) -> Result<
        PredicateModel,
        (Cause, Seq<char>),
    > {
        match Predicate::layout(text) {
            Ok(layout) => Predicate::built(layout, text, reading),
            Err(e) => Err(e),
        }
    }

    /// The time literal of the predicate text `text`, where it has one: the
    /// value of a well-formed text on a time field.
    pub open spec fn time_literal(text: Seq<char>) -> Option<Seq<char>> {
        match Predicate::layout(text) {
            Ok((Some(field), _, value)) if field.is_time() => Some(value),
            _ => None,
        }
    }

    /// Reads the layout of a predicate text.
    fn read_layout(s: &str) -> (r: Result<(Option<Field>, Comparison, String), QueryError>)
        ensures
            match Predicate::layout(s@) {
                Ok(layout) => r matches Ok(found) && found.0 == layout.0 && found.1 == layout.1
                    && found.2@ == layout.2,
                Err(e) => r matches Err(failure) && failure@ == e,
            },
    {
        let chars = chars_of(s);
        let pieces = split(&chars, ',', 3);
        proof {
            let model = texts(pieces@);
            assert(model.len() == pieces.len());
            assert(forall|i: int| 0 <= i < pieces.len() ==> model[i] == (#[trigger] pieces@[i])@);
        }
        if pieces.len() < 2 {
            return Err(QueryError::new(Cause::PredicateFormat, s));
        }
        let field_word = normalise(&pieces[0]);
        let field = Field::of_word(&chars_of(field_word.as_str()));
        if pieces.len() == 2 {
            return Ok((field, Comparison::Eq, normalise(&pieces[1])));
        }
        let operator_word = normalise(&pieces[1]);
        let wide = crate::utilities::Comparison::of_word(&chars_of(operator_word.as_str()));
        let comparison = match wide {
            Some(op) => Comparison::narrow(op),
            None => None,
        };
        match comparison {
            Some(comparison) => Ok((field, comparison, normalise(&pieces[2]))),
            None => Err(QueryError::new(Cause::InvalidOperator, operator_word.as_str())),
        }
    }

    /// The predicate on a time field that a reading of its literal gives.
    fn build_timed(field: Field, comparison: Comparison, s: &str, reading: TimeReading) -> (r:
        Result<Predicate, QueryError>)
        requires
            field.is_time(),
        ensures
            outcome(r) == Predicate::timed(field, comparison, s@, reading),
    {
        match reading {
            TimeReading::Instant(time) => Ok(
                match field {
                    Field::Modified => Predicate::Modified(time, comparison),
                    Field::Accessed => Predicate::Accessed(time, comparison),
                    _ => Predicate::Created(time, comparison),
                },
            ),
            TimeReading::Ambiguous => Err(QueryError::bare(Cause::AmbiguousLocalTime)),
            TimeReading::Unreadable => Err(QueryError::new(Cause::InvalidDateTime, s)),
        }
    }

    /// Builds the predicate on `field` with the operator `comparison` and the
    /// literal `value`, given what the value came to as a time literal. `s` is
    /// the text that an error names where it names the whole request.
    pub fn build(
        field: Option<Field>,
        comparison: Comparison,
        value: String,
        s: &str,
        reading: TimeReading,
    ) -> (r: Result<Predicate, QueryError>)
        ensures
            outcome(r) == Predicate::built((field, comparison, value@), s@, reading),
    {
        let equality = matches!(comparison, Comparison::Eq);
        match field {
            Some(Field::Name) if equality => Ok(Predicate::Name(value)),
            Some(Field::Extension) if equality => Ok(Predicate::Extension(value)),
            Some(Field::FileType) if equality => Ok(Predicate::FileType(value)),
            Some(Field::Size) => match parse_u64(&chars_of(value.as_str())) {
                Some(size) => Ok(Predicate::Size(size, comparison)),
                None => Err(QueryError::new(Cause::InvalidSize, value.as_str())),
            },
            Some(Field::Modified) => Predicate::build_timed(Field::Modified, comparison, s, reading),
            Some(Field::Accessed) => Predicate::build_timed(Field::Accessed, comparison, s, reading),
            Some(Field::Created) => Predicate::build_timed(Field::Created, comparison, s, reading),
            _ => Err(QueryError::new(Cause::InvalidPredicate, s)),
        }
    }

    /// Reads a predicate from text, with what its value came to as a time
    /// literal handed in. The reading is consulted for the three time fields
    /// only.
    pub fn from_reading(s: &str, reading: TimeReading) -> (r: Result<Predicate, QueryError>)
        ensures
            outcome(r) == Predicate::parse_with(s@, reading),
    {
        match Predicate::read_layout(s) {
            Ok((field, comparison, value)) => Predicate::build(field, comparison, value, s, reading),
            Err(e) => Err(e),
        }
    }

    /// Reads a predicate from text of the form `field,operator,value` or
    /// `field,value`.
    ///
    /// For a text without a time literal the result is what `parse_with`
    /// says. For one with a time literal it is what `parse_with` says of some
    /// reading that fits the literal: an unreadable literal is an error, and a
    /// predicate that comes back holds an instant that shows what the literal
    /// writes.
    pub fn from_str(s: &str) -> (r: Result<Predicate, QueryError>)
        ensures
            Predicate::time_literal(s@) is None ==> outcome(r) == Predicate::parse_with(
                s@,
                TimeReading::Unreadable,
            ),
            Predicate::time_literal(s@) matches Some(literal) ==> exists|reading: TimeReading|
                #[trigger] reading_fits(literal, reading) && outcome(r) == Predicate::parse_with(
                    s@,
                    reading,
                ),
    {
        match Predicate::read_layout(s) {
            Ok((field, comparison, value)) => {
                let timed = match field {
                    Some(f) => f.holds_time(),
                    None => false,
                };
                let reading = if timed {
                    read_instant(value.as_str())
                } else {
                    TimeReading::Unreadable
                };
                let r = Predicate::build(field, comparison, value, s, reading);
                proof {
                    if timed {
                        let literal = Predicate::time_literal(s@)->0;
                        assert(reading_fits(literal, reading) && outcome(r)
                            == Predicate::parse_with(s@, reading));
                    }
                }
                r
            },
            Err(e) => Err(e),
        }
    }

    /// Whether the record satisfies the condition.
    pub open spec fn accepts(self, file: File) -> bool {
        match self {
            Predicate::Name(literal) => name_accepts(literal@, file.name@),
            Predicate::Extension(extension) => file.extension@ == extension@,
            Predicate::Size(size, comparison) => comparison.allows(size_order(file.size, size)),
            Predicate::Modified(time, comparison) => comparison.allows(
                file.modified.instant_order(time),
            ),
            Predicate::Accessed(time, comparison) => comparison.allows(
                file.accessed.instant_order(time),
            ),
            Predicate::Created(time, comparison) => comparison.allows(
                file.created.instant_order(time),
            ),
            Predicate::FileType(file_type) => file.file_type@ == file_type@,
        }
    }

    /// The condition as a test on records.
    pub open spec fn selector<'a>(self) -> spec_fn(&'a File) -> bool {
        |file: &'a File| self.accepts(*file)
    }

    /// Whether the record satisfies the condition.
    pub fn matches(&self, file: &File) -> (accepted: bool)
        ensures
            accepted == self.accepts(*file),
    {
        match self {
            Predicate::Name(literal) => {
                let found = regex_search(literal.as_str(), file.name.as_str());
                name_verdict(found, literal.as_str(), file.name.as_str())
            },
            Predicate::Extension(extension) => same_text(
                file.extension.as_str(),
                extension.as_str(),
            ),
            Predicate::Size(size, comparison) => comparison.compare(file.size, *size),
            Predicate::Modified(time, comparison) => comparison.allows_order(
                file.modified.order(time),
            ),
            Predicate::Accessed(time, comparison) => comparison.allows_order(
                file.accessed.order(time),
            ),
            Predicate::Created(time, comparison) => comparison.allows_order(
                file.created.order(time),
            ),
            Predicate::FileType(file_type) => same_text(
                file.file_type.as_str(),
                file_type.as_str(),
            ),
        }
    }
}

impl core::str::FromStr for Predicate {
    type Err = QueryError;

    /// Reads a predicate as `Predicate::from_str` does.
    fn from_str(s: &str) -> (r: Result<Predicate, QueryError>)
        ensures
            Predicate::time_literal(s@) is None ==> outcome(r) == Predicate::parse_with(
                s@,
                TimeReading::Unreadable,
            ),
            Predicate::time_literal(s@) matches Some(literal) ==> exists|reading: TimeReading|
                #[trigger] reading_fits(literal, reading) && outcome(r) == Predicate::parse_with(
                    s@,
                    reading,
                ),
    {
        Predicate::from_str(s)
    }
}

impl core::str::FromStr for Comparison {
    type Err = QueryError;

    /// Reads an operator name as `Comparison::from_str` does.
    fn from_str(s: &str) -> (r: Result<Comparison, QueryError>)
        ensures
            match Comparison::named(lowercase(s@)) {
                Some(op) => r == Ok::<Comparison, QueryError>(op),
                None => r matches Err(e) && e@ == (Cause::InvalidComparison, s@),
            },
    {
        Comparison::from_str(s)
    }
}

/// Keeps the records that satisfy the predicate, in their order.
pub fn filter<'a>(files: &[&'a File], predicate: Predicate) -> (kept: Vec<&'a File>)
    ensures
        kept@ == files@.filter(predicate.selector()),
{
    let mut kept: Vec<&'a File> = Vec::new();
    let mut i: usize = 0;
    proof {
        reveal(Seq::filter);
        assert(files@.take(0).filter(predicate.selector()) == Seq::<&File>::empty());
    }
    while i < files.len()
        invariant
            i <= files.len(),
            kept@ == files@.take(i as int).filter(predicate.selector()),
        decreases files.len() - i,
    {
        let file = files[i];
        proof {
            reveal(Seq::filter);
            assert(files@.take(i + 1).drop_last() == files@.take(i as int));
            assert(files@.take(i + 1).last() == file);
        }
        if predicate.matches(file) {
            kept.push(file);
        }
        i = i + 1;
    }
    assert(files@.take(files.len() as int) == files@);
    kept
}

/// Filtering is idempotent: what has passed a predicate passes it again,
/// whole and in the same order.
pub proof fn lemma_filter_idempotent<'a>(files: Seq<&'a File>, predicate: Predicate)
    ensures
        files.filter(predicate.selector()).filter(predicate.selector()) == files.filter(
            predicate.selector(),
        ),
    decreases files.len(),
{
    reveal(Seq::filter);
    let select = predicate.selector();
    if files.len() > 0 {
        let rest = files.drop_last();
        lemma_filter_idempotent(rest, predicate);
        if select(files.last()) {
            let once = rest.filter(select).push(files.last());
            assert(once.drop_last() == rest.filter(select));
            assert(once.last() == files.last());
        }
    }
}

/// What the filter keeps is drawn from its input: every record kept satisfies
/// the predicate and stands in the input, and no more records are kept than
/// there are.
pub proof fn lemma_filter_keeps<'a>(files: Seq<&'a File>, predicate: Predicate, i: int)
    requires
        0 <= i < files.filter(predicate.selector()).len(),
    ensures
        predicate.accepts(*files.filter(predicate.selector())[i]),
        files.contains(files.filter(predicate.selector())[i]),
        files.filter(predicate.selector()).len() <= files.len(),
{
    let select = predicate.selector();
    files.lemma_filter_pred(select, i);
    files.lemma_filter_len(select);
    assert(files.filter(select).contains(files.filter(select)[i]));
    files.lemma_filter_contains_rev(select, files.filter(select)[i]);
}

} // verus!
