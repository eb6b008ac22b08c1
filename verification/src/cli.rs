//! The command line's view of a query: the raw arguments, and the WHERE
//! condition read from its text.

use crate::calendar::{read_instant, reading_fits, TimeReading};
use crate::error::{outcome, Cause, QueryError};
use crate::query::{Plan, PlanModel};
use crate::text::{chars_of, lowercase, split, split_limited, string_of, texts};
use crate::utilities::aggregate::AggregateFunction;
use crate::utilities::filter::{Predicate, PredicateModel};
use crate::utilities::group::GroupingOperator;
use crate::utilities::{AggrFunc, Comparison, Field};
use vstd::prelude::*;

verus! {

/// The arguments of one run, as the command line gives them.
#[derive(Debug, Clone, PartialEq, Eq)]
pub struct Cli {
    /// The directory to list; the current one where none is given.
    pub path: Option<String>,
    /// The field to group by.
    pub group_by: Option<String>,
    /// The condition, in the form `field,operator,value`.
    pub where_clause: Option<String>,
    /// The aggregate function.
    pub function: Option<AggrFunc>,
    /// The parameters of the aggregate function: for all but the count, the
    /// field that it works on.
    pub params: Vec<String>,
}

/// A condition as it is read from text: a field, an operator, and the value
/// still as text.
#[derive(Debug, Clone, PartialEq, Eq)]
pub struct WhereCondition {
    pub field: Field,
    pub operator: Comparison,
    pub value: String,
}

impl View for WhereCondition {
    type V = (Field, Comparison, Seq<char>);

    open spec fn view(&self) -> (Field, Comparison, Seq<char>) {
        (self.field, self.operator, self.value@)
    }
}

impl WhereCondition {
    /// What the condition text `text` reads as: exactly three pieces between
    /// commas, of which the first names a field and the second an operator, in
    /// any letter case; the third is the value as it stands, commas included.
    pub open spec fn parsed(text: Seq<char>) -> Result<
        (Field, Comparison, Seq<char>),
        (Cause, Seq<char>),
    > {
        let pieces = split_limited(text, ',', 3);
        if pieces.len() != 3 {
            Err((Cause::ConditionFormat, text))
        } else {
            match Field::named(lowercase(pieces[0])) {
                None => Err((Cause::InvalidField, pieces[0])),
                Some(field) => match Comparison::named(lowercase(pieces[1])) {
                    None => Err((Cause::InvalidOperator, pieces[1])),
                    Some(operator) => Ok((field, operator, pieces[2])),
                },
            }
        }
    }

    /// Parse a WHERE condition from string format: field,operator,value
    pub fn parse(condition: &str) -> (r: Result<WhereCondition, QueryError>)
        ensures
            outcome(r) == WhereCondition::parsed(condition@),
    {
        let chars = chars_of(condition);
        let pieces = split(&chars, ',', 3);
        proof {
            assert(texts(pieces@).len() == pieces.len());
            assert(forall|i: int|
                0 <= i < pieces.len() ==> texts(pieces@)[i] == (#[trigger] pieces@[i])@);
        }
        if pieces.len() != 3 {
            return Err(QueryError::new(Cause::ConditionFormat, condition));
        }
        let field_text = string_of(&pieces[0]);
        let field = match Field::from_str(field_text.as_str()) {
            Ok(field) => field,
            Err(e) => {
                return Err(e);
            },
        };
        let operator_text = string_of(&pieces[1]);
        let operator = match Comparison::from_str(operator_text.as_str()) {
            Ok(operator) => operator,
            Err(_) => {
                return Err(QueryError::new(Cause::InvalidOperator, operator_text.as_str()));
            },
        };
        Ok(WhereCondition { field, operator, value: string_of(&pieces[2]) })
    }

    /// The time literal of the condition, where it has one: the value of a
    /// condition on a time field with a relational operator.
    pub open spec fn time_literal(condition: (Field, Comparison, Seq<char>)) -> Option<Seq<char>> {
        if condition.0.is_time() && condition.1.is_relational() {
            Some(condition.2)
        } else {
            None
        }
    }

    /// The predicate that the condition stands for, given what its value came
    /// to as a time literal. An operator for text only is refused; otherwise
    /// the predicate is built as from a predicate text.
    pub open spec fn predicate_with(
        condition: (Field, Comparison, Seq<char>),
        reading: TimeReading,
    ) -> Result<PredicateModel, (Cause, Seq<char>)> {
        match crate::utilities::filter::Comparison::narrowed(condition.1) {
            None => Err((Cause::InvalidPredicate, condition.2)),
            Some(comparison) => Predicate::built(
                (Some(condition.0), comparison, condition.2),
                condition.2,
                reading,
            ),
        }
    }

    /// Turns the condition into a predicate, with what its value came to as a
    /// time literal handed in.
    pub fn predicate_from(&self, reading: TimeReading) -> (r: Result<Predicate, QueryError>)
        ensures
            outcome(r) == WhereCondition::predicate_with(self@, reading),
    {
        match crate::utilities::filter::Comparison::narrow(self.operator) {
            None => Err(QueryError::new(Cause::InvalidPredicate, self.value.as_str())),
            Some(comparison) => Predicate::build(
                Some(self.field),
                comparison,
                self.value.clone(),
                self.value.as_str(),
                reading,
            ),
        }
    }

    /// Turns the condition into a predicate.
    ///
    /// For a condition without a time literal the result is what
    /// `predicate_with` says. For one with a time literal it is what
    /// `predicate_with` says of some reading that fits the literal.
    pub fn to_predicate(&self) -> (r: Result<Predicate, QueryError>)
        ensures
            WhereCondition::time_literal(self@) is None ==> outcome(r)
                == WhereCondition::predicate_with(self@, TimeReading::Unreadable),
            WhereCondition::time_literal(self@) matches Some(literal) ==> exists|
                reading: TimeReading,
            |
                #[trigger] reading_fits(literal, reading) && outcome(r)
                    == WhereCondition::predicate_with(self@, reading),
    {
        let relational = crate::utilities::filter::Comparison::narrow(self.operator).is_some();
        let reading = if self.field.holds_time() && relational {
            read_instant(self.value.as_str())
        } else {
            TimeReading::Unreadable
        };
        let r = self.predicate_from(reading);
        proof {
            if self.field.is_time() && relational {
                let found = WhereCondition::time_literal(self@)->0;
                assert(reading_fits(found, reading) && outcome(r) == WhereCondition::predicate_with(
                    self@,
                    reading,
                ));
            }
        }
        r
    }
}

/// A stage of a plan as text gives it: absent, present, or in error.
pub type Stage<T> = Result<Option<T>, (Cause, Seq<char>)>;

impl Cli {
    /// The grouping that the arguments ask for.
    pub open spec fn grouping_asked(self) -> Stage<GroupingOperator> {
        match self.group_by {
            None => Ok(None),
            Some(field) => match GroupingOperator::plain(lowercase(field@)) {
                Some(operator) => Ok(Some(operator)),
                None => Err(GroupingOperator::refusal(field@)),
            },
        }
    }

    /// The condition that the arguments give.
    pub open spec fn condition_asked(self) -> Stage<(Field, Comparison, Seq<char>)> {
        match self.where_clause {
            None => Ok(None),
            Some(text) => match WhereCondition::parsed(text@) {
                Ok(condition) => Ok(Some(condition)),
                Err(e) => Err(e),
            },
        }
    }

    /// The predicate that the arguments ask for, given what the condition's
    /// value came to as a time literal.
    pub open spec fn predicate_asked(self, reading: TimeReading) -> Stage<PredicateModel> {
        match self.condition_asked() {
            Ok(None) => Ok(None),
            Ok(Some(condition)) => match WhereCondition::predicate_with(condition, reading) {
                Ok(predicate) => Ok(Some(predicate)),
                Err(e) => Err(e),
            },
            Err(e) => Err(e),
        }
    }

    /// The aggregate function that the arguments ask for.
    pub open spec fn function_asked(self) -> Stage<AggregateFunction> {
        match self.function {
            None => Ok(None),
            Some(function) => match AggregateFunction::resolved(
                function,
                self.params@.map_values(|param: String| param@),
            ) {
                Ok(found) => Ok(Some(found)),
                Err(e) => Err(e),
            },
        }
    }

    /// The plan that the arguments ask for, given what the condition's value
    /// came to as a time literal. The grouping is settled first, then the
    /// condition, then the function; the first failure is the plan's.
    pub open spec fn planned(self, reading: TimeReading) -> Result<PlanModel, (Cause, Seq<char>)> {
        match self.grouping_asked() {
            Err(e) => Err(e),
            Ok(grouping) => match self.predicate_asked(reading) {
                Err(e) => Err(e),
                Ok(predicate) => match self.function_asked() {
                    Err(e) => Err(e),
                    Ok(function) => Ok(PlanModel { predicate, grouping, function }),
                },
            },
        }
    }

    /// The time literal of the arguments, where they have one: that of the
    /// condition, where the grouping is in order and the condition reads.
    pub open spec fn time_literal(self) -> Option<Seq<char>> {
        match (self.grouping_asked(), self.condition_asked()) {
            (Ok(_), Ok(Some(condition))) => WhereCondition::time_literal(condition),
            _ => None,
        }
    }

    /// Settles the grouping and reads the condition.
    fn read_stages(&self) -> (r: Result<(Option<GroupingOperator>, Option<WhereCondition>), QueryError>)
        ensures
            match (self.grouping_asked(), self.condition_asked()) {
                (Err(e), _) => r matches Err(failure) && failure@ == e,
                (Ok(_), Err(e)) => r matches Err(failure) && failure@ == e,
                (Ok(grouping), Ok(condition)) => r matches Ok(found) && found.0 == grouping && (
                match condition {
                    Some(c) => found.1 matches Some(read) && read@ == c,
                    None => found.1 is None,
                }),
            },
    {
        let grouping = match &self.group_by {
            None => None,
            Some(field) => match GroupingOperator::default_for(field.as_str()) {
                Ok(operator) => Some(operator),
                Err(e) => {
                    return Err(e);
                },
            },
        };
        let condition = match &self.where_clause {
            None => None,
            Some(text) => match WhereCondition::parse(text.as_str()) {
                Ok(condition) => Some(condition),
                Err(e) => {
                    return Err(e);
                },
            },
        };
        Ok((grouping, condition))
    }

    /// Builds the plan from its settled grouping and its condition.
    fn finish(
        &self,
        grouping: Option<GroupingOperator>,
        condition: Option<WhereCondition>,
        reading: TimeReading,
    ) -> (r: Result<Plan, QueryError>)
        requires
            self.grouping_asked() == Ok::<Option<GroupingOperator>, (Cause, Seq<char>)>(grouping),
            match condition {
                Some(c) => self.condition_asked() == Ok::<
                    Option<(Field, Comparison, Seq<char>)>,
                    (Cause, Seq<char>),
                >(Some(c@)),
                None => self.condition_asked() == Ok::<
                    Option<(Field, Comparison, Seq<char>)>,
                    (Cause, Seq<char>),
                >(None),
            },
        ensures
            outcome(r) == self.planned(reading),
    {
        let predicate = match condition {
            None => None,
            Some(condition) => match condition.predicate_from(reading) {
                Ok(predicate) => Some(predicate),
                Err(e) => {
                    return Err(e);
                },
            },
        };
        let function = match self.function {
            None => None,
            Some(function) => match AggregateFunction::resolve(function, &self.params) {
                Ok(found) => Some(found),
                Err(e) => {
                    return Err(e);
                },
            },
        };
        Ok(Plan { predicate, grouping, function })
    }

    /// Turns the arguments into a plan, with what the condition's value came
    /// to as a time literal handed in.
    pub fn plan_with(&self, reading: TimeReading) -> (r: Result<Plan, QueryError>)
        ensures
            outcome(r) == self.planned(reading),
    {
        match self.read_stages() {
            Ok((grouping, condition)) => self.finish(grouping, condition, reading),
            Err(e) => Err(e),
        }
    }

    /// Turns the arguments into a plan.
    ///
    /// Where the arguments hold no time literal the result is what `planned`
    /// says. Where they hold one it is what `planned` says of some reading
    /// that fits the literal.
    pub fn plan(&self) -> (r: Result<Plan, QueryError>)
        ensures
            self.time_literal() is None ==> outcome(r) == self.planned(TimeReading::Unreadable),
            self.time_literal() matches Some(literal) ==> exists|reading: TimeReading|
                #[trigger] reading_fits(literal, reading) && outcome(r) == self.planned(reading),
    {
        match self.read_stages() {
            Ok((grouping, condition)) => {
                let timed = match &condition {
                    Some(c) => c.field.holds_time()
                        && crate::utilities::filter::Comparison::narrow(c.operator).is_some(),
                    None => false,
                };
                let reading = match &condition {
                    Some(c) if timed => read_instant(c.value.as_str()),
                    _ => TimeReading::Unreadable,
                };
                let r = self.finish(grouping, condition, reading);
                proof {
                    if timed {
                        let found = self.time_literal()->0;
                        assert(reading_fits(found, reading) && outcome(r) == self.planned(reading));
                    }
                }
                r
            },
            Err(e) => Err(e),
        }
    }
}

} // verus!
