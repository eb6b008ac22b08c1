//! A whole query: the stages that it asks for, and what running them over a
//! list of records gives.

use crate::file::File;
use crate::table::Table;
use crate::utilities::aggregate::{aggregate, AggregateFunction, AggregateValue};
use crate::utilities::filter::{filter, Predicate, PredicateModel};
use crate::utilities::group::{first_occurrences, group, is_grouping, keys_of, GroupingOperator};
use vstd::prelude::*;

verus! {

/// The stages of a query. Each is optional; a stage that is absent hands its
/// input on unchanged.
#[derive(Debug, Clone, PartialEq, Eq)]
pub struct Plan {
    pub predicate: Option<Predicate>,
    pub grouping: Option<GroupingOperator>,
    pub function: Option<AggregateFunction>,
}

/// A plan with its predicate's literals taken as their text.
pub struct PlanModel {
    pub predicate: Option<PredicateModel>,
    pub grouping: Option<GroupingOperator>,
    pub function: Option<AggregateFunction>,
}

impl View for Plan {
    type V = PlanModel;

    open spec fn view(&self) -> PlanModel {
        PlanModel {
            predicate: match self.predicate {
                Some(predicate) => Some(predicate@),
                None => None,
            },
            grouping: self.grouping,
            function: self.function,
        }
    }
}

/// What a query gives.
#[derive(Debug, Clone, PartialEq, Eq)]
pub enum Output<'a> {
    /// The records that passed the filter, for a query that neither groups
    /// nor aggregates.
    Files(Vec<&'a File>),
    /// The groups, for a query that groups without aggregating.
    Groups(Table<Vec<&'a File>>),
    /// One value for each group, for a query that groups and aggregates.
    GroupValues(Table<AggregateValue<'a>>),
    /// One value for all records that passed the filter, for a query that
    /// aggregates without grouping.
    Value(AggregateValue<'a>),
}

impl Plan {
    /// The records that pass the plan's filter, in their order.
    pub open spec fn kept<'a>(self, files: Seq<&'a File>) -> Seq<&'a File> {
        match self.predicate {
            Some(predicate) => files.filter(predicate.selector()),
            None => files,
        }
    }

    /// Whether `output` is what the plan gives on the records: the records
    /// are filtered, what is kept is grouped, and the function is evaluated
    /// on each group, or on all that is kept where there is no grouping.
    pub open spec fn yields<'a>(self, files: Seq<&'a File>, output: Output<'a>) -> bool {
        let kept = self.kept(files);
        match (self.grouping, self.function) {
            (None, None) => output matches Output::Files(list) && list@ == kept,
            (Some(operator), None) => output matches Output::Groups(groups) && is_grouping(
                groups,
                kept,
                operator,
            ),
            (None, Some(function)) => output matches Output::Value(value) && function.fits(
                kept,
                value,
            ),
            (Some(operator), Some(function)) => {
                &&& output matches Output::GroupValues(values)
                &&& values.wf()
                &&& values.keys() == first_occurrences(keys_of(kept, operator))
                &&& forall|g: int|
                    0 <= g < values.keys().len() ==> function.fits(
                        kept.filter(operator.member_of(values.keys()[g])),
                        #[trigger] values.values()[g],
                    )
            },
        }
    }

    /// Runs the plan over the records.
    pub fn execute<'a>(&self, files: &[&'a File]) -> (output: Output<'a>)
        ensures
            self.yields(files@, output),
    {
        let kept: Vec<&'a File> = match &self.predicate {
            Some(predicate) => filter(files, predicate.clone()),
            None => {
                let mut all: Vec<&'a File> = Vec::new();
                let mut i: usize = 0;
                while i < files.len()
                    invariant
                        i <= files.len(),
                        all@ == files@.take(i as int),
                    decreases files.len() - i,
                {
                    all.push(files[i]);
                    i = i + 1;
                }
                assert(files@.take(files.len() as int) == files@);
                all
            },
        };
        match (self.grouping, self.function) {
            (None, None) => Output::Files(kept),
            (Some(operator), None) => Output::Groups(group(kept.as_slice(), operator)),
            (None, Some(function)) => Output::Value(function.evaluate(kept.as_slice())),
            (Some(operator), Some(function)) => {
                let groups = group(kept.as_slice(), operator);
                let values = aggregate(&groups, function);
                Output::GroupValues(values)
            },
        }
    }
}

} // verus!
