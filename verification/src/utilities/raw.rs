//! The filter over raw records, whose times are system times.

use crate::file_type::{FileType, UnixTime};
use crate::text::same_text;
use crate::utilities::filter::{name_accepts, name_verdict, regex_search, size_order};
use core::cmp::Ordering;
use vstd::prelude::*;

verus! {

/// A relational operator of the raw filter.
#[derive(Debug, Clone, Copy, PartialEq, Eq, Structural)]
pub enum ComparisonOperator {
    EqualTo,
    GreaterThan,
    GreaterThanOrEqualTo,
    LessThan,
    LessThanOrEqualTo,
}

impl ComparisonOperator {
    /// Whether the operator holds of two values that stand to each other as
    /// `order` says.
    pub open spec fn allows(self, order: Ordering) -> bool {
        match self {
            ComparisonOperator::EqualTo => order == Ordering::Equal,
            ComparisonOperator::GreaterThan => order == Ordering::Greater,
            ComparisonOperator::GreaterThanOrEqualTo => order != Ordering::Less,
            ComparisonOperator::LessThan => order == Ordering::Less,
            ComparisonOperator::LessThanOrEqualTo => order != Ordering::Greater,
        }
    }

    /// Whether the operator holds of two values that stand to each other as
    /// `order` says.
    pub fn allows_order(&self, order: Ordering) -> (r: bool)
        ensures
            r == self.allows(order),
    {
        match self {
            ComparisonOperator::EqualTo => matches!(order, Ordering::Equal),
            ComparisonOperator::GreaterThan => matches!(order, Ordering::Greater),
            ComparisonOperator::GreaterThanOrEqualTo => !matches!(order, Ordering::Less),
            ComparisonOperator::LessThan => matches!(order, Ordering::Less),
            ComparisonOperator::LessThanOrEqualTo => !matches!(order, Ordering::Greater),
        }
    }
}

/// A condition on one field of a raw record.
#[derive(Debug, PartialEq, Eq)]
pub enum Predicate {
    Name(String),
    Extension(String),
    Size(u64, ComparisonOperator),
    Modified(UnixTime, ComparisonOperator),
    Accessed(UnixTime, ComparisonOperator),
    Created(UnixTime, ComparisonOperator),
    FileType(String),
}

impl Clone for Predicate {
    fn clone(&self) -> (copy: Predicate)
        ensures
            copy == *self,
    {
        match self {
            Predicate::Name(literal) => Predicate::Name(literal.clone()),
            Predicate::Extension(extension) => Predicate::Extension(extension.clone()),
            Predicate::Size(size, operator) => Predicate::Size(*size, *operator),
            Predicate::Modified(time, operator) => Predicate::Modified(*time, *operator),
            Predicate::Accessed(time, operator) => Predicate::Accessed(*time, *operator),
            Predicate::Created(time, operator) => Predicate::Created(*time, *operator),
            Predicate::FileType(file_type) => Predicate::FileType(file_type.clone()),
        }
    }
}

/// How the size `a` stands to the size `b`.
fn order_of_sizes(a: u64, b: u64) -> (o: Ordering)
    ensures
        o == size_order(a, b),
{
    if a < b {
        Ordering::Less
    } else if a > b {
        Ordering::Greater
    } else {
        Ordering::Equal
    }
}

impl Predicate {
    /// Whether the raw record satisfies the condition. A name is matched as
    /// by the filter over records: as a regular expression where the literal
    /// compiles as one, else as the exact name.
    pub open spec fn accepts(self, entry: FileType) -> bool {
        match self {
            Predicate::Name(literal) => name_accepts(literal@, entry.name@),
            Predicate::Extension(extension) => entry.extension@ == extension@,
            Predicate::Size(size, operator) => operator.allows(size_order(entry.size, size)),
            Predicate::Modified(time, operator) => operator.allows(entry.modified.time_order(time)),
            Predicate::Accessed(time, operator) => operator.allows(entry.accessed.time_order(time)),
            Predicate::Created(time, operator) => operator.allows(entry.created.time_order(time)),
            Predicate::FileType(file_type) => entry.file_type@ == file_type@,
        }
    }

    /// The condition as a test on raw records.
    pub open spec fn selector<'a>(self) -> spec_fn(&'a FileType) -> bool {
        |entry: &'a FileType| self.accepts(*entry)
    }

    /// Whether the raw record satisfies the condition.
    pub fn matches(&self, entry: &FileType) -> (accepted: bool)
        ensures
            accepted == self.accepts(*entry),
    {
        match self {
            Predicate::Name(literal) => {
                let found = regex_search(literal.as_str(), entry.name.as_str());
                name_verdict(found, literal.as_str(), entry.name.as_str())
            },
            Predicate::Extension(extension) => same_text(
                entry.extension.as_str(),
                extension.as_str(),
            ),
            Predicate::Size(size, operator) => operator.allows_order(
                order_of_sizes(entry.size, *size),
            ),
            Predicate::Modified(time, operator) => operator.allows_order(
                entry.modified.order(time),
            ),
            Predicate::Accessed(time, operator) => operator.allows_order(
                entry.accessed.order(time),
            ),
            Predicate::Created(time, operator) => operator.allows_order(entry.created.order(time)),
            Predicate::FileType(file_type) => same_text(
                entry.file_type.as_str(),
                file_type.as_str(),
            ),
        }
    }
}

/// Keeps the raw records that satisfy the predicate, in their order.
pub fn filter<'a>(paths: &[&'a FileType], predicate: Predicate) -> (kept: Vec<&'a FileType>)
    ensures
        kept@ == paths@.filter(predicate.selector()),
{
    let mut kept: Vec<&'a FileType> = Vec::new();
    let mut i: usize = 0;
    proof {
        reveal(Seq::filter);
        assert(paths@.take(0).filter(predicate.selector()) == Seq::<&FileType>::empty());
    }
    while i < paths.len()
        invariant
            i <= paths.len(),
            kept@ == paths@.take(i as int).filter(predicate.selector()),
        decreases paths.len() - i,
    {
        let entry = paths[i];
        proof {
            reveal(Seq::filter);
            assert(paths@.take(i + 1).drop_last() == paths@.take(i as int));
            assert(paths@.take(i + 1).last() == entry);
        }
        if predicate.matches(entry) {
            kept.push(entry);
        }
        i = i + 1;
    }
    assert(paths@.take(paths.len() as int) == paths@);
    kept
}

/// Filtering raw records is idempotent: what has passed a predicate passes
/// it again, whole and in the same order.
pub proof fn lemma_filter_idempotent<'a>(paths: Seq<&'a FileType>, predicate: Predicate)
    ensures
        paths.filter(predicate.selector()).filter(predicate.selector()) == paths.filter(
            predicate.selector(),
        ),
    decreases paths.len(),
{
    reveal(Seq::filter);
    let select = predicate.selector();
    if paths.len() > 0 {
        let rest = paths.drop_last();
        lemma_filter_idempotent(rest, predicate);
        if select(paths.last()) {
            let once = rest.filter(select).push(paths.last());
            assert(once.drop_last() == rest.filter(select));
            assert(once.last() == paths.last());
        }
    }
}

} // verus!
