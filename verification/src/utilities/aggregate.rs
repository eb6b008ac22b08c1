//! The aggregator: count, sum, average, greatest and least, of one group of
//! records or of each group of a table.

use crate::error::{Cause, QueryError};
use crate::file::File;
use crate::table::Table;
use crate::text::{chars_of, lowercase, same_text, split, split_limited, string_of, texts};
use crate::utilities::group::{
    all_members, first_occurrences, is_grouping, keys_of, lemma_groups_partition, GroupingOperator,
};
use crate::utilities::{is_word, AggrFunc};
use core::cmp::Ordering;
use vstd::prelude::*;

verus! {

/// The field that records are compared by when the greatest or the least of
/// them is sought.
#[derive(Debug, Clone, Copy, PartialEq, Eq, Structural)]
pub enum ComparingAggregator {
    Size,
    Modified,
    Accessed,
    Created,
}

impl ComparingAggregator {
    /// The value that a record is compared by, as a pair that is ordered
    /// first by its first part and then by its second: the size and nothing,
    /// or the seconds and the nanoseconds of the timestamp's instant.
    pub open spec fn rank(self, file: File) -> (int, int) {
        match self {
            ComparingAggregator::Size => (file.size as int, 0),
            ComparingAggregator::Modified => (file.modified.secs as int, file.modified.nanos as int),
            ComparingAggregator::Accessed => (file.accessed.secs as int, file.accessed.nanos as int),
            ComparingAggregator::Created => (file.created.secs as int, file.created.nanos as int),
        }
    }

    /// Whether `a` comes strictly before `b` by the field.
    pub open spec fn before(self, a: File, b: File) -> bool {
        let x = self.rank(a);
        let y = self.rank(b);
        x.0 < y.0 || (x.0 == y.0 && x.1 < y.1)
    }

    /// How `a` stands to `b` by the field.
    pub open spec fn ordering(self, a: File, b: File) -> Ordering {
        if self.before(a, b) {
            Ordering::Less
        } else if self.before(b, a) {
            Ordering::Greater
        } else {
            Ordering::Equal
        }
    }

    /// Compares two records by the field.
    pub fn compare(&self, a: &File, b: &File) -> (o: Ordering)
        ensures
            o == self.ordering(*a, *b),
    {
        match self {
            ComparingAggregator::Size => if a.size < b.size {
                Ordering::Less
            } else if a.size > b.size {
                Ordering::Greater
            } else {
                Ordering::Equal
            },
            ComparingAggregator::Modified => a.modified.order(&b.modified),
            ComparingAggregator::Accessed => a.accessed.order(&b.accessed),
            ComparingAggregator::Created => a.created.order(&b.created),
        }
    }

    /// Whether `a` comes strictly before `b` by the field.
    pub fn precedes(&self, a: &File, b: &File) -> (earlier: bool)
        ensures
            earlier == self.before(*a, *b),
    {
        matches!(self.compare(a, b), Ordering::Less)
    }

    /// The field that the lower-case word `word` names.
    pub open spec fn named(word: Seq<char>) -> Option<ComparingAggregator> {
        if word == "size"@ || word == "s"@ {
            Some(ComparingAggregator::Size)
        } else if word == "modified"@ || word == "mod"@ || word == "m"@ {
            Some(ComparingAggregator::Modified)
        } else if word == "accessed"@ || word == "acc"@ || word == "a"@ {
            Some(ComparingAggregator::Accessed)
        } else if word == "created"@ || word == "cre"@ || word == "c"@ {
            Some(ComparingAggregator::Created)
        } else {
            None
        }
    }

    /// Reads the name of a field to compare by, in any letter case. A name
    /// that is not known is handed back in the error.
    pub fn from_str(s: &str) -> (r: Result<ComparingAggregator, QueryError>)
        ensures
            match ComparingAggregator::named(lowercase(s@)) {
                Some(field) => r == Ok::<ComparingAggregator, QueryError>(field),
                None => r matches Err(e) && e@ == (Cause::UnknownAggregator, s@),
            },
    {
        let lowered = s.to_lowercase();
        let word = chars_of(lowered.as_str());
        if is_word(&word, "size") || is_word(&word, "s") {
            Ok(ComparingAggregator::Size)
        } else if is_word(&word, "modified") || is_word(&word, "mod") || is_word(&word, "m") {
            Ok(ComparingAggregator::Modified)
        } else if is_word(&word, "accessed") || is_word(&word, "acc") || is_word(&word, "a") {
            Ok(ComparingAggregator::Accessed)
        } else if is_word(&word, "created") || is_word(&word, "cre") || is_word(&word, "c") {
            Ok(ComparingAggregator::Created)
        } else {
            Err(QueryError::new(Cause::UnknownAggregator, s))
        }
    }

    /// The field's name as it is shown.
    pub open spec fn title(self) -> Seq<char> {
        match self {
            ComparingAggregator::Size => "Size"@,
            ComparingAggregator::Modified => "Modified"@,
            ComparingAggregator::Accessed => "Accessed"@,
            ComparingAggregator::Created => "Created"@,
        }
    }

    /// The field's name as it is shown.
    pub fn name(&self) -> (shown: String)
        ensures
            shown@ == self.title(),
    {
        match self {
            ComparingAggregator::Size => "Size".to_owned(),
            ComparingAggregator::Modified => "Modified".to_owned(),
            ComparingAggregator::Accessed => "Accessed".to_owned(),
            ComparingAggregator::Created => "Created".to_owned(),
        }
    }
}

impl core::str::FromStr for ComparingAggregator {
    type Err = QueryError;

    /// Reads the name of a field to compare by as `ComparingAggregator::from_str` does.
    fn from_str(s: &str) -> (r: Result<ComparingAggregator, QueryError>)
        ensures
            match ComparingAggregator::named(lowercase(s@)) {
                Some(field) => r == Ok::<ComparingAggregator, QueryError>(field),
                None => r matches Err(e) && e@ == (Cause::UnknownAggregator, s@),
            },
    {
        ComparingAggregator::from_str(s)
    }
}

/// The field whose values are summed or averaged.
#[derive(Debug, Clone, Copy, PartialEq, Eq, Structural)]
pub enum ArithmeticAggregator {
    Size,
}

impl ArithmeticAggregator {
    /// The number that a record adds to a sum.
    pub open spec fn value(self, file: File) -> nat {
        match self {
            ArithmeticAggregator::Size => file.size as nat,
        }
    }

    /// The number that a record adds to a sum.
    pub fn value_of(&self, file: &File) -> (value: u64)
        ensures
            value == self.value(*file),
    {
        match self {
            ArithmeticAggregator::Size => file.size,
        }
    }

    /// The field's name as it is shown.
    pub open spec fn title(self) -> Seq<char> {
        match self {
            ArithmeticAggregator::Size => "Size"@,
        }
    }

    /// The field's name as it is shown.
    pub fn name(&self) -> (shown: String)
        ensures
            shown@ == self.title(),
    {
        match self {
            ArithmeticAggregator::Size => "Size".to_owned(),
        }
    }
}

/// The sum of the field over the records; zero for none.
pub open spec fn total<'a>(files: Seq<&'a File>, aggregator: ArithmeticAggregator) -> nat
    decreases files.len(),
{
    if files.len() == 0 {
        0
    } else {
        total(files.drop_last(), aggregator) + aggregator.value(*files.last())
    }
}

/// The greatest record by the field, the last of them where several are
/// equally great; none for no records.
pub open spec fn latest_greatest<'a>(
    files: Seq<&'a File>,
    aggregator: ComparingAggregator,
) -> Option<&'a File>
    decreases files.len(),
{
    if files.len() == 0 {
        None
    } else {
        match latest_greatest(files.drop_last(), aggregator) {
            Some(best) if aggregator.before(*files.last(), *best) => Some(best),
            _ => Some(files.last()),
        }
    }
}

/// The least record by the field, the first of them where several are
/// equally small; none for no records.
pub open spec fn earliest_least<'a>(
    files: Seq<&'a File>,
    aggregator: ComparingAggregator,
) -> Option<&'a File>
    decreases files.len(),
{
    if files.len() == 0 {
        None
    } else {
        match earliest_least(files.drop_last(), aggregator) {
            Some(best) if !aggregator.before(*files.last(), *best) => Some(best),
            _ => Some(files.last()),
        }
    }
}

/// The number of records.
pub fn count_of(files: &[&File]) -> (n: u64)
    ensures
        n == files@.len(),
{
    files.len() as u64
}

/// The sum of the field over the records.
pub fn sum_of(files: &[&File], aggregator: ArithmeticAggregator) -> (sum: u128)
    ensures
        sum == total(files@, aggregator),
{
    let mut sum: u128 = 0;
    let mut i: usize = 0;
    assert(files@.take(0) == Seq::<&File>::empty());
    while i < files.len()
        invariant
            i <= files.len(),
            sum == total(files@.take(i as int), aggregator),
            sum <= i * u64::MAX,
        decreases files.len() - i,
    {
        let value = aggregator.value_of(files[i]);
        proof {
            assert(files@.take(i + 1).drop_last() == files@.take(i as int));
            assert(files@.take(i + 1).last() == files@[i as int]);
            assert((i + 1) * u64::MAX <= u128::MAX) by (nonlinear_arith)
                requires
                    i < 0x1_0000_0000_0000_0000,
            ;
            assert(i * u64::MAX + u64::MAX == (i + 1) * u64::MAX) by (nonlinear_arith);
        }
        sum = sum + value as u128;
        i = i + 1;
    }
    assert(files@.take(files.len() as int) == files@);
    sum
}

/// The mean of a field over one or more records, as the exact ratio of the
/// sum to the number of records.
#[derive(Debug, Clone, Copy, PartialEq, Eq)]
pub struct Average {
    total: u128,
    count: u64,
}

impl Average {
    #[verifier::type_invariant]
    closed spec fn counted(self) -> bool {
        self.count > 0
    }

    /// The sum that the mean is of.
    pub closed spec fn sum(self) -> nat {
        self.total as nat
    }

    /// The number of records that the mean is over.
    pub closed spec fn len(self) -> nat {
        self.count as nat
    }

    /// A mean is over at least one record.
    pub open spec fn wf(self) -> bool {
        self.len() > 0
    }

    /// The mean of `count` values whose sum is `total`; none for no values.
    pub fn new(total: u128, count: u64) -> (mean: Option<Average>)
        ensures
            count == 0 ==> mean is None,
            count > 0 ==> (mean matches Some(a) && a.wf() && a.sum() == total && a.len() == count),
    {
        if count == 0 {
            None
        } else {
            Some(Average { total, count })
        }
    }

    /// The sum that the mean is of.
    pub fn total(&self) -> (total: u128)
        ensures
            self.wf(),
            total == self.sum(),
    {
        proof {
            use_type_invariant(self);
        }
        self.total
    }

    /// The number of records that the mean is over.
    pub fn count(&self) -> (count: u64)
        ensures
            self.wf(),
            count == self.len(),
    {
        proof {
            use_type_invariant(self);
        }
        self.count
    }

    /// The whole part of the mean.
    pub fn quotient(&self) -> (q: u128)
        ensures
            self.wf(),
            q == self.sum() / self.len(),
    {
        proof {
            use_type_invariant(self);
        }
        self.total / (self.count as u128)
    }

    /// What the sum leaves over the whole part of the mean times the number
    /// of records.
    pub fn remainder(&self) -> (r: u128)
        ensures
            self.wf(),
            r == self.sum() % self.len(),
    {
        proof {
            use_type_invariant(self);
        }
        self.total % (self.count as u128)
    }
}

/// The mean that the records have in the field: none for no records, else the
/// ratio of their sum to their number.
pub open spec fn mean_fits<'a>(
    files: Seq<&'a File>,
    aggregator: ArithmeticAggregator,
    mean: Option<Average>,
) -> bool {
    if files.len() == 0 {
        mean is None
    } else {
        mean matches Some(a) && a.wf() && a.sum() == total(files, aggregator) && a.len()
            == files.len()
    }
}

/// The mean of the field over the records; none for no records.
pub fn average_of(files: &[&File], aggregator: ArithmeticAggregator) -> (mean: Option<Average>)
    ensures
        mean_fits(files@, aggregator, mean),
{
    Average::new(sum_of(files, aggregator), count_of(files))
}

/// The greatest record by the field; none for no records. Where several
/// records are equally great, it is the last of them.
pub fn max_of<'a>(files: &[&'a File], aggregator: ComparingAggregator) -> (best: Option<&'a File>)
    ensures
        best == latest_greatest(files@, aggregator),
{
    if files.len() == 0 {
        return None;
    }
    let mut best: &'a File = files[0];
    let mut i: usize = 1;
    proof {
        assert(files@.take(1).drop_last() == Seq::<&File>::empty());
        assert(latest_greatest(files@.take(1).drop_last(), aggregator) is None);
    }
    while i < files.len()
        invariant
            1 <= i <= files.len(),
            Some(best) == latest_greatest(files@.take(i as int), aggregator),
        decreases files.len() - i,
    {
        proof {
            assert(files@.take(i + 1).drop_last() == files@.take(i as int));
            assert(files@.take(i + 1).last() == files@[i as int]);
        }
        if !aggregator.precedes(files[i], best) {
            best = files[i];
        }
        i = i + 1;
    }
    assert(files@.take(files.len() as int) == files@);
    Some(best)
}

/// The least record by the field; none for no records. Where several records
/// are equally small, it is the first of them.
pub fn min_of<'a>(files: &[&'a File], aggregator: ComparingAggregator) -> (best: Option<&'a File>)
    ensures
        best == earliest_least(files@, aggregator),
{
    if files.len() == 0 {
        return None;
    }
    let mut best: &'a File = files[0];
    let mut i: usize = 1;
    proof {
        assert(files@.take(1).drop_last() == Seq::<&File>::empty());
        assert(earliest_least(files@.take(1).drop_last(), aggregator) is None);
    }
    while i < files.len()
        invariant
            1 <= i <= files.len(),
            Some(best) == earliest_least(files@.take(i as int), aggregator),
        decreases files.len() - i,
    {
        proof {
            assert(files@.take(i + 1).drop_last() == files@.take(i as int));
            assert(files@.take(i + 1).last() == files@[i as int]);
        }
        if aggregator.precedes(files[i], best) {
            best = files[i];
        }
        i = i + 1;
    }
    assert(files@.take(files.len() as int) == files@);
    Some(best)
}

/// The mean times the number of records is the sum: the whole part of the
/// mean, times the number of records, and what is left over make up the sum
/// exactly, and what is left over is less than the number of records.
pub proof fn lemma_average_identity<'a>(
    files: Seq<&'a File>,
    aggregator: ArithmeticAggregator,
    mean: Average,
)
    requires
        files.len() > 0,
        mean_fits(files, aggregator, Some(mean)),
    ensures
        (mean.sum() / mean.len()) * files.len() + mean.sum() % mean.len() == total(
            files,
            aggregator,
        ),
        mean.sum() % mean.len() < files.len(),
{
    let sum = mean.sum() as int;
    let n = mean.len() as int;
    assert((sum / n) * n + sum % n == sum && 0 <= sum % n < n) by (nonlinear_arith)
        requires
            n > 0,
            sum >= 0,
    ;
}

/// Sum, average, greatest and least are defined on no records: the sum is
/// zero, and the other three have no value. On one record or more, each of
/// the three has one.
pub proof fn lemma_no_value_iff_empty<'a>(
    files: Seq<&'a File>,
    field: ArithmeticAggregator,
    by: ComparingAggregator,
    mean: Option<Average>,
)
    requires
        mean_fits(files, field, mean),
    ensures
        files.len() == 0 ==> total(files, field) == 0,
        mean is None <==> files.len() == 0,
        latest_greatest(files, by) is None <==> files.len() == 0,
        earliest_least(files, by) is None <==> files.len() == 0,
{
}

/// The greatest record is one of the records, none of the records comes
/// after it by the field, and of the records that are as great it is the last.
pub proof fn lemma_greatest<'a>(files: Seq<&'a File>, aggregator: ComparingAggregator)
    requires
        files.len() > 0,
    ensures
        latest_greatest(files, aggregator) is Some,
        exists|at: int|
            {
                &&& 0 <= at < files.len()
                &&& latest_greatest(files, aggregator) == Some(#[trigger] files[at])
                &&& forall|j: int| 0 <= j < files.len() ==> !aggregator.before(*files[at], *files[j])
                &&& forall|j: int| at < j < files.len() ==> aggregator.before(*files[j], *files[at])
            },
    decreases files.len(),
{
    let rest = files.drop_last();
    let last = files.len() - 1;
    if rest.len() == 0 {
        assert(latest_greatest(files, aggregator) == Some(files[last]));
    } else {
        lemma_greatest(rest, aggregator);
        let at = choose|at: int|
            {
                &&& 0 <= at < rest.len()
                &&& latest_greatest(rest, aggregator) == Some(#[trigger] rest[at])
                &&& forall|j: int| 0 <= j < rest.len() ==> !aggregator.before(*rest[at], *rest[j])
                &&& forall|j: int| at < j < rest.len() ==> aggregator.before(*rest[j], *rest[at])
            };
        assert(forall|j: int| 0 <= j < rest.len() ==> rest[j] == files[j]);
        if aggregator.before(*files[last], *rest[at]) {
            assert(latest_greatest(files, aggregator) == Some(files[at]));
        } else {
            assert(latest_greatest(files, aggregator) == Some(files[last]));
            assert forall|j: int| 0 <= j < files.len() implies !aggregator.before(
                *files[last],
                *files[j],
            ) by {
                if j < rest.len() {
                    assert(!aggregator.before(*rest[at], *rest[j]));
                }
            }
        }
    }
}

/// The least record is one of the records, none of the records comes before
/// it by the field, and of the records that are as small it is the first.
pub proof fn lemma_least<'a>(files: Seq<&'a File>, aggregator: ComparingAggregator)
    requires
        files.len() > 0,
    ensures
        earliest_least(files, aggregator) is Some,
        exists|at: int|
            {
                &&& 0 <= at < files.len()
                &&& earliest_least(files, aggregator) == Some(#[trigger] files[at])
                &&& forall|j: int| 0 <= j < files.len() ==> !aggregator.before(*files[j], *files[at])
                &&& forall|j: int| 0 <= j < at ==> aggregator.before(*files[at], *files[j])
            },
    decreases files.len(),
{
    let rest = files.drop_last();
    let last = files.len() - 1;
    if rest.len() == 0 {
        assert(earliest_least(files, aggregator) == Some(files[last]));
    } else {
        lemma_least(rest, aggregator);
        let at = choose|at: int|
            {
                &&& 0 <= at < rest.len()
                &&& earliest_least(rest, aggregator) == Some(#[trigger] rest[at])
                &&& forall|j: int| 0 <= j < rest.len() ==> !aggregator.before(*rest[j], *rest[at])
                &&& forall|j: int| 0 <= j < at ==> aggregator.before(*rest[at], *rest[j])
            };
        assert(forall|j: int| 0 <= j < rest.len() ==> rest[j] == files[j]);
        if aggregator.before(*files[last], *rest[at]) {
            assert(earliest_least(files, aggregator) == Some(files[last]));
            assert forall|j: int| 0 <= j < files.len() implies !aggregator.before(
                *files[j],
                *files[last],
            ) by {
                if j < rest.len() {
                    assert(!aggregator.before(*rest[j], *rest[at]));
                }
            }
            assert forall|j: int| 0 <= j < last implies aggregator.before(
                *files[last],
                *files[j],
            ) by {
                assert(!aggregator.before(*rest[j], *rest[at]));
            }
        } else {
            assert(earliest_least(files, aggregator) == Some(files[at]));
        }
    }
}

/// Whether `counts` holds, under each key of `groups`, the number of records
/// of that group.
pub open spec fn counts_groups<'a>(counts: Table<u64>, groups: Table<Vec<&'a File>>) -> bool {
    &&& counts.wf()
    &&& counts.keys() == groups.keys()
    &&& counts.values().len() == groups.values().len()
    &&& forall|g: int|
        0 <= g < groups.values().len() ==> (#[trigger] counts.values()[g])
            == groups.values()[g]@.len()
}

/// The count of each group that the grouper makes is the size of that group:
/// under each key it is the number of the records that have that key, and the
/// counts of all groups add up to the number of records.
pub proof fn lemma_counts_of_groups<'a>(
    files: Seq<&'a File>,
    operator: GroupingOperator,
    groups: Table<Vec<&'a File>>,
    counts: Table<u64>,
)
    requires
        is_grouping(groups, files, operator),
        counts_groups(counts, groups),
    ensures
        counts.keys() == first_occurrences(keys_of(files, operator)),
        forall|g: int|
            0 <= g < counts.values().len() ==> (#[trigger] counts.values()[g]) == files.filter(
                operator.member_of(counts.keys()[g]),
            ).len(),
        sum_of_counts(counts.values()) == files.len(),
{
    lemma_groups_partition(groups, files, operator);
    lemma_counts_add_up(counts.values(), groups.values(), counts.values().len() as int);
    assert(counts.values().take(counts.values().len() as int) == counts.values());
    assert(groups.values().take(groups.values().len() as int) == groups.values());
}

/// The sum of the counts.
pub open spec fn sum_of_counts(counts: Seq<u64>) -> nat
    decreases counts.len(),
{
    if counts.len() == 0 {
        0
    } else {
        sum_of_counts(counts.drop_last()) + counts.last() as nat
    }
}

/// The first counts add up to the number of records of the first groups.
proof fn lemma_counts_add_up<'a>(counts: Seq<u64>, groups: Seq<Vec<&'a File>>, upto: int)
    requires
        counts.len() == groups.len(),
        0 <= upto <= counts.len(),
        forall|g: int| 0 <= g < groups.len() ==> (#[trigger] counts[g]) == groups[g]@.len(),
    ensures
        sum_of_counts(counts.take(upto)) == all_members(groups.take(upto)).len(),
    decreases upto,
{
    if upto > 0 {
        lemma_counts_add_up(counts, groups, upto - 1);
        assert(counts.take(upto).drop_last() == counts.take(upto - 1));
        assert(groups.take(upto).drop_last() == groups.take(upto - 1));
        assert(counts.take(upto).last() == counts[upto - 1]);
        assert(groups.take(upto).last() == groups[upto - 1]);
    }
}

/// The number of records in each group.
pub fn count<'a>(files: &Table<Vec<&'a File>>) -> (counts: Table<u64>)
    ensures
        counts_groups(counts, *files),
{
    let counter = |members: &Vec<&'a File>| -> (n: u64)
        ensures
            n == members@.len(),
        {
            count_of(members.as_slice())
        };
    files.map(counter)
}

/// The sum of the field over each group.
pub fn sum<'a>(files: &Table<Vec<&'a File>>, aggregator: ArithmeticAggregator) -> (sums: Table<
    u128,
>)
    ensures
        sums.wf(),
        sums.keys() == files.keys(),
        sums.values().len() == files.values().len(),
        forall|g: int|
            0 <= g < files.values().len() ==> (#[trigger] sums.values()[g]) == total(
                files.values()[g]@,
                aggregator,
            ),
{
    let adder = |members: &Vec<&'a File>| -> (sum: u128)
        ensures
            sum == total(members@, aggregator),
        {
            sum_of(members.as_slice(), aggregator)
        };
    files.map(adder)
}

/// The mean of the field over each group; none for a group without records.
pub fn avg<'a>(files: &Table<Vec<&'a File>>, aggregator: ArithmeticAggregator) -> (means: Table<
    Option<Average>,
>)
    ensures
        means.wf(),
        means.keys() == files.keys(),
        means.values().len() == files.values().len(),
        forall|g: int|
            0 <= g < files.values().len() ==> mean_fits(
                files.values()[g]@,
                aggregator,
                #[trigger] means.values()[g],
            ),
{
    let averager = |members: &Vec<&'a File>| -> (mean: Option<Average>)
        ensures
            mean_fits(members@, aggregator, mean),
        {
            average_of(members.as_slice(), aggregator)
        };
    files.map(averager)
}

/// The greatest record of each group by the field; none for a group without
/// records.
pub fn max<'a>(files: &Table<Vec<&'a File>>, aggregator: ComparingAggregator) -> (greatest: Table<
    Option<&'a File>,
>)
    ensures
        greatest.wf(),
        greatest.keys() == files.keys(),
        greatest.values().len() == files.values().len(),
        forall|g: int|
            0 <= g < files.values().len() ==> (#[trigger] greatest.values()[g]) == latest_greatest(
                files.values()[g]@,
                aggregator,
            ),
{
    let chooser = |members: &Vec<&'a File>| -> (best: Option<&'a File>)
        ensures
            best == latest_greatest(members@, aggregator),
        {
            max_of(members.as_slice(), aggregator)
        };
    files.map(chooser)
}

/// The least record of each group by the field; none for a group without
/// records.
pub fn min<'a>(files: &Table<Vec<&'a File>>, aggregator: ComparingAggregator) -> (least: Table<
    Option<&'a File>,
>)
    ensures
        least.wf(),
        least.keys() == files.keys(),
        least.values().len() == files.values().len(),
        forall|g: int|
            0 <= g < files.values().len() ==> (#[trigger] least.values()[g]) == earliest_least(
                files.values()[g]@,
                aggregator,
            ),
{
    let chooser = |members: &Vec<&'a File>| -> (best: Option<&'a File>)
        ensures
            best == earliest_least(members@, aggregator),
        {
            min_of(members.as_slice(), aggregator)
        };
    files.map(chooser)
}

/// An aggregate function together with the field that it works on.
#[derive(Debug, Clone, Copy, PartialEq, Eq, Structural)]
pub enum AggregateFunction {
    Count,
    Sum(ArithmeticAggregator),
    Avg(ArithmeticAggregator),
    Max(ComparingAggregator),
    Min(ComparingAggregator),
}

/// What an aggregate function came to on one group of records.
#[derive(Debug, Clone, Copy, PartialEq, Eq)]
pub enum AggregateValue<'a> {
    /// The number of records.
    Count(u64),
    /// The sum of the field.
    Sum(u128),
    /// The mean of the field; none for no records.
    Average(Option<Average>),
    /// The greatest record; none for no records.
    Max(Option<&'a File>),
    /// The least record; none for no records.
    Min(Option<&'a File>),
}

impl AggregateFunction {
    /// The function that the text `text` asks for: the function's name, in
    /// any letter case, and for `max` and `min` a comma and the field to
    /// compare by. Sum and average are of the size.
    pub open spec fn asked(text: Seq<char>) -> Result<AggregateFunction, (Cause, Seq<char>)> {
        let pieces = split_limited(text, ',', 2);
        let function = lowercase(pieces[0]);
        if function == "count"@ || function == "c"@ {
            Ok(AggregateFunction::Count)
        } else if function == "sum"@ || function == "s"@ {
            Ok(AggregateFunction::Sum(ArithmeticAggregator::Size))
        } else if function == "average"@ || function == "avg"@ || function == "a"@ {
            Ok(AggregateFunction::Avg(ArithmeticAggregator::Size))
        } else if function == "max"@ || function == "min"@ {
            if pieces.len() < 2 {
                Err((Cause::MissingArgument, function))
            } else {
                match ComparingAggregator::named(lowercase(pieces[1])) {
                    Some(field) => Ok(
                        if function == "max"@ {
                            AggregateFunction::Max(field)
                        } else {
                            AggregateFunction::Min(field)
                        },
                    ),
                    None => Err((Cause::UnknownAggregator, pieces[1])),
                }
            }
        } else {
            Err((Cause::UnknownAggregate, text))
        }
    }

    /// Reads an aggregate function from text of the form `function` or
    /// `function,field`.
    pub fn from_str(s: &str) -> (r: Result<AggregateFunction, QueryError>)
        ensures
            match AggregateFunction::asked(s@) {
                Ok(function) => r == Ok::<AggregateFunction, QueryError>(function),
                Err(e) => r matches Err(failure) && failure@ == e,
            },
    {
        let chars = chars_of(s);
        let pieces = split(&chars, ',', 2);
        proof {
            assert(texts(pieces@).len() == pieces.len());
            assert(forall|i: int|
                0 <= i < pieces.len() ==> texts(pieces@)[i] == (#[trigger] pieces@[i])@);
        }
        let lowered = string_of(&pieces[0]).as_str().to_lowercase();
        let function = chars_of(lowered.as_str());
        if is_word(&function, "count") || is_word(&function, "c") {
            return Ok(AggregateFunction::Count);
        }
        if is_word(&function, "sum") || is_word(&function, "s") {
            return Ok(AggregateFunction::Sum(ArithmeticAggregator::Size));
        }
        if is_word(&function, "average") || is_word(&function, "avg") || is_word(&function, "a") {
            return Ok(AggregateFunction::Avg(ArithmeticAggregator::Size));
        }
        let greatest = is_word(&function, "max");
        if !greatest && !is_word(&function, "min") {
            return Err(QueryError::new(Cause::UnknownAggregate, s));
        }
        if pieces.len() < 2 {
            return Err(QueryError::new(Cause::MissingArgument, lowered.as_str()));
        }
        let argument = string_of(&pieces[1]);
        match ComparingAggregator::from_str(argument.as_str()) {
            Ok(field) => Ok(
                if greatest {
                    AggregateFunction::Max(field)
                } else {
                    AggregateFunction::Min(field)
                },
            ),
            Err(e) => Err(e),
        }
    }

    /// The function with its field that the command line's function and
    /// parameters stand for. The count takes no parameter. The others take
    /// their field from the first parameter: sum and average work on `size`
    /// alone; `max` and `min` work on any field that records are compared by.
    pub open spec fn resolved(function: AggrFunc, params: Seq<Seq<char>>) -> Result<
        AggregateFunction,
        (Cause, Seq<char>),
    > {
        match function {
            AggrFunc::Count => Ok(AggregateFunction::Count),
            _ => if params.len() == 0 {
                Err((Cause::MissingArgument, function.word()))
            } else {
                match function {
                    AggrFunc::Max => match ComparingAggregator::named(lowercase(params[0])) {
                        Some(field) => Ok(AggregateFunction::Max(field)),
                        None => Err((Cause::UnknownAggregator, params[0])),
                    },
                    AggrFunc::Min => match ComparingAggregator::named(lowercase(params[0])) {
                        Some(field) => Ok(AggregateFunction::Min(field)),
                        None => Err((Cause::UnknownAggregator, params[0])),
                    },
                    AggrFunc::Sum => if params[0] == "size"@ {
                        Ok(AggregateFunction::Sum(ArithmeticAggregator::Size))
                    } else {
                        Err((Cause::UnsupportedParameter, params[0]))
                    },
                    _ => if params[0] == "size"@ {
                        Ok(AggregateFunction::Avg(ArithmeticAggregator::Size))
                    } else {
                        Err((Cause::UnsupportedParameter, params[0]))
                    },
                }
            },
        }
    }

    /// Settles the function and its field from what the command line gives.
    pub fn resolve(function: AggrFunc, params: &Vec<String>) -> (r: Result<
        AggregateFunction,
        QueryError,
    >)
        ensures
            match AggregateFunction::resolved(
                function,
                params@.map_values(|param: String| param@),
            ) {
                Ok(found) => r == Ok::<AggregateFunction, QueryError>(found),
                Err(e) => r matches Err(failure) && failure@ == e,
            },
    {
        if matches!(function, AggrFunc::Count) {
            return Ok(AggregateFunction::Count);
        }
        if params.len() == 0 {
            return Err(QueryError::new(Cause::MissingArgument, function.name()));
        }
        let param = params[0].as_str();
        assert(params@.map_values(|param: String| param@)[0] == param@);
        match function {
            AggrFunc::Max => match ComparingAggregator::from_str(param) {
                Ok(field) => Ok(AggregateFunction::Max(field)),
                Err(e) => Err(e),
            },
            AggrFunc::Min => match ComparingAggregator::from_str(param) {
                Ok(field) => Ok(AggregateFunction::Min(field)),
                Err(e) => Err(e),
            },
            AggrFunc::Sum => if same_text(param, "size") {
                Ok(AggregateFunction::Sum(ArithmeticAggregator::Size))
            } else {
                Err(QueryError::new(Cause::UnsupportedParameter, param))
            },
            _ => if same_text(param, "size") {
                Ok(AggregateFunction::Avg(ArithmeticAggregator::Size))
            } else {
                Err(QueryError::new(Cause::UnsupportedParameter, param))
            },
        }
    }

    /// Whether `value` is what the function comes to on the records.
    pub open spec fn fits<'a>(self, files: Seq<&'a File>, value: AggregateValue<'a>) -> bool {
        match self {
            AggregateFunction::Count => value matches AggregateValue::Count(n) && n == files.len(),
            AggregateFunction::Sum(field) => value matches AggregateValue::Sum(sum) && sum == total(
                files,
                field,
            ),
            AggregateFunction::Avg(field) => value matches AggregateValue::Average(mean)
                && mean_fits(files, field, mean),
            AggregateFunction::Max(field) => value == AggregateValue::Max(
                latest_greatest(files, field),
            ),
            AggregateFunction::Min(field) => value == AggregateValue::Min(
                earliest_least(files, field),
            ),
        }
    }

    /// Evaluates the function on one group of records.
    pub fn evaluate<'a>(&self, files: &[&'a File]) -> (value: AggregateValue<'a>)
        ensures
            self.fits(files@, value),
    {
        match self {
            AggregateFunction::Count => AggregateValue::Count(count_of(files)),
            AggregateFunction::Sum(field) => AggregateValue::Sum(sum_of(files, *field)),
            AggregateFunction::Avg(field) => AggregateValue::Average(average_of(files, *field)),
            AggregateFunction::Max(field) => AggregateValue::Max(max_of(files, *field)),
            AggregateFunction::Min(field) => AggregateValue::Min(min_of(files, *field)),
        }
    }
}

impl core::str::FromStr for AggregateFunction {
    type Err = QueryError;

    /// Reads an aggregate function as `AggregateFunction::from_str` does.
    fn from_str(s: &str) -> (r: Result<AggregateFunction, QueryError>)
        ensures
            match AggregateFunction::asked(s@) {
                Ok(function) => r == Ok::<AggregateFunction, QueryError>(function),
                Err(e) => r matches Err(failure) && failure@ == e,
            },
    {
        AggregateFunction::from_str(s)
    }
}

/// Evaluates the function on each group.
pub fn aggregate<'a>(files: &Table<Vec<&'a File>>, function: AggregateFunction) -> (results: Table<
    AggregateValue<'a>,
>)
    ensures
        results.wf(),
        results.keys() == files.keys(),
        results.values().len() == files.values().len(),
        forall|g: int|
            0 <= g < files.values().len() ==> function.fits(
                files.values()[g]@,
                #[trigger] results.values()[g],
            ),
{
    let evaluator = |members: &Vec<&'a File>| -> (value: AggregateValue<'a>)
        ensures
            function.fits(members@, value),
        {
            function.evaluate(members.as_slice())
        };
    files.map(evaluator)
}

} // verus!
