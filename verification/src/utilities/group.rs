//! The grouper: a string key derived from each record, and the records
//! partitioned by it.

use crate::decimal::{
    decimal, digit_char, push_decimal, push_zero_padded, signed_zero_padded, zero_padded,
};
use crate::error::{outcome, Cause, QueryError};
use crate::file::{File, Timestamp};
use crate::table::Table;
use crate::text::{
    chars_of, lowercase, normal, normalise, same_text, split, split_limited, string_of, texts,
};
use crate::utilities::is_word;
use vstd::prelude::*;
use vstd::seq_lib::{lemma_multiset_commutative, to_multiset_build, to_multiset_contains};

verus! {

/// The unit in which a size is shown and bucketed.
#[derive(Debug, Clone, Copy, PartialEq, Eq, Structural)]
pub enum SizeMagnitude {
    Bytes,
    Kilobytes,
    Megabytes,
    Gigabytes,
    Terabytes,
}

impl SizeMagnitude {
    /// The number of bytes in one unit.
    pub open spec fn bytes_per_unit(self) -> nat {
        match self {
            SizeMagnitude::Bytes => 1,
            SizeMagnitude::Kilobytes => 1024,
            SizeMagnitude::Megabytes => 1024 * 1024,
            SizeMagnitude::Gigabytes => 1024 * 1024 * 1024,
            SizeMagnitude::Terabytes => 1024 * 1024 * 1024 * 1024,
        }
    }

    /// The unit's suffix, with the space before it.
    pub open spec fn suffix(self) -> Seq<char> {
        match self {
            SizeMagnitude::Bytes => " B"@,
            SizeMagnitude::Kilobytes => " KB"@,
            SizeMagnitude::Megabytes => " MB"@,
            SizeMagnitude::Gigabytes => " GB"@,
            SizeMagnitude::Terabytes => " TB"@,
        }
    }

    /// The number of whole units in `size` bytes: the quotient, with the
    /// remainder dropped.
    pub open spec fn whole_units(self, size: u64) -> nat {
        size as nat / self.bytes_per_unit()
    }

    /// `size` bytes shown in the unit: the whole units in decimal, then the
    /// suffix.
    pub open spec fn label(self, size: u64) -> Seq<char> {
        decimal(self.whole_units(size)) + self.suffix()
    }

    /// The unit that the lower-case word `word` names.
    pub open spec fn named(word: Seq<char>) -> Option<SizeMagnitude> {
        if word == "bytes"@ || word == "b"@ {
            Some(SizeMagnitude::Bytes)
        } else if word == "kilobytes"@ || word == "kb"@ {
            Some(SizeMagnitude::Kilobytes)
        } else if word == "megabytes"@ || word == "mb"@ {
            Some(SizeMagnitude::Megabytes)
        } else if word == "gigabytes"@ || word == "gb"@ {
            Some(SizeMagnitude::Gigabytes)
        } else if word == "terabytes"@ || word == "tb"@ {
            Some(SizeMagnitude::Terabytes)
        } else {
            None
        }
    }

    /// The unit that the lower-case word `word` names.
    pub fn of_word(word: &Vec<char>) -> (unit: Option<SizeMagnitude>)
        ensures
            unit == SizeMagnitude::named(word@),
    {
        if is_word(word, "bytes") || is_word(word, "b") {
            Some(SizeMagnitude::Bytes)
        } else if is_word(word, "kilobytes") || is_word(word, "kb") {
            Some(SizeMagnitude::Kilobytes)
        } else if is_word(word, "megabytes") || is_word(word, "mb") {
            Some(SizeMagnitude::Megabytes)
        } else if is_word(word, "gigabytes") || is_word(word, "gb") {
            Some(SizeMagnitude::Gigabytes)
        } else if is_word(word, "terabytes") || is_word(word, "tb") {
            Some(SizeMagnitude::Terabytes)
        } else {
            None
        }
    }

    /// Shows `size` bytes in the unit, truncated to whole units.
    pub fn convert(&self, size: u64) -> (shown: String)
        ensures
            shown@ == self.label(size),
    {
        let (units, suffix): (u64, &str) = match self {
            SizeMagnitude::Bytes => (size, " B"),
            SizeMagnitude::Kilobytes => (size / 1024, " KB"),
            SizeMagnitude::Megabytes => (size / (1024 * 1024), " MB"),
            SizeMagnitude::Gigabytes => (size / (1024 * 1024 * 1024), " GB"),
            SizeMagnitude::Terabytes => (size / (1024 * 1024 * 1024 * 1024), " TB"),
        };
        let mut out: Vec<char> = Vec::new();
        push_decimal(&mut out, units);
        let tail = chars_of(suffix);
        let mut i: usize = 0;
        let ghost digits = out@;
        while i < tail.len()
            invariant
                i <= tail.len(),
                out@ == digits + tail@.take(i as int),
            decreases tail.len() - i,
        {
            out.push(tail[i]);
            i = i + 1;
        }
        assert(tail@.take(tail.len() as int) == tail@);
        string_of(&out)
    }
}

/// Which parts of a timestamp make up a group key. A part that is left out
/// is shown as `*`, so that timestamps that differ in it alone share a key.
#[derive(Debug, Clone, Copy, PartialEq, Eq, Structural)]
pub struct TimeGrouping {
    pub year: bool,
    pub month: bool,
    pub day: bool,
    pub hour: bool,
    pub minute: bool,
    pub second: bool,
}

/// One part of a time key: the value in two digits where it is shown, `*`
/// where it is not.
pub open spec fn part(shown: bool, value: u32) -> Seq<char> {
    if shown {
        zero_padded(value as nat, 2)
    } else {
        seq!['*']
    }
}

/// The year of a time key: the year in four digits where it is shown, `*`
/// where it is not.
pub open spec fn year_part(shown: bool, year: i32) -> Seq<char> {
    if shown {
        signed_zero_padded(year as int, 4)
    } else {
        seq!['*']
    }
}

/// Appends one part of a time key to `out`.
fn push_part(out: &mut Vec<char>, shown: bool, value: u32)
    ensures
        final(out)@ == old(out)@ + part(shown, value),
{
    if shown {
        push_zero_padded(out, value as u64, 2);
    } else {
        out.push('*');
        assert(out@ == old(out)@ + seq!['*']);
    }
}

/// Appends the year of a time key to `out`.
fn push_year_part(out: &mut Vec<char>, shown: bool, year: i32)
    ensures
        final(out)@ == old(out)@ + year_part(shown, year),
{
    if !shown {
        out.push('*');
        assert(out@ == old(out)@ + seq!['*']);
    } else if year >= 0 {
        push_zero_padded(out, year as u64, 4);
    } else {
        out.push('-');
        let ghost dashed = out@;
        let size: u64 = (-(year as i64)) as u64;
        push_zero_padded(out, size, 3);
        assert(out@ == old(out)@ + (seq!['-'] + zero_padded(size as nat, 3)));
    }
}

impl TimeGrouping {
    /// The key of the timestamp: `day.month.year hour:minute:second`, each
    /// part shown or masked as the grouping says.
    pub open spec fn label(self, time: Timestamp) -> Seq<char> {
        part(self.day, time.day) + seq!['.'] + part(self.month, time.month) + seq!['.']
            + year_part(self.year, time.year) + seq![' '] + part(self.hour, time.hour) + seq![':']
            + part(self.minute, time.minute) + seq![':'] + part(self.second, time.second)
    }

    /// Formats the timestamp as a group key.
    pub fn format(&self, datetime: Timestamp) -> (key: String)
        ensures
            key@ == self.label(datetime),
    {
        let ghost day = part(self.day, datetime.day);
        let ghost month = part(self.month, datetime.month);
        let ghost year = year_part(self.year, datetime.year);
        let ghost hour = part(self.hour, datetime.hour);
        let ghost minute = part(self.minute, datetime.minute);
        let ghost second = part(self.second, datetime.second);
        let mut out: Vec<char> = Vec::new();
        push_part(&mut out, self.day, datetime.day);
        assert(out@ == day);
        out.push('.');
        assert(out@ == day + seq!['.']);
        push_part(&mut out, self.month, datetime.month);
        out.push('.');
        assert(out@ == day + seq!['.'] + month + seq!['.']);
        push_year_part(&mut out, self.year, datetime.year);
        out.push(' ');
        assert(out@ == day + seq!['.'] + month + seq!['.'] + year + seq![' ']);
        push_part(&mut out, self.hour, datetime.hour);
        out.push(':');
        assert(out@ == day + seq!['.'] + month + seq!['.'] + year + seq![' '] + hour + seq![':']);
        push_part(&mut out, self.minute, datetime.minute);
        out.push(':');
        assert(out@ == day + seq!['.'] + month + seq!['.'] + year + seq![' '] + hour + seq![':']
            + minute + seq![':']);
        push_part(&mut out, self.second, datetime.second);
        string_of(&out)
    }
}

/// How records are grouped: by which field, and with which bucketing.
#[derive(Debug, Clone, Copy, PartialEq, Eq, Structural)]
pub enum GroupingOperator {
    Extension,
    Size(SizeMagnitude),
    Modified(TimeGrouping),
    Accessed(TimeGrouping),
    Created(TimeGrouping),
    FileType,
}

/// The words of a grouping text: its pieces between commas, seven at most,
/// each trimmed and in lower case.
pub open spec fn grouping_words(text: Seq<char>) -> Seq<Seq<char>> {
    split_limited(text, ',', 7).map_values(|piece: Seq<char>| normal(piece))
}

/// Whether one of the words after the first is `a`, `b` or `c`.
pub open spec fn mentions(words: Seq<Seq<char>>, a: Seq<char>, b: Seq<char>, c: Seq<char>) -> bool {
    exists|i: int|
        1 <= i < words.len() && ((#[trigger] words[i]) == a || words[i] == b || words[i] == c)
}

/// The time grouping that the words after the first ask for: each part is in
/// where a word names it.
pub open spec fn asked_parts(words: Seq<Seq<char>>) -> TimeGrouping {
    TimeGrouping {
        year: mentions(words, "y"@, "year"@, "year"@),
        month: mentions(words, "m"@, "month"@, "month"@),
        day: mentions(words, "d"@, "day"@, "day"@),
        hour: mentions(words, "h"@, "hour"@, "hour"@),
        minute: mentions(words, "min"@, "minute"@, "minute"@),
        second: mentions(words, "s"@, "sec"@, "second"@),
    }
}

/// Whether one of the words after the first is `a`, `b` or `c`.
fn mentioned(words: &Vec<Vec<char>>, a: &str, b: &str, c: &str) -> (found: bool)
    ensures
        found == mentions(texts(words@), a@, b@, c@),
{
    let mut i: usize = 1;
    while i < words.len()
        invariant
            1 <= i,
            forall|j: int|
                1 <= j < i && j < words.len() ==> !((#[trigger] texts(words@)[j]) == a@ || texts(
                    words@,
                )[j] == b@ || texts(words@)[j] == c@),
        decreases words.len() - i,
    {
        assert(texts(words@)[i as int] == words@[i as int]@);
        if is_word(&words[i], a) || is_word(&words[i], b) || is_word(&words[i], c) {
            return true;
        }
        i = i + 1;
    }
    false
}

/// The time grouping that the words after the first ask for.
fn parts_asked(words: &Vec<Vec<char>>) -> (grouping: TimeGrouping)
    ensures
        grouping == asked_parts(texts(words@)),
{
    TimeGrouping {
        year: mentioned(words, "y", "year", "year"),
        month: mentioned(words, "m", "month", "month"),
        day: mentioned(words, "d", "day", "day"),
        hour: mentioned(words, "h", "hour", "hour"),
        minute: mentioned(words, "min", "minute", "minute"),
        second: mentioned(words, "s", "sec", "second"),
    }
}

impl GroupingOperator {
    /// The grouping that the words `words` ask for. Extension and file type
    /// need no more than their name; a size needs its unit as the second
    /// word; a timestamp takes the parts that make up its key from the words
    /// after the first.
    pub open spec fn asked(words: Seq<Seq<char>>) -> Result<GroupingOperator, (Cause, Seq<char>)> {
        let field = words[0];
        if field == "extension"@ || field == "ext"@ || field == "e"@ {
            Ok(GroupingOperator::Extension)
        } else if field == "filetype"@ || field == "ftype"@ {
            Ok(GroupingOperator::FileType)
        } else if words.len() < 2 {
            Err((Cause::GroupingFormat, Seq::empty()))
        } else if field == "size"@ || field == "s"@ {
            match SizeMagnitude::named(words[1]) {
                Some(magnitude) => Ok(GroupingOperator::Size(magnitude)),
                None => Err((Cause::InvalidMagnitude, Seq::empty())),
            }
        } else if field == "modified"@ || field == "mod"@ || field == "m"@ {
            Ok(GroupingOperator::Modified(asked_parts(words)))
        } else if field == "accessed"@ || field == "acc"@ || field == "a"@ {
            Ok(GroupingOperator::Accessed(asked_parts(words)))
        } else if field == "created"@ || field == "cre"@ || field == "c"@ {
            Ok(GroupingOperator::Created(asked_parts(words)))
        } else {
            Err((Cause::UnsupportedGrouping, Seq::empty()))
        }
    }

    /// Reads a grouping from text of the form `field` or `field,modifier,...`.
    pub fn from_str(s: &str) -> (r: Result<GroupingOperator, QueryError>)
        ensures
            match GroupingOperator::asked(grouping_words(s@)) {
                Ok(operator) => r == Ok::<GroupingOperator, QueryError>(operator),
                Err(e) => r matches Err(failure) && failure@ == e,
            },
    {
        let chars = chars_of(s);
        let pieces = split(&chars, ',', 7);
        let mut words: Vec<Vec<char>> = Vec::new();
        let mut i: usize = 0;
        while i < pieces.len()
            invariant
                i <= pieces.len(),
                words.len() == i,
                forall|j: int| 0 <= j < i ==> (#[trigger] words@[j])@ == normal(pieces@[j]@),
            decreases pieces.len() - i,
        {
            let word = normalise(&pieces[i]);
            words.push(chars_of(word.as_str()));
            i = i + 1;
        }
        proof {
            assert(texts(pieces@).len() == pieces.len());
            assert(texts(words@) == grouping_words(s@)) by {
                assert forall|j: int| 0 <= j < words.len() implies texts(words@)[j]
                    == grouping_words(s@)[j] by {
                    assert(texts(pieces@)[j] == pieces@[j]@);
                }
            }
        }
        let field = &words[0];
        if is_word(field, "extension") || is_word(field, "ext") || is_word(field, "e") {
            return Ok(GroupingOperator::Extension);
        }
        if is_word(field, "filetype") || is_word(field, "ftype") {
            return Ok(GroupingOperator::FileType);
        }
        if words.len() < 2 {
            return Err(QueryError::bare(Cause::GroupingFormat));
        }
        if is_word(field, "size") || is_word(field, "s") {
            return match SizeMagnitude::of_word(&words[1]) {
                Some(magnitude) => Ok(GroupingOperator::Size(magnitude)),
                None => Err(QueryError::bare(Cause::InvalidMagnitude)),
            };
        }
        let grouping = parts_asked(&words);
        if is_word(field, "modified") || is_word(field, "mod") || is_word(field, "m") {
            return Ok(GroupingOperator::Modified(grouping));
        }
        if is_word(field, "accessed") || is_word(field, "acc") || is_word(field, "a") {
            return Ok(GroupingOperator::Accessed(grouping));
        }
        if is_word(field, "created") || is_word(field, "cre") || is_word(field, "c") {
            return Ok(GroupingOperator::Created(grouping));
        }
        Err(QueryError::bare(Cause::UnsupportedGrouping))
    }

    /// The grouping that the field named by the lower-case word `word` gets
    /// where no modifier is given: sizes in bytes, timestamps by year and
    /// month.
    pub open spec fn plain(word: Seq<char>) -> Option<GroupingOperator> {
        let by_month = TimeGrouping {
            year: true,
            month: true,
            day: false,
            hour: false,
            minute: false,
            second: false,
        };
        if word == "extension"@ {
            Some(GroupingOperator::Extension)
        } else if word == "file_type"@ {
            Some(GroupingOperator::FileType)
        } else if word == "size"@ {
            Some(GroupingOperator::Size(SizeMagnitude::Bytes))
        } else if word == "modified"@ {
            Some(GroupingOperator::Modified(by_month))
        } else if word == "accessed"@ {
            Some(GroupingOperator::Accessed(by_month))
        } else if word == "created"@ {
            Some(GroupingOperator::Created(by_month))
        } else {
            None
        }
    }

    /// Why there is no grouping by the field `field`: records are not grouped
    /// by name, and any other name is not that of a field.
    pub open spec fn refusal(field: Seq<char>) -> (Cause, Seq<char>) {
        if lowercase(field) == "name"@ {
            (Cause::UnsupportedGrouping, Seq::empty())
        } else {
            (Cause::InvalidField, field)
        }
    }

    /// The grouping by the field `field`, named in any letter case, with the
    /// bucketing that it gets where none is asked for. Records cannot be
    /// grouped by name; any other name that is not one of the six fields is
    /// not known.
    pub fn default_for(field: &str) -> (r: Result<GroupingOperator, QueryError>)
        ensures
            match GroupingOperator::plain(lowercase(field@)) {
                Some(operator) => r == Ok::<GroupingOperator, QueryError>(operator),
                None => r matches Err(e) && e@ == GroupingOperator::refusal(field@),
            },
    {
        let lowered = field.to_lowercase();
        let word = chars_of(lowered.as_str());
        let by_month = TimeGrouping {
            year: true,
            month: true,
            day: false,
            hour: false,
            minute: false,
            second: false,
        };
        if is_word(&word, "extension") {
            Ok(GroupingOperator::Extension)
        } else if is_word(&word, "file_type") {
            Ok(GroupingOperator::FileType)
        } else if is_word(&word, "size") {
            Ok(GroupingOperator::Size(SizeMagnitude::Bytes))
        } else if is_word(&word, "modified") {
            Ok(GroupingOperator::Modified(by_month))
        } else if is_word(&word, "accessed") {
            Ok(GroupingOperator::Accessed(by_month))
        } else if is_word(&word, "created") {
            Ok(GroupingOperator::Created(by_month))
        } else if is_word(&word, "name") {
            Err(QueryError::bare(Cause::UnsupportedGrouping))
        } else {
            Err(QueryError::new(Cause::InvalidField, field))
        }
    }

    /// The group key of a record.
    pub open spec fn key(self, file: File) -> Seq<char> {
        match self {
            GroupingOperator::Extension => file.extension@,
            GroupingOperator::Size(magnitude) => magnitude.label(file.size),
            GroupingOperator::Modified(grouping) => grouping.label(file.modified),
            GroupingOperator::Accessed(grouping) => grouping.label(file.accessed),
            GroupingOperator::Created(grouping) => grouping.label(file.created),
            GroupingOperator::FileType => file.file_type@,
        }
    }

    /// The test for the records whose group key is `key`.
    pub open spec fn member_of<'a>(self, key: Seq<char>) -> spec_fn(&'a File) -> bool {
        |file: &'a File| self.key(*file) == key
    }

    /// The group key of a record.
    pub fn key_of(&self, file: &File) -> (key: String)
        ensures
            key@ == self.key(*file),
    {
        match self {
            GroupingOperator::Extension => file.extension.clone(),
            GroupingOperator::Size(magnitude) => magnitude.convert(file.size),
            GroupingOperator::Modified(grouping) => grouping.format(file.modified),
            GroupingOperator::Accessed(grouping) => grouping.format(file.accessed),
            GroupingOperator::Created(grouping) => grouping.format(file.created),
            GroupingOperator::FileType => file.file_type.clone(),
        }
    }
}

impl core::str::FromStr for GroupingOperator {
    type Err = QueryError;

    /// Reads a grouping as `GroupingOperator::from_str` does.
    fn from_str(s: &str) -> (r: Result<GroupingOperator, QueryError>)
        ensures
            match GroupingOperator::asked(grouping_words(s@)) {
                Ok(operator) => r == Ok::<GroupingOperator, QueryError>(operator),
                Err(e) => r matches Err(failure) && failure@ == e,
            },
    {
        GroupingOperator::from_str(s)
    }
}

/// The group keys of the records, one for each, in their order.
pub open spec fn keys_of<'a>(files: Seq<&'a File>, operator: GroupingOperator) -> Seq<Seq<char>> {
    files.map_values(|file: &'a File| operator.key(*file))
}

/// The keys that occur in `keys`, each once, in the order in which they
/// first occur.
pub open spec fn first_occurrences(keys: Seq<Seq<char>>) -> Seq<Seq<char>>
    decreases keys.len(),
{
    if keys.len() == 0 {
        Seq::empty()
    } else {
        let before = first_occurrences(keys.drop_last());
        if before.contains(keys.last()) {
            before
        } else {
            before.push(keys.last())
        }
    }
}

/// Whether `groups` is the partition of the records by their key: its keys
/// are the keys that occur, in the order in which they first occur, and under
/// each key stand the records with that key, in their order.
pub open spec fn is_grouping<'a>(
    groups: Table<Vec<&'a File>>,
    files: Seq<&'a File>,
    operator: GroupingOperator,
) -> bool {
    &&& groups.wf()
    &&& groups.keys() == first_occurrences(keys_of(files, operator))
    &&& forall|g: int|
        0 <= g < groups.keys().len() ==> (#[trigger] groups.values()[g])@ == files.filter(
            operator.member_of(groups.keys()[g]),
        )
}

/// The records whose key, found beside them in `keys`, is `key`: in their
/// order.
fn members<'a>(
    files: &[&'a File],
    keys: &Vec<String>,
    key: &str,
    Ghost(operator): Ghost<GroupingOperator>,
) -> (found: Vec<&'a File>)
    requires
        keys.len() == files.len(),
        forall|j: int| 0 <= j < files.len() ==> (#[trigger] keys@[j])@ == operator.key(*files@[j]),
    ensures
        found@ == files@.filter(operator.member_of(key@)),
{
    let mut found: Vec<&'a File> = Vec::new();
    let mut j: usize = 0;
    proof {
        reveal(Seq::filter);
        assert(files@.take(0).filter(operator.member_of(key@)) == Seq::<&File>::empty());
    }
    while j < files.len()
        invariant
            j <= files.len(),
            keys.len() == files.len(),
            forall|j: int|
                0 <= j < files.len() ==> (#[trigger] keys@[j])@ == operator.key(*files@[j]),
            found@ == files@.take(j as int).filter(operator.member_of(key@)),
        decreases files.len() - j,
    {
        proof {
            reveal(Seq::filter);
            assert(files@.take(j + 1).drop_last() == files@.take(j as int));
            assert(files@.take(j + 1).last() == files@[j as int]);
        }
        if same_text(keys[j].as_str(), key) {
            found.push(files[j]);
        }
        j = j + 1;
    }
    assert(files@.take(files.len() as int) == files@);
    found
}

/// Partitions the records by their group key.
///
/// The keys of the table are the keys that occur, in the order in which they
/// first occur; under each key stand the records with that key, in their
/// order.
pub fn group<'a>(files: &[&'a File], operator: GroupingOperator) -> (groups: Table<Vec<&'a File>>)
    ensures
        is_grouping(groups, files@, operator),
{
    let mut keys: Vec<String> = Vec::new();
    let mut i: usize = 0;
    while i < files.len()
        invariant
            i <= files.len(),
            keys.len() == i,
            forall|j: int| 0 <= j < i ==> (#[trigger] keys@[j])@ == operator.key(*files@[j]),
        decreases files.len() - i,
    {
        keys.push(operator.key_of(files[i]));
        i = i + 1;
    }
    let ghost all = keys_of(files@, operator);
    let mut groups: Table<Vec<&'a File>> = Table::new();
    let mut i: usize = 0;
    assert(all.take(0) == Seq::<Seq<char>>::empty());
    while i < files.len()
        invariant
            i <= files.len(),
            keys.len() == files.len(),
            all == keys_of(files@, operator),
            forall|j: int|
                0 <= j < files.len() ==> (#[trigger] keys@[j])@ == operator.key(*files@[j]),
            groups.wf(),
            groups.keys() == first_occurrences(all.take(i as int)),
            forall|g: int|
                0 <= g < groups.keys().len() ==> (#[trigger] groups.values()[g])@ == files@.filter(
                    operator.member_of(groups.keys()[g]),
                ),
        decreases files.len() - i,
    {
        proof {
            assert(all.take(i + 1).drop_last() == all.take(i as int));
            assert(all.take(i + 1).last() == keys@[i as int]@);
        }
        if !groups.contains_key(keys[i].as_str()) {
            let found = members(files, &keys, keys[i].as_str(), Ghost(operator));
            groups = groups.with(keys[i].clone(), found);
        }
        i = i + 1;
    }
    assert(all.take(files.len() as int) == all);
    groups
}

/// Sizes that hold the same number of whole units share a key, whatever
/// they hold beyond it.
pub proof fn lemma_same_bucket(unit: SizeMagnitude, a: u64, b: u64)
    requires
        unit.whole_units(a) == unit.whole_units(b),
    ensures
        unit.label(a) == unit.label(b),
{
}

/// Timestamps that agree in every part that the grouping shows share a key,
/// whatever the parts are that it masks.
pub proof fn lemma_masked_parts(grouping: TimeGrouping, a: Timestamp, b: Timestamp)
    requires
        grouping.year ==> a.year == b.year,
        grouping.month ==> a.month == b.month,
        grouping.day ==> a.day == b.day,
        grouping.hour ==> a.hour == b.hour,
        grouping.minute ==> a.minute == b.minute,
        grouping.second ==> a.second == b.second,
    ensures
        grouping.label(a) == grouping.label(b),
{
}

/// A number below a hundred is shown by its two digits.
pub proof fn lemma_two_digits(value: nat)
    requires
        value < 100,
    ensures
        zero_padded(value, 2) == seq![digit_char(value / 10), digit_char(value % 10)],
{
    if value < 10 {
        assert(decimal(value) == seq![digit_char(value)]);
        assert(Seq::new(1, |i: int| '0') + decimal(value) == seq!['0', digit_char(value)]);
    } else {
        assert(decimal(value / 10) == seq![digit_char(value / 10)]);
        assert(decimal(value) == seq![digit_char(value / 10), digit_char(value % 10)]);
    }
}

/// Different numbers below a hundred are shown differently.
pub proof fn lemma_two_digits_differ(a: nat, b: nat)
    requires
        a < 100,
        b < 100,
        a != b,
    ensures
        zero_padded(a, 2).len() == 2,
        zero_padded(b, 2).len() == 2,
        zero_padded(a, 2)[0] != zero_padded(b, 2)[0] || zero_padded(a, 2)[1] != zero_padded(b, 2)[1],
{
    lemma_two_digits(a);
    lemma_two_digits(b);
    assert(a / 10 != b / 10 || a % 10 != b % 10);
    assert(a / 10 < 10 && b / 10 < 10 && a % 10 < 10 && b % 10 < 10);
}

/// A time key begins with its day part.
pub proof fn lemma_key_begins(grouping: TimeGrouping, time: Timestamp, i: int)
    requires
        0 <= i < part(grouping.day, time.day).len(),
    ensures
        i < grouping.label(time).len(),
        grouping.label(time)[i] == part(grouping.day, time.day)[i],
{
    let day = part(grouping.day, time.day);
    let l1 = day + seq!['.'];
    let l2 = l1 + part(grouping.month, time.month);
    let l3 = l2 + seq!['.'];
    let l4 = l3 + year_part(grouping.year, time.year);
    let l5 = l4 + seq![' '];
    let l6 = l5 + part(grouping.hour, time.hour);
    let l7 = l6 + seq![':'];
    let l8 = l7 + part(grouping.minute, time.minute);
    let l9 = l8 + seq![':'];
    let l10 = l9 + part(grouping.second, time.second);
    assert(l1[i] == day[i]);
    assert(l2[i] == l1[i]);
    assert(l3[i] == l2[i]);
    assert(l4[i] == l3[i]);
    assert(l5[i] == l4[i]);
    assert(l6[i] == l5[i]);
    assert(l7[i] == l6[i]);
    assert(l8[i] == l7[i]);
    assert(l9[i] == l8[i]);
    assert(l10[i] == l9[i]);
    assert(grouping.label(time) == l10);
}

/// Where the grouping shows the day, timestamps on different days of the
/// month have different keys.
pub proof fn lemma_days_split(grouping: TimeGrouping, a: Timestamp, b: Timestamp)
    requires
        grouping.day,
        a.wf(),
        b.wf(),
        a.day != b.day,
    ensures
        grouping.label(a) != grouping.label(b),
{
    lemma_two_digits_differ(a.day as nat, b.day as nat);
    lemma_key_begins(grouping, a, 0);
    lemma_key_begins(grouping, a, 1);
    lemma_key_begins(grouping, b, 0);
    lemma_key_begins(grouping, b, 1);
}

/// The records of all groups, group after group.
pub open spec fn all_members<'a>(groups: Seq<Vec<&'a File>>) -> Seq<&'a File>
    decreases groups.len(),
{
    if groups.len() == 0 {
        Seq::empty()
    } else {
        all_members(groups.drop_last()) + groups.last()@
    }
}

/// The keys that come first are the keys that occur, each once.
pub proof fn lemma_first_occurrences(keys: Seq<Seq<char>>)
    ensures
        first_occurrences(keys).no_duplicates(),
        forall|key: Seq<char>| first_occurrences(keys).contains(key) <==> keys.contains(key),
    decreases keys.len(),
{
    if keys.len() > 0 {
        let rest = keys.drop_last();
        let before = first_occurrences(rest);
        lemma_first_occurrences(rest);
        assert forall|key: Seq<char>| first_occurrences(keys).contains(key) <==> keys.contains(
            key,
        ) by {
            if keys.contains(key) {
                let i = choose|i: int| 0 <= i < keys.len() && keys[i] == key;
                if i < rest.len() {
                    assert(rest[i] == key);
                    assert(rest.contains(key));
                    assert(before.contains(key));
                    let at = choose|at: int| 0 <= at < before.len() && before[at] == key;
                    assert(first_occurrences(keys)[at] == key);
                } else if !before.contains(key) {
                    assert(first_occurrences(keys)[before.len() as int] == key);
                } else {
                    let at = choose|at: int| 0 <= at < before.len() && before[at] == key;
                    assert(first_occurrences(keys)[at] == key);
                }
            }
            if first_occurrences(keys).contains(key) {
                let at = choose|at: int|
                    0 <= at < first_occurrences(keys).len() && first_occurrences(keys)[at] == key;
                if at < before.len() {
                    assert(before[at] == key);
                    assert(before.contains(key));
                    assert(rest.contains(key));
                    let i = choose|i: int| 0 <= i < rest.len() && rest[i] == key;
                    assert(keys[i] == key);
                } else {
                    assert(keys[keys.len() - 1] == key);
                }
            }
        }
    }
}

/// A record occurs among the records with the key `key` as often as among
/// all records if `key` is its key, and not at all if it is not.
pub proof fn lemma_members_count<'a>(
    files: Seq<&'a File>,
    operator: GroupingOperator,
    key: Seq<char>,
    file: &'a File,
)
    ensures
        files.filter(operator.member_of(key)).to_multiset().count(file) == if operator.key(*file)
            == key {
            files.to_multiset().count(file)
        } else {
            0
        },
    decreases files.len(),
{
    reveal(Seq::filter);
    let test = operator.member_of(key);
    if files.len() == 0 {
        assert(files.to_multiset().count(file) == 0) by {
            to_multiset_contains(files, file);
        }
    } else {
        let rest = files.drop_last();
        lemma_members_count(rest, operator, key, file);
        assert(files == rest.push(files.last()));
        to_multiset_build(rest, files.last());
        if test(files.last()) {
            to_multiset_build(rest.filter(test), files.last());
        }
    }
}

/// Grouping partitions the records: the groups together hold the records that
/// were grouped, each as often as it was given; every record of a group has
/// the key of its group; and no record stands in two groups.
pub proof fn lemma_groups_partition<'a>(
    groups: Table<Vec<&'a File>>,
    files: Seq<&'a File>,
    operator: GroupingOperator,
)
    requires
        is_grouping(groups, files, operator),
    ensures
        all_members(groups.values()).to_multiset() == files.to_multiset(),
        all_members(groups.values()).len() == files.len(),
        forall|g: int, i: int|
            0 <= g < groups.values().len() && 0 <= i < groups.values()[g]@.len() ==> operator.key(
                *#[trigger] groups.values()[g]@[i],
            ) == groups.keys()[g],
        forall|g: int, h: int, file: &'a File|
            0 <= g < h < groups.values().len() ==> !(#[trigger] groups.values()[g]@.contains(file)
                && #[trigger] groups.values()[h]@.contains(file)),
{
    let keys = groups.keys();
    let values = groups.values();
    lemma_first_occurrences(keys_of(files, operator));
    assert forall|g: int, i: int|
        0 <= g < values.len() && 0 <= i < values[g]@.len() implies operator.key(
        *#[trigger] values[g]@[i],
    ) == keys[g] by {
        files.lemma_filter_pred(operator.member_of(keys[g]), i);
    }
    assert forall|g: int, h: int, file: &'a File| 0 <= g < h < values.len() implies !(
    #[trigger] values[g]@.contains(file) && #[trigger] values[h]@.contains(file)) by {
        if values[g]@.contains(file) && values[h]@.contains(file) {
            let i = choose|i: int| 0 <= i < values[g]@.len() && values[g]@[i] == file;
            let j = choose|j: int| 0 <= j < values[h]@.len() && values[h]@[j] == file;
            assert(operator.key(*values[g]@[i]) == keys[g]);
            assert(operator.key(*values[h]@[j]) == keys[h]);
        }
    }
    assert forall|file: &'a File|
        all_members(values).to_multiset().count(file) == files.to_multiset().count(file) by {
        lemma_prefix_count(groups, files, operator, values.len() as int, file);
        assert(keys.take(keys.len() as int) == keys);
        assert(values.take(values.len() as int) == values);
        if !keys.contains(operator.key(*file)) {
            to_multiset_contains(files, file);
            if files.contains(file) {
                let i = choose|i: int| 0 <= i < files.len() && files[i] == file;
                assert(keys_of(files, operator)[i] == operator.key(*file));
                assert(keys_of(files, operator).contains(operator.key(*file)));
            }
        }
    }
    assert(all_members(values).to_multiset() =~= files.to_multiset());
    all_members(values).to_multiset_ensures();
    files.to_multiset_ensures();
}

/// Among the records of the first `upto` groups, a record occurs as often as
/// among all records if its key is one of their keys, and not at all if it is
/// not.
proof fn lemma_prefix_count<'a>(
    groups: Table<Vec<&'a File>>,
    files: Seq<&'a File>,
    operator: GroupingOperator,
    upto: int,
    file: &'a File,
)
    requires
        is_grouping(groups, files, operator),
        0 <= upto <= groups.values().len(),
    ensures
        all_members(groups.values().take(upto)).to_multiset().count(file) == if groups.keys().take(
            upto,
        ).contains(operator.key(*file)) {
            files.to_multiset().count(file)
        } else {
            0
        },
    decreases upto,
{
    let keys = groups.keys();
    let values = groups.values();
    if upto == 0 {
        assert(all_members(values.take(0)) == Seq::<&File>::empty());
        to_multiset_contains(all_members(values.take(0)), file);
    } else {
        let g = upto - 1;
        lemma_prefix_count(groups, files, operator, g, file);
        assert(values.take(upto).drop_last() == values.take(g));
        assert(values.take(upto).last() == values[g]);
        lemma_multiset_commutative(all_members(values.take(g)), values[g]@);
        lemma_members_count(files, operator, keys[g], file);
        assert(keys.take(upto) == keys.take(g).push(keys[g]));
        if keys.take(g).contains(operator.key(*file)) {
            let at = choose|at: int| 0 <= at < g && keys.take(g)[at] == operator.key(*file);
            assert(keys[at] == operator.key(*file));
            assert(keys.take(upto)[at] == operator.key(*file));
        } else if operator.key(*file) == keys[g] {
            assert(keys.take(upto)[g] == operator.key(*file));
        } else {
            if keys.take(upto).contains(operator.key(*file)) {
                let at = choose|at: int|
                    0 <= at < upto && keys.take(upto)[at] == operator.key(*file);
                if at < g {
                    assert(keys.take(g)[at] == operator.key(*file));
                }
            }
        }
    }
}

} // verus!
