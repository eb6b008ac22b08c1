use file_query::file::{File, Timestamp};
use file_query::table::Table;
use file_query::utilities::aggregate::{
    aggregate, average_of, avg, count, count_of, max, max_of, min, min_of, sum, sum_of,
    AggregateFunction, AggregateValue, ArithmeticAggregator, Average, ComparingAggregator,
};
use file_query::utilities::group::{group, GroupingOperator};
use std::cmp::Ordering;

fn dt(secs: i64) -> Timestamp {
    Timestamp::from_unix(secs, 0).unwrap()
}

fn sample_files() -> Vec<File> {
    let now = dt(1_000_000);
    let earlier = dt(1_000_000 - 3600);
    let oldest = dt(1_000_000 - 7200);

    vec![
        File {
            name: "file1.txt".to_string(),
            extension: "txt".to_string(),
            size: 1000,
            modified: now,
            accessed: now,
            created: now,
            file_type: "file".to_string(),
        },
        File {
            name: "file2.rs".to_string(),
            extension: "rs".to_string(),
            size: 2048,
            modified: earlier,
            accessed: earlier,
            created: earlier,
            file_type: "file".to_string(),
        },
        File {
            name: "file3.txt".to_string(),
            extension: "txt".to_string(),
            size: 4096,
            modified: oldest,
            accessed: oldest,
            created: oldest,
            file_type: "file".to_string(),
        },
    ]
}

fn named(name: &str, size: u64) -> File {
    File {
        name: name.to_string(),
        extension: "".to_string(),
        size,
        modified: dt(0),
        accessed: dt(0),
        created: dt(0),
        file_type: "File".to_string(),
    }
}

fn group_by_ext(files: &[File]) -> Table<Vec<&File>> {
    let mut map: Table<Vec<&File>> = Table::new();
    for file in files {
        if !map.contains_key(&file.extension) {
            let members: Vec<&File> =
                files.iter().filter(|other| other.extension == file.extension).collect();
            map = map.with(file.extension.clone(), members);
        }
    }
    map
}

fn mean(average: &Average) -> f64 {
    average.total() as f64 / average.count() as f64
}

#[test]
fn test_max_size() {
    let files = sample_files();
    let grouped = group_by_ext(&files);
    let max_map = max(&grouped, ComparingAggregator::Size);
    assert_eq!(max_map.get("txt").unwrap().unwrap().size, 4096);
    assert_eq!(max_map.get("rs").unwrap().unwrap().size, 2048);
}

#[test]
fn test_min_size() {
    let files = sample_files();
    let grouped = group_by_ext(&files);
    let min_map = min(&grouped, ComparingAggregator::Size);
    assert_eq!(min_map.get("txt").unwrap().unwrap().size, 1000);
    assert_eq!(min_map.get("rs").unwrap().unwrap().size, 2048);
}

#[test]
fn test_sum_size() {
    let files = sample_files();
    let grouped = group_by_ext(&files);
    let sum_map = sum(&grouped, ArithmeticAggregator::Size);
    assert_eq!(*sum_map.get("txt").unwrap(), 1000 + 4096);
    assert_eq!(*sum_map.get("rs").unwrap(), 2048);
}

#[test]
fn test_average_size() {
    let files = sample_files();
    let grouped = group_by_ext(&files);
    let avg_map = avg(&grouped, ArithmeticAggregator::Size);
    let txt = avg_map.get("txt").unwrap().unwrap();
    let rs = avg_map.get("rs").unwrap().unwrap();
    assert!((mean(&txt) - ((1000.0 + 4096.0) / 2.0)).abs() < 1e-6);
    assert!((mean(&rs) - 2048.0).abs() < 1e-6);
}

#[test]
fn test_count() {
    let files = sample_files();
    let grouped = group_by_ext(&files);
    let count_map = count(&grouped);
    assert_eq!(*count_map.get("txt").unwrap(), 2);
    assert_eq!(*count_map.get("rs").unwrap(), 1);
}

#[test]
fn test_average_empty_group() {
    let grouped: Table<Vec<&File>> = Table::new();
    let avg_map = avg(&grouped, ArithmeticAggregator::Size);
    assert!(avg_map.is_empty());
}

#[test]
fn no_records_have_a_count_and_a_sum_but_no_mean_and_no_extreme() {
    let none: Vec<&File> = Vec::new();
    assert_eq!(count_of(&none), 0);
    assert_eq!(sum_of(&none, ArithmeticAggregator::Size), 0);
    assert!(average_of(&none, ArithmeticAggregator::Size).is_none());
    assert!(max_of(&none, ComparingAggregator::Size).is_none());
    assert!(min_of(&none, ComparingAggregator::Modified).is_none());
    assert!(Average::new(0, 0).is_none());
}

#[test]
fn a_group_without_records_keeps_its_key() {
    let groups: Table<Vec<&File>> = Table::new().with("empty".to_string(), Vec::new());
    assert_eq!(*count(&groups).get("empty").unwrap(), 0);
    assert_eq!(*sum(&groups, ArithmeticAggregator::Size).get("empty").unwrap(), 0);
    assert!(avg(&groups, ArithmeticAggregator::Size).get("empty").unwrap().is_none());
    assert!(max(&groups, ComparingAggregator::Size).get("empty").unwrap().is_none());
    assert!(min(&groups, ComparingAggregator::Size).get("empty").unwrap().is_none());
}

#[test]
fn a_mean_of_zero_is_not_an_absent_mean() {
    let file = named("empty", 0);
    let one = vec![&file];
    let mean = average_of(&one, ArithmeticAggregator::Size).unwrap();
    assert_eq!(mean.total(), 0);
    assert_eq!(mean.count(), 1);
    assert_eq!(mean.quotient(), 0);
}

#[test]
fn the_mean_times_the_count_is_the_sum() {
    let files = vec![named("a", 10), named("b", 11), named("c", 12), named("d", 14)];
    let refs: Vec<&File> = files.iter().collect();
    let mean = average_of(&refs, ArithmeticAggregator::Size).unwrap();
    let total = sum_of(&refs, ArithmeticAggregator::Size);
    let n = count_of(&refs);
    assert_eq!(total, 47);
    assert_eq!(n, 4);
    assert_eq!(mean.quotient(), 11);
    assert_eq!(mean.remainder(), 3);
    assert_eq!(mean.quotient() * n as u128 + mean.remainder(), total);
    let ratio = mean.total() as f64 / mean.count() as f64;
    assert!((ratio * n as f64 - total as f64).abs() < 1e-6);
}

#[test]
fn sums_do_not_wrap() {
    let files = vec![named("a", u64::MAX), named("b", u64::MAX), named("c", 2)];
    let refs: Vec<&File> = files.iter().collect();
    assert_eq!(sum_of(&refs, ArithmeticAggregator::Size), 2 * (u64::MAX as u128) + 2);
    let mean = average_of(&refs, ArithmeticAggregator::Size).unwrap();
    assert_eq!(mean.quotient(), 12297829382473034410);
    assert_eq!(mean.remainder(), 2);
}

#[test]
fn of_equally_great_records_the_last_is_the_greatest_and_the_first_the_least() {
    let files = vec![named("a", 5), named("b", 9), named("c", 9), named("d", 5)];
    let refs: Vec<&File> = files.iter().collect();
    assert_eq!(max_of(&refs, ComparingAggregator::Size).unwrap().name, "c");
    assert_eq!(min_of(&refs, ComparingAggregator::Size).unwrap().name, "a");
}

#[test]
fn extremes_by_time() {
    let files = sample_files();
    let refs: Vec<&File> = files.iter().collect();
    assert_eq!(max_of(&refs, ComparingAggregator::Modified).unwrap().name, "file1.txt");
    assert_eq!(min_of(&refs, ComparingAggregator::Accessed).unwrap().name, "file3.txt");
    assert_eq!(min_of(&refs, ComparingAggregator::Created).unwrap().name, "file3.txt");
}

#[test]
fn records_compare_by_the_chosen_field() {
    let files = sample_files();
    let by_size = ComparingAggregator::Size;
    let by_time = ComparingAggregator::Modified;
    assert_eq!(by_size.compare(&files[0], &files[1]), Ordering::Less);
    assert_eq!(by_size.compare(&files[2], &files[1]), Ordering::Greater);
    assert_eq!(by_size.compare(&files[1], &files[1]), Ordering::Equal);
    assert_eq!(by_time.compare(&files[0], &files[1]), Ordering::Greater);
    assert_eq!(ComparingAggregator::Accessed.compare(&files[2], &files[1]), Ordering::Less);
    assert_eq!(ComparingAggregator::Created.compare(&files[2], &files[2]), Ordering::Equal);
    assert!(by_size.precedes(&files[0], &files[1]));
    assert!(!by_size.precedes(&files[1], &files[0]));
}

#[test]
fn counts_agree_with_the_groups_of_the_grouper() {
    let files = sample_files();
    let refs: Vec<&File> = files.iter().collect();
    let groups = group(&refs, GroupingOperator::Extension);
    let counts = count(&groups);
    assert_eq!(counts.len(), groups.len());
    for g in 0..groups.len() {
        assert_eq!(counts.key_at(g), groups.key_at(g));
        assert_eq!(*counts.value_at(g), groups.value_at(g).len() as u64);
    }
}

#[test]
fn end_to_end_group_by_extension_then_sum_and_count() {
    let files = sample_files();
    let refs: Vec<&File> = files.iter().collect();
    let groups = group(&refs, GroupingOperator::Extension);
    let sums = sum(&groups, ArithmeticAggregator::Size);
    assert_eq!(sums.len(), 2);
    assert_eq!(*sums.get("txt").unwrap(), 5096);
    assert_eq!(*sums.get("rs").unwrap(), 2048);
    let counts = count(&groups);
    assert_eq!(counts.len(), 2);
    assert_eq!(*counts.get("txt").unwrap(), 2);
    assert_eq!(*counts.get("rs").unwrap(), 1);
}

#[test]
fn evaluate_dispatches_on_the_function() {
    let files = sample_files();
    let refs: Vec<&File> = files.iter().collect();
    assert_eq!(AggregateFunction::Count.evaluate(&refs), AggregateValue::Count(3));
    assert_eq!(
        AggregateFunction::Sum(ArithmeticAggregator::Size).evaluate(&refs),
        AggregateValue::Sum(7144)
    );
    assert_eq!(
        AggregateFunction::Avg(ArithmeticAggregator::Size).evaluate(&refs),
        AggregateValue::Average(Average::new(7144, 3))
    );
    assert_eq!(
        AggregateFunction::Max(ComparingAggregator::Size).evaluate(&refs),
        AggregateValue::Max(Some(&files[2]))
    );
    assert_eq!(
        AggregateFunction::Min(ComparingAggregator::Size).evaluate(&refs),
        AggregateValue::Min(Some(&files[0]))
    );
}

#[test]
fn aggregate_evaluates_each_group() {
    let files = sample_files();
    let groups = group_by_ext(&files);
    let results = aggregate(&groups, AggregateFunction::Max(ComparingAggregator::Size));
    assert_eq!(results.get("txt").unwrap(), &AggregateValue::Max(Some(&files[2])));
    assert_eq!(results.get("rs").unwrap(), &AggregateValue::Max(Some(&files[1])));
}

#[test]
fn aggregator_names() {
    assert_eq!(ComparingAggregator::Size.name(), "Size");
    assert_eq!(ComparingAggregator::Modified.name(), "Modified");
    assert_eq!(ComparingAggregator::Accessed.name(), "Accessed");
    assert_eq!(ComparingAggregator::Created.name(), "Created");
    assert_eq!(ArithmeticAggregator::Size.name(), "Size");
}
