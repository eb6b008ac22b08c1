use file_query::calendar::{read_instant, settle, CivilDate, CivilTime, ClockTime, TimeReading};
use file_query::cli::WhereCondition;
use file_query::decimal::parse_u64;
use file_query::error::{Cause, ErrorKind, QueryError};
use file_query::file::Timestamp;
use file_query::text::{chars_of, normalise, same_text, split, string_of};
use file_query::utilities::aggregate::{
    AggregateFunction, ArithmeticAggregator, ComparingAggregator,
};
use file_query::utilities::filter::{Comparison, Predicate};
use file_query::utilities::group::{GroupingOperator, SizeMagnitude, TimeGrouping};
use file_query::utilities::Comparison as Wide;
use file_query::utilities::{AggrFunc, Field};

fn chars(s: &str) -> Vec<char> {
    s.chars().collect()
}

fn failure<T: std::fmt::Debug>(r: Result<T, QueryError>) -> (Cause, String) {
    let e = r.unwrap_err();
    (e.cause, e.detail)
}

fn mask(year: bool, month: bool, day: bool, hour: bool, minute: bool, second: bool) -> TimeGrouping {
    TimeGrouping { year, month, day, hour, minute, second }
}

#[test]
fn strings_and_characters_convert_both_ways() {
    assert_eq!(chars_of("héllo"), vec!['h', 'é', 'l', 'l', 'o']);
    assert_eq!(chars_of(""), Vec::<char>::new());
    assert_eq!(string_of(&vec!['a', 'ß', 'c']), "aßc");
    assert_eq!(string_of(&Vec::new()), "");
    assert!(same_text("abc", "abc"));
    assert!(!same_text("abc", "abd"));
    assert!(!same_text("abc", "ab"));
}

#[test]
fn split_cuts_at_the_separator_up_to_a_limit() {
    let parts = |s: &str, limit: usize| -> Vec<String> {
        split(&chars(s), ',', limit).iter().map(|p| p.iter().collect()).collect()
    };
    assert_eq!(parts("a,b,c", 3), vec!["a", "b", "c"]);
    assert_eq!(parts("a,b,c,d", 3), vec!["a", "b", "c,d"]);
    assert_eq!(parts("a,b", 3), vec!["a", "b"]);
    assert_eq!(parts("abc", 3), vec!["abc"]);
    assert_eq!(parts("", 3), vec![""]);
    assert_eq!(parts(",", 3), vec!["", ""]);
    assert_eq!(parts("a,,b", 3), vec!["a", "", "b"]);
    assert_eq!(parts("a,b,c", 1), vec!["a,b,c"]);
    assert_eq!(parts("a,b,c", 0), Vec::<String>::new());
    assert_eq!(parts("a,b,", 7), vec!["a", "b", ""]);
}

#[test]
fn normalise_trims_and_lowers() {
    assert_eq!(normalise(&chars("  SiZe \t")), "size");
    assert_eq!(normalise(&chars("GT")), "gt");
    assert_eq!(normalise(&chars("   ")), "");
    assert_eq!(normalise(&chars("a b")), "a b");
}

#[test]
fn unsigned_literals() {
    assert_eq!(parse_u64(&chars("0")), Some(0));
    assert_eq!(parse_u64(&chars("15")), Some(15));
    assert_eq!(parse_u64(&chars("+15")), Some(15));
    assert_eq!(parse_u64(&chars("0015")), Some(15));
    assert_eq!(parse_u64(&chars("18446744073709551615")), Some(u64::MAX));
    assert_eq!(parse_u64(&chars("18446744073709551616")), None);
    assert_eq!(parse_u64(&chars("99999999999999999999999")), None);
    assert_eq!(parse_u64(&chars("")), None);
    assert_eq!(parse_u64(&chars("+")), None);
    assert_eq!(parse_u64(&chars("-1")), None);
    assert_eq!(parse_u64(&chars("1_000")), None);
    assert_eq!(parse_u64(&chars(" 1")), None);
    assert_eq!(parse_u64(&chars("12a")), None);
    assert_eq!(parse_u64(&chars("++1")), None);
}

#[test]
fn comparison_names() {
    assert_eq!(Comparison::from_str("eq"), Ok(Comparison::Eq));
    assert_eq!(Comparison::from_str("Equal"), Ok(Comparison::Eq));
    assert_eq!(Comparison::from_str("EQUALS"), Ok(Comparison::Eq));
    assert_eq!(Comparison::from_str("ne"), Ok(Comparison::Ne));
    assert_eq!(Comparison::from_str("not_equal"), Ok(Comparison::Ne));
    assert_eq!(Comparison::from_str("neq"), Ok(Comparison::Ne));
    assert_eq!(Comparison::from_str("gt"), Ok(Comparison::Gt));
    assert_eq!(Comparison::from_str("greater"), Ok(Comparison::Gt));
    assert_eq!(Comparison::from_str("greater_than"), Ok(Comparison::Gt));
    assert_eq!(Comparison::from_str("ge"), Ok(Comparison::Ge));
    assert_eq!(Comparison::from_str("gte"), Ok(Comparison::Ge));
    assert_eq!(Comparison::from_str("greater_equal"), Ok(Comparison::Ge));
    assert_eq!(Comparison::from_str("lt"), Ok(Comparison::Lt));
    assert_eq!(Comparison::from_str("less"), Ok(Comparison::Lt));
    assert_eq!(Comparison::from_str("less_than"), Ok(Comparison::Lt));
    assert_eq!(Comparison::from_str("le"), Ok(Comparison::Le));
    assert_eq!(Comparison::from_str("lte"), Ok(Comparison::Le));
    assert_eq!(Comparison::from_str("less_equal"), Ok(Comparison::Le));
    assert_eq!(
        failure(Comparison::from_str("contains")),
        (Cause::InvalidComparison, "contains".to_string())
    );
    assert_eq!(failure(Comparison::from_str("=")), (Cause::InvalidComparison, "=".to_string()));
}

#[test]
fn wide_comparison_names() {
    assert_eq!(Wide::from_str("EQ"), Ok(Wide::Eq));
    assert_eq!(Wide::from_str("neq"), Ok(Wide::Ne));
    assert_eq!(Wide::from_str("greater"), Ok(Wide::Gt));
    assert_eq!(Wide::from_str("gte"), Ok(Wide::Ge));
    assert_eq!(Wide::from_str("less_than"), Ok(Wide::Lt));
    assert_eq!(Wide::from_str("le"), Ok(Wide::Le));
    assert_eq!(Wide::from_str("contains"), Ok(Wide::Contains));
    assert_eq!(Wide::from_str("starts_with"), Ok(Wide::StartsWith));
    assert_eq!(Wide::from_str("StartsWith"), Ok(Wide::StartsWith));
    assert_eq!(Wide::from_str("ends_with"), Ok(Wide::EndsWith));
    assert_eq!(Wide::from_str("endswith"), Ok(Wide::EndsWith));
    assert_eq!(failure(Wide::from_str("like")), (Cause::InvalidComparison, "like".to_string()));
    assert_eq!(Comparison::narrow(Wide::Ge), Some(Comparison::Ge));
    assert_eq!(Comparison::narrow(Wide::Contains), None);
    assert_eq!(Comparison::narrow(Wide::StartsWith), None);
    assert_eq!(Comparison::narrow(Wide::EndsWith), None);
}

#[test]
fn field_names() {
    assert_eq!(Field::from_str("name"), Ok(Field::Name));
    assert_eq!(Field::from_str("N"), Ok(Field::Name));
    assert_eq!(Field::from_str("ext"), Ok(Field::Extension));
    assert_eq!(Field::from_str("Size"), Ok(Field::Size));
    assert_eq!(Field::from_str("mod"), Ok(Field::Modified));
    assert_eq!(Field::from_str("a"), Ok(Field::Accessed));
    assert_eq!(Field::from_str("cre"), Ok(Field::Created));
    assert_eq!(Field::from_str("file_type"), Ok(Field::FileType));
    assert_eq!(Field::from_str("type"), Ok(Field::FileType));
    assert_eq!(failure(Field::from_str("owner")), (Cause::InvalidField, "owner".to_string()));
    assert!(Field::Modified.holds_time());
    assert!(Field::Accessed.holds_time());
    assert!(Field::Created.holds_time());
    assert!(!Field::Size.holds_time());
}

#[test]
fn predicates_on_text_fields() {
    assert_eq!(Predicate::from_str("name,eq,report"), Ok(Predicate::Name("report".to_string())));
    assert_eq!(Predicate::from_str("n,report"), Ok(Predicate::Name("report".to_string())));
    assert_eq!(
        Predicate::from_str(" Name , EQ , Re.*\\.TXT "),
        Ok(Predicate::Name("re.*\\.txt".to_string()))
    );
    assert_eq!(Predicate::from_str("ext,eq,rs"), Ok(Predicate::Extension("rs".to_string())));
    assert_eq!(Predicate::from_str("e,rs"), Ok(Predicate::Extension("rs".to_string())));
    assert_eq!(
        Predicate::from_str("type,equals,directory"),
        Ok(Predicate::FileType("directory".to_string()))
    );
    assert_eq!(
        Predicate::from_str("name,eq,a,b"),
        Ok(Predicate::Name("a,b".to_string()))
    );
}

#[test]
fn predicates_on_size() {
    assert_eq!(Predicate::from_str("size,gt,15"), Ok(Predicate::Size(15, Comparison::Gt)));
    assert_eq!(Predicate::from_str("s,15"), Ok(Predicate::Size(15, Comparison::Eq)));
    assert_eq!(Predicate::from_str("SIZE, LTE , 7 "), Ok(Predicate::Size(7, Comparison::Le)));
    assert_eq!(
        failure(Predicate::from_str("size,gt,big")),
        (Cause::InvalidSize, "big".to_string())
    );
    assert_eq!(failure(Predicate::from_str("size,gt,-1")), (Cause::InvalidSize, "-1".to_string()));
    assert_eq!(failure(Predicate::from_str("size,gt,")), (Cause::InvalidSize, "".to_string()));
}

#[test]
fn predicates_that_are_refused() {
    assert_eq!(failure(Predicate::from_str("size")), (Cause::PredicateFormat, "size".to_string()));
    assert_eq!(failure(Predicate::from_str("")), (Cause::PredicateFormat, "".to_string()));
    assert_eq!(
        failure(Predicate::from_str("size,about,5")),
        (Cause::InvalidOperator, "about".to_string())
    );
    assert_eq!(
        failure(Predicate::from_str("size,contains,5")),
        (Cause::InvalidOperator, "contains".to_string())
    );
    assert_eq!(
        failure(Predicate::from_str("name,gt,report")),
        (Cause::InvalidPredicate, "name,gt,report".to_string())
    );
    assert_eq!(
        failure(Predicate::from_str("owner,eq,me")),
        (Cause::InvalidPredicate, "owner,eq,me".to_string())
    );
    assert_eq!(
        failure(Predicate::from_str("ext,ne,rs")),
        (Cause::InvalidPredicate, "ext,ne,rs".to_string())
    );
}

#[test]
fn predicates_on_time_read_full_literals() {
    match Predicate::from_str("modified,gt,01.02.2024 10:30") {
        Ok(Predicate::Modified(time, comparison)) => {
            assert_eq!(comparison, Comparison::Gt);
            assert_eq!(
                (time.year, time.month, time.day, time.hour, time.minute, time.second),
                (2024, 2, 1, 10, 30, 0)
            );
        }
        other => panic!("unexpected: {:?}", other),
    }
    assert!(matches!(
        Predicate::from_str("acc,le,31.12.1999 23:59"),
        Ok(Predicate::Accessed(_, Comparison::Le))
    ));
    assert!(matches!(
        Predicate::from_str("c,31.12.1999 23:59"),
        Ok(Predicate::Created(_, Comparison::Eq))
    ));
}

#[test]
fn predicates_on_time_read_time_only_literals() {
    match Predicate::from_str("modified,lt,10:30") {
        Ok(Predicate::Modified(time, Comparison::Lt)) => {
            assert_eq!((time.hour, time.minute, time.second), (10, 30, 0));
            let now = chrono::Local::now();
            let today = (chrono::Datelike::year(&now), chrono::Datelike::month(&now));
            assert_eq!((time.year, time.month), today);
        }
        other => panic!("unexpected: {:?}", other),
    }
}

#[test]
fn predicates_on_time_refuse_other_literals() {
    assert_eq!(
        failure(Predicate::from_str("modified,gt,yesterday")),
        (Cause::InvalidDateTime, "modified,gt,yesterday".to_string())
    );
    assert_eq!(
        failure(Predicate::from_str("modified,gt,2024-02-01 10:30")),
        (Cause::InvalidDateTime, "modified,gt,2024-02-01 10:30".to_string())
    );
    assert_eq!(
        failure(Predicate::from_str("created,gt,31.02.2024 10:30")),
        (Cause::InvalidDateTime, "created,gt,31.02.2024 10:30".to_string())
    );
    assert_eq!(
        failure(Predicate::from_str("accessed,gt,25:00")),
        (Cause::InvalidDateTime, "accessed,gt,25:00".to_string())
    );
}

#[test]
fn predicates_from_a_given_reading() {
    let time = Timestamp::from_unix(86_400, 0).unwrap();
    assert_eq!(
        Predicate::from_reading("modified,ge,whatever", TimeReading::Instant(time)),
        Ok(Predicate::Modified(time, Comparison::Ge))
    );
    assert_eq!(
        failure(Predicate::from_reading("modified,ge,whatever", TimeReading::Ambiguous)),
        (Cause::AmbiguousLocalTime, String::new())
    );
    assert_eq!(
        failure(Predicate::from_reading("modified,ge,whatever", TimeReading::Unreadable)),
        (Cause::InvalidDateTime, "modified,ge,whatever".to_string())
    );
    assert_eq!(
        Predicate::from_reading("size,ge,3", TimeReading::Ambiguous),
        Ok(Predicate::Size(3, Comparison::Ge))
    );
}

#[test]
fn readings_of_time_literals() {
    assert_eq!(read_instant("soon"), TimeReading::Unreadable);
    assert_eq!(read_instant(""), TimeReading::Unreadable);
    assert!(matches!(read_instant("15.06.2020 08:05"), TimeReading::Instant(_)));
    assert!(matches!(read_instant("08:05"), TimeReading::Instant(_)));
}

#[test]
fn settle_accepts_only_an_instant_that_shows_the_reading() {
    let civil = CivilTime {
        date: CivilDate { year: 2020, month: 6, day: 15 },
        time: ClockTime { hour: 8, minute: 5, second: 0, nanos: 0 },
    };
    let good =
        Timestamp { secs: 1, nanos: 0, year: 2020, month: 6, day: 15, hour: 8, minute: 5, second: 0 };
    let other_day = Timestamp { day: 16, ..good };
    let bad_month = Timestamp { month: 13, ..good };
    assert_eq!(settle(civil, Some(good)), TimeReading::Instant(good));
    assert_eq!(settle(civil, Some(other_day)), TimeReading::Ambiguous);
    assert_eq!(settle(civil, Some(bad_month)), TimeReading::Ambiguous);
    assert_eq!(settle(civil, None), TimeReading::Ambiguous);
}

#[test]
fn timestamps_from_unix_time() {
    let t = Timestamp::from_unix(1_000_000, 7).unwrap();
    assert_eq!((t.secs, t.nanos), (1_000_000, 7));
    assert!(t.is_valid());
    assert!(Timestamp::from_unix(i64::MAX, 0).is_none());
    let good =
        Timestamp { secs: 5, nanos: 0, year: 1970, month: 1, day: 1, hour: 0, minute: 0, second: 5 };
    assert_eq!(Timestamp::accept_reading(Some(good), 5, 0), Some(good));
    assert_eq!(Timestamp::accept_reading(Some(good), 6, 0), None);
    assert_eq!(Timestamp::accept_reading(Some(Timestamp { hour: 24, ..good }), 5, 0), None);
    assert_eq!(Timestamp::accept_reading(None, 5, 0), None);
}

#[test]
fn groupings_by_plain_fields() {
    assert_eq!(GroupingOperator::from_str("extension"), Ok(GroupingOperator::Extension));
    assert_eq!(GroupingOperator::from_str(" EXT "), Ok(GroupingOperator::Extension));
    assert_eq!(GroupingOperator::from_str("e,ignored"), Ok(GroupingOperator::Extension));
    assert_eq!(GroupingOperator::from_str("filetype"), Ok(GroupingOperator::FileType));
    assert_eq!(GroupingOperator::from_str("ftype"), Ok(GroupingOperator::FileType));
}

#[test]
fn groupings_by_size() {
    let size = |unit| Ok(GroupingOperator::Size(unit));
    assert_eq!(GroupingOperator::from_str("size,b"), size(SizeMagnitude::Bytes));
    assert_eq!(GroupingOperator::from_str("size,bytes"), size(SizeMagnitude::Bytes));
    assert_eq!(GroupingOperator::from_str("s, KB"), size(SizeMagnitude::Kilobytes));
    assert_eq!(GroupingOperator::from_str("size,kilobytes"), size(SizeMagnitude::Kilobytes));
    assert_eq!(GroupingOperator::from_str("size,mb"), size(SizeMagnitude::Megabytes));
    assert_eq!(GroupingOperator::from_str("size,Gigabytes"), size(SizeMagnitude::Gigabytes));
    assert_eq!(GroupingOperator::from_str("size,tb"), size(SizeMagnitude::Terabytes));
    assert_eq!(
        failure(GroupingOperator::from_str("size,pb")),
        (Cause::InvalidMagnitude, String::new())
    );
    assert_eq!(failure(GroupingOperator::from_str("size")), (Cause::GroupingFormat, String::new()));
}

#[test]
fn groupings_by_time() {
    assert_eq!(
        GroupingOperator::from_str("modified,y,m"),
        Ok(GroupingOperator::Modified(mask(true, true, false, false, false, false)))
    );
    assert_eq!(
        GroupingOperator::from_str("acc, Year , day, HOUR"),
        Ok(GroupingOperator::Accessed(mask(true, false, true, true, false, false)))
    );
    assert_eq!(
        GroupingOperator::from_str("c,min,sec"),
        Ok(GroupingOperator::Created(mask(false, false, false, false, true, true)))
    );
    assert_eq!(
        GroupingOperator::from_str("m,year,month,d,h,minute,s"),
        Ok(GroupingOperator::Modified(mask(true, true, true, true, true, true)))
    );
    assert_eq!(
        GroupingOperator::from_str("m,second"),
        Ok(GroupingOperator::Modified(mask(false, false, false, false, false, true)))
    );
    assert_eq!(
        GroupingOperator::from_str("m,nothing"),
        Ok(GroupingOperator::Modified(mask(false, false, false, false, false, false)))
    );
    // the seventh piece holds whatever is left, so a seventh and an eighth modifier are one word
    assert_eq!(
        GroupingOperator::from_str("m,x,x,x,x,x,y,d"),
        Ok(GroupingOperator::Modified(mask(false, false, false, false, false, false)))
    );
    assert_eq!(
        failure(GroupingOperator::from_str("modified")),
        (Cause::GroupingFormat, String::new())
    );
    assert_eq!(
        failure(GroupingOperator::from_str("name,y")),
        (Cause::UnsupportedGrouping, String::new())
    );
}

#[test]
fn default_groupings() {
    let by_month = mask(true, true, false, false, false, false);
    assert_eq!(GroupingOperator::default_for("extension"), Ok(GroupingOperator::Extension));
    assert_eq!(GroupingOperator::default_for("File_Type"), Ok(GroupingOperator::FileType));
    assert_eq!(
        GroupingOperator::default_for("size"),
        Ok(GroupingOperator::Size(SizeMagnitude::Bytes))
    );
    assert_eq!(
        GroupingOperator::default_for("modified"),
        Ok(GroupingOperator::Modified(by_month))
    );
    assert_eq!(
        GroupingOperator::default_for("ACCESSED"),
        Ok(GroupingOperator::Accessed(by_month))
    );
    assert_eq!(GroupingOperator::default_for("created"), Ok(GroupingOperator::Created(by_month)));
    assert_eq!(
        failure(GroupingOperator::default_for("Name")),
        (Cause::UnsupportedGrouping, String::new())
    );
    assert_eq!(
        failure(GroupingOperator::default_for("ext")),
        (Cause::InvalidField, "ext".to_string())
    );
}

#[test]
fn aggregate_functions_from_text() {
    let size = ArithmeticAggregator::Size;
    assert_eq!(AggregateFunction::from_str("count"), Ok(AggregateFunction::Count));
    assert_eq!(AggregateFunction::from_str("C"), Ok(AggregateFunction::Count));
    assert_eq!(AggregateFunction::from_str("sum"), Ok(AggregateFunction::Sum(size)));
    assert_eq!(AggregateFunction::from_str("s,anything"), Ok(AggregateFunction::Sum(size)));
    assert_eq!(AggregateFunction::from_str("Average"), Ok(AggregateFunction::Avg(size)));
    assert_eq!(AggregateFunction::from_str("avg"), Ok(AggregateFunction::Avg(size)));
    assert_eq!(AggregateFunction::from_str("a"), Ok(AggregateFunction::Avg(size)));
    assert_eq!(
        AggregateFunction::from_str("max,size"),
        Ok(AggregateFunction::Max(ComparingAggregator::Size))
    );
    assert_eq!(
        AggregateFunction::from_str("MAX,Mod"),
        Ok(AggregateFunction::Max(ComparingAggregator::Modified))
    );
    assert_eq!(
        AggregateFunction::from_str("min,a"),
        Ok(AggregateFunction::Min(ComparingAggregator::Accessed))
    );
    assert_eq!(
        AggregateFunction::from_str("min,created"),
        Ok(AggregateFunction::Min(ComparingAggregator::Created))
    );
    assert_eq!(
        failure(AggregateFunction::from_str("max")),
        (Cause::MissingArgument, "max".to_string())
    );
    assert_eq!(
        failure(AggregateFunction::from_str("Min")),
        (Cause::MissingArgument, "min".to_string())
    );
    assert_eq!(
        failure(AggregateFunction::from_str("max,name")),
        (Cause::UnknownAggregator, "name".to_string())
    );
    assert_eq!(
        failure(AggregateFunction::from_str("max, size")),
        (Cause::UnknownAggregator, " size".to_string())
    );
    assert_eq!(
        failure(AggregateFunction::from_str("median,size")),
        (Cause::UnknownAggregate, "median,size".to_string())
    );
}

#[test]
fn comparing_aggregators_from_text() {
    assert_eq!(ComparingAggregator::from_str("size"), Ok(ComparingAggregator::Size));
    assert_eq!(ComparingAggregator::from_str("S"), Ok(ComparingAggregator::Size));
    assert_eq!(ComparingAggregator::from_str("m"), Ok(ComparingAggregator::Modified));
    assert_eq!(ComparingAggregator::from_str("Acc"), Ok(ComparingAggregator::Accessed));
    assert_eq!(ComparingAggregator::from_str("cre"), Ok(ComparingAggregator::Created));
    assert_eq!(
        failure(ComparingAggregator::from_str("ext")),
        (Cause::UnknownAggregator, "ext".to_string())
    );
}

#[test]
fn aggregate_functions_from_the_command_line() {
    let size = vec!["size".to_string()];
    let none: Vec<String> = Vec::new();
    assert_eq!(AggregateFunction::resolve(AggrFunc::Count, &none), Ok(AggregateFunction::Count));
    assert_eq!(AggregateFunction::resolve(AggrFunc::Count, &size), Ok(AggregateFunction::Count));
    assert_eq!(
        AggregateFunction::resolve(AggrFunc::Sum, &size),
        Ok(AggregateFunction::Sum(ArithmeticAggregator::Size))
    );
    assert_eq!(
        AggregateFunction::resolve(AggrFunc::Avg, &size),
        Ok(AggregateFunction::Avg(ArithmeticAggregator::Size))
    );
    assert_eq!(
        AggregateFunction::resolve(AggrFunc::Max, &size),
        Ok(AggregateFunction::Max(ComparingAggregator::Size))
    );
    assert_eq!(
        AggregateFunction::resolve(AggrFunc::Min, &vec!["Modified".to_string()]),
        Ok(AggregateFunction::Min(ComparingAggregator::Modified))
    );
    assert_eq!(
        failure(AggregateFunction::resolve(AggrFunc::Sum, &none)),
        (Cause::MissingArgument, "sum".to_string())
    );
    assert_eq!(
        failure(AggregateFunction::resolve(AggrFunc::Avg, &none)),
        (Cause::MissingArgument, "avg".to_string())
    );
    assert_eq!(
        failure(AggregateFunction::resolve(AggrFunc::Max, &none)),
        (Cause::MissingArgument, "max".to_string())
    );
    assert_eq!(
        failure(AggregateFunction::resolve(AggrFunc::Sum, &vec!["modified".to_string()])),
        (Cause::UnsupportedParameter, "modified".to_string())
    );
    assert_eq!(
        failure(AggregateFunction::resolve(AggrFunc::Avg, &vec!["Size".to_string()])),
        (Cause::UnsupportedParameter, "Size".to_string())
    );
    assert_eq!(
        failure(AggregateFunction::resolve(AggrFunc::Min, &vec!["name".to_string()])),
        (Cause::UnknownAggregator, "name".to_string())
    );
}

#[test]
fn where_conditions() {
    assert_eq!(
        WhereCondition::parse("size,gt,123"),
        Ok(WhereCondition { field: Field::Size, operator: Wide::Gt, value: "123".to_string() })
    );
    assert_eq!(
        WhereCondition::parse("Name,Contains,a,b, C"),
        Ok(WhereCondition {
            field: Field::Name,
            operator: Wide::Contains,
            value: "a,b, C".to_string()
        })
    );
    assert_eq!(
        failure(WhereCondition::parse("size,gt")),
        (Cause::ConditionFormat, "size,gt".to_string())
    );
    assert_eq!(failure(WhereCondition::parse("")), (Cause::ConditionFormat, "".to_string()));
    assert_eq!(
        failure(WhereCondition::parse("owner,eq,me")),
        (Cause::InvalidField, "owner".to_string())
    );
    assert_eq!(
        failure(WhereCondition::parse(" size,eq,1")),
        (Cause::InvalidField, " size".to_string())
    );
    assert_eq!(
        failure(WhereCondition::parse("size,above,1")),
        (Cause::InvalidOperator, "above".to_string())
    );
}

#[test]
fn where_conditions_become_predicates() {
    let to_predicate = |text: &str| WhereCondition::parse(text).unwrap().to_predicate();
    assert_eq!(to_predicate("size,ge,10"), Ok(Predicate::Size(10, Comparison::Ge)));
    assert_eq!(to_predicate("name,eq,Re.*"), Ok(Predicate::Name("Re.*".to_string())));
    assert_eq!(to_predicate("extension,eq,rs"), Ok(Predicate::Extension("rs".to_string())));
    assert_eq!(to_predicate("file_type,eq,File"), Ok(Predicate::FileType("File".to_string())));
    assert!(matches!(
        to_predicate("modified,lt,01.02.2024 10:30"),
        Ok(Predicate::Modified(_, Comparison::Lt))
    ));
    assert_eq!(failure(to_predicate("size,eq,ten")), (Cause::InvalidSize, "ten".to_string()));
    assert_eq!(
        failure(to_predicate("size,contains,1")),
        (Cause::InvalidPredicate, "1".to_string())
    );
    assert_eq!(
        failure(to_predicate("modified,starts_with,1")),
        (Cause::InvalidPredicate, "1".to_string())
    );
    assert_eq!(failure(to_predicate("name,gt,a")), (Cause::InvalidPredicate, "a".to_string()));
    assert_eq!(
        failure(to_predicate("created,gt,noon")),
        (Cause::InvalidDateTime, "noon".to_string())
    );
    let condition = WhereCondition::parse("accessed,ne,x").unwrap();
    assert_eq!(
        failure(condition.predicate_from(TimeReading::Ambiguous)),
        (Cause::AmbiguousLocalTime, String::new())
    );
}

#[test]
fn errors_fall_into_three_classes() {
    let kind = |cause| QueryError::bare(cause).kind();
    assert_eq!(kind(Cause::ConditionFormat), ErrorKind::MalformedSpec);
    assert_eq!(kind(Cause::PredicateFormat), ErrorKind::MalformedSpec);
    assert_eq!(kind(Cause::InvalidField), ErrorKind::MalformedSpec);
    assert_eq!(kind(Cause::InvalidOperator), ErrorKind::MalformedSpec);
    assert_eq!(kind(Cause::InvalidComparison), ErrorKind::MalformedSpec);
    assert_eq!(kind(Cause::GroupingFormat), ErrorKind::MalformedSpec);
    assert_eq!(kind(Cause::InvalidMagnitude), ErrorKind::MalformedSpec);
    assert_eq!(kind(Cause::UnsupportedGrouping), ErrorKind::MalformedSpec);
    assert_eq!(kind(Cause::MissingArgument), ErrorKind::MalformedSpec);
    assert_eq!(kind(Cause::UnknownAggregate), ErrorKind::MalformedSpec);
    assert_eq!(kind(Cause::UnknownAggregator), ErrorKind::MalformedSpec);
    assert_eq!(kind(Cause::InvalidPredicate), ErrorKind::TypeMismatch);
    assert_eq!(kind(Cause::UnsupportedParameter), ErrorKind::TypeMismatch);
    assert_eq!(kind(Cause::InvalidSize), ErrorKind::LiteralParse);
    assert_eq!(kind(Cause::InvalidDateTime), ErrorKind::LiteralParse);
    assert_eq!(kind(Cause::AmbiguousLocalTime), ErrorKind::LiteralParse);
    let e = QueryError::new(Cause::InvalidSize, "x1");
    assert_eq!((e.cause, e.detail.as_str()), (Cause::InvalidSize, "x1"));
}

#[test]
fn errors_in_words() {
    let said = |cause, detail: &str| QueryError::new(cause, detail).message();
    assert_eq!(
        said(Cause::ConditionFormat, "a,b"),
        "Invalid WHERE condition format. Expected: field,operator,value, got: a,b"
    );
    assert_eq!(
        said(Cause::PredicateFormat, "a"),
        "Invalid predicate format. Expected: field,operator,value, got: a"
    );
    assert_eq!(said(Cause::InvalidField, "owner"), "Invalid field: owner");
    assert_eq!(said(Cause::InvalidOperator, "like"), "Invalid operator: like");
    assert_eq!(said(Cause::InvalidComparison, "like"), "Invalid comparison operator: like");
    assert_eq!(said(Cause::InvalidPredicate, "n,gt,a"), "Invalid predicate: n,gt,a");
    assert_eq!(said(Cause::InvalidSize, "big"), "Invalid size value: big");
    assert_eq!(said(Cause::InvalidDateTime, "noon"), "Invalid date/time format: noon");
    assert_eq!(said(Cause::AmbiguousLocalTime, ""), "Ambiguous or invalid local datetime");
    assert_eq!(said(Cause::GroupingFormat, ""), "Invalid grouping operator format");
    assert_eq!(said(Cause::InvalidMagnitude, ""), "Invalid size magnitude");
    assert_eq!(said(Cause::UnsupportedGrouping, ""), "Unsupported grouping operator");
    assert_eq!(said(Cause::MissingArgument, "max"), "Missing argument for max");
    assert_eq!(said(Cause::UnknownAggregate, "median"), "Unknown aggregate function: median");
    assert_eq!(said(Cause::UnknownAggregator, "name"), "Unknown comparing aggregator: name");
    assert_eq!(said(Cause::UnsupportedParameter, "name"), "Unsupported parameter: name");
    assert_eq!(
        Predicate::from_str("size,gt,big").unwrap_err().message(),
        "Invalid size value: big"
    );
}

#[test]
fn white_space_is_what_the_standard_library_trims() {
    for code in 0..=0x10FFFFu32 {
        if let Some(c) = char::from_u32(code) {
            assert_eq!(file_query::text::is_white(c), c.is_whitespace(), "U+{:04X}", code);
        }
    }
    let trim = |s: &str| -> String { file_query::text::trim(&chars(s)).iter().collect() };
    for text in ["", " ", "a", " a", "a ", "\t a b \n", "\u{2003}x\u{3000}", "\u{a0}\u{85}", "a\u{200b}"] {
        assert_eq!(trim(text), text.trim());
    }
}

#[test]
fn texts_compare_in_lexicographic_order() {
    let holds = |op: Wide, a: &str, b: &str| op.compare_text(a, b);
    assert!(holds(Wide::Eq, "abc", "abc"));
    assert!(!holds(Wide::Eq, "abc", "abd"));
    assert!(holds(Wide::Ne, "abc", "ab"));
    assert!(holds(Wide::Lt, "ab", "abc"));
    assert!(holds(Wide::Lt, "abc", "abd"));
    assert!(holds(Wide::Lt, "", "a"));
    assert!(!holds(Wide::Lt, "b", "abc"));
    assert!(holds(Wide::Le, "abc", "abc"));
    assert!(holds(Wide::Gt, "b", "abc"));
    assert!(holds(Wide::Gt, "é", "z"));
    assert!(holds(Wide::Ge, "", ""));
    assert!(!holds(Wide::Ge, "a", "b"));
    for (a, b) in [("", ""), ("a", ""), ("", "a"), ("abc", "abd"), ("Zebra", "apple"), ("é", "e")] {
        assert_eq!(holds(Wide::Lt, a, b), a < b);
        assert_eq!(holds(Wide::Le, a, b), a <= b);
        assert_eq!(holds(Wide::Gt, a, b), a > b);
        assert_eq!(holds(Wide::Ge, a, b), a >= b);
    }
}

#[test]
fn texts_contain_begin_and_end() {
    let holds = |op: Wide, a: &str, b: &str| op.compare_text(a, b);
    assert!(holds(Wide::Contains, "report.txt", "port"));
    assert!(holds(Wide::Contains, "report.txt", ""));
    assert!(holds(Wide::Contains, "", ""));
    assert!(holds(Wide::Contains, "report.txt", "report.txt"));
    assert!(holds(Wide::Contains, "report.txt", ".txt"));
    assert!(!holds(Wide::Contains, "report.txt", "txt."));
    assert!(!holds(Wide::Contains, "txt", "report.txt"));
    assert!(holds(Wide::StartsWith, "report.txt", "rep"));
    assert!(holds(Wide::StartsWith, "report.txt", ""));
    assert!(!holds(Wide::StartsWith, "report.txt", "port"));
    assert!(!holds(Wide::StartsWith, "re", "rep"));
    assert!(holds(Wide::EndsWith, "report.txt", ".txt"));
    assert!(holds(Wide::EndsWith, "report.txt", ""));
    assert!(!holds(Wide::EndsWith, "report.txt", "report"));
    assert!(!holds(Wide::EndsWith, "xt", "txt"));
}

#[test]
fn text_parses_into_each_typed_form() {
    assert_eq!("size,gt,15".parse::<Predicate>(), Ok(Predicate::Size(15, Comparison::Gt)));
    assert_eq!("gte".parse::<Comparison>(), Ok(Comparison::Ge));
    assert_eq!("contains".parse::<Wide>(), Ok(Wide::Contains));
    assert_eq!("ext".parse::<Field>(), Ok(Field::Extension));
    assert_eq!("size,kb".parse(), Ok(GroupingOperator::Size(SizeMagnitude::Kilobytes)));
    assert_eq!("max,size".parse(), Ok(AggregateFunction::Max(ComparingAggregator::Size)));
    assert_eq!("mod".parse(), Ok(ComparingAggregator::Modified));
    assert_eq!(
        failure("like".parse::<Wide>()),
        (Cause::InvalidComparison, "like".to_string())
    );
}

#[test]
fn an_instant_is_read_where_its_day_is_in_the_calendar_and_its_nanoseconds_fit() {
    assert!(Timestamp::from_unix(0, 0).is_some());
    assert!(Timestamp::from_unix(-86_400 * 365 * 3000, 999_999_999).is_some());
    assert!(Timestamp::from_unix(i64::MIN, 0).is_none());
    assert!(Timestamp::from_unix(i64::MAX, 0).is_none());
    // a second and more of nanoseconds writes a leap second, beside the last second of a minute
    let leap = Timestamp::from_unix(59, 1_500_000_000).unwrap();
    assert_eq!((leap.secs, leap.nanos), (59, 1_500_000_000));
    assert!(leap.is_valid());
    assert!(Timestamp::from_unix(-1, 1_999_999_999).is_some());
    assert!(Timestamp::from_unix(5, 1_500_000_000).is_none());
    assert!(Timestamp::from_unix(60, 1_000_000_000).is_none());
    assert!(Timestamp::from_unix(59, 2_000_000_000).is_none());
}
