use yeax::filters::{QueryFilter, UserFilter};
use yeax::tosqlx::{to_sql, ArgValue, Config};
use yeax::types::date::{Date, DateFilter, DateFilterKind};
use yeax::types::datetime::{DateTime, DateTimeFilter, DateTimeFilterKind};
use yeax::types::number::{NumberFilter, NumberFilterKind};
use yeax::types::string::{StringFilter, StringFilterKind};
use yeax::types::uuid::{Uuid, UuidFilter, UuidFilterKind};

fn day(y: i32, m: u8, d: u8) -> Date {
    Date { year: y, month: m, day: d }
}

#[test]
fn user_filter_renders_named_fields() {
    let f = UserFilter {
        username: Some(StringFilter(vec![StringFilterKind::Contains("bo".to_string())])),
        age: Some(NumberFilter(vec![NumberFilterKind::GreaterThan(18)])),
    };
    let mut q = String::new();
    let mut args: Vec<ArgValue> = Vec::new();
    let next = to_sql(&f, &mut q, &mut args, 1);
    assert_eq!(q, " 1=1 AND username LIKE $1 AND age>$2");
    assert_eq!(
        args,
        vec![ArgValue::Text("%bo%".to_string()), ArgValue::Int(18)]
    );
    assert_eq!(next, 3);
}

#[test]
fn empty_filter_renders_only_the_prefix() {
    let f = UserFilter { username: None, age: None };
    let mut q = String::new();
    let mut args: Vec<ArgValue> = Vec::new();
    let next = to_sql(&f, &mut q, &mut args, 1);
    assert_eq!(q, " 1=1 AND ");
    assert!(args.is_empty());
    assert_eq!(next, 1);
}

#[test]
fn query_filter_renders_sort_and_paging() {
    let f = QueryFilter {
        start: Some(20),
        end: Some(40),
        sort: Some("age".to_string()),
        order: Some("desc".to_string()),
        filter: UserFilter {
            username: None,
            age: Some(NumberFilter(vec![NumberFilterKind::LesserThanEqual(65)])),
        },
    };
    let mut q = String::new();
    let mut args: Vec<ArgValue> = Vec::new();
    let next = to_sql(&f, &mut q, &mut args, 1);
    assert_eq!(
        q,
        " 1=1 AND age<=$1 ORDER BY age DESC OFFSET $2 LIMIT $3"
    );
    assert_eq!(
        args,
        vec![ArgValue::Int(65), ArgValue::UInt(20), ArgValue::UInt(20)]
    );
    assert_eq!(next, 4);
}

#[test]
fn query_filter_skips_invalid_sort() {
    let f = QueryFilter {
        start: None,
        end: None,
        sort: Some("password".to_string()),
        order: None,
        filter: UserFilter { username: None, age: None },
    };
    let mut q = String::new();
    let mut args: Vec<ArgValue> = Vec::new();
    to_sql(&f, &mut q, &mut args, 1);
    assert_eq!(q, " 1=1 AND  OFFSET $1 LIMIT $2");
    assert_eq!(args, vec![ArgValue::UInt(0), ArgValue::UInt(10)]);
}

#[test]
fn number_conditions_join_with_and() {
    let mut c = Config::new(String::new(), Vec::new(), 4);
    c.check_field(
        "age",
        &NumberFilter(vec![
            NumberFilterKind::GreaterThanEqual(18),
            NumberFilterKind::LesserThan(99),
            NumberFilterKind::NotEquals(42),
        ]),
    );
    assert_eq!(c.query, "age>=$4 AND age<$5 AND age=!$6");
    assert_eq!(
        c.args,
        vec![ArgValue::Int(18), ArgValue::Int(99), ArgValue::Int(42)]
    );
    assert_eq!(c.get_index(), 7);
    assert!(c.used);
}

#[test]
fn string_conditions_wrap_patterns() {
    let mut c = Config::new(String::new(), Vec::new(), 1);
    c.check_field(
        "username",
        &StringFilter(vec![
            StringFilterKind::StartsWith("ad".to_string()),
            StringFilterKind::EndsWith("in".to_string()),
            StringFilterKind::NotContains("bot".to_string()),
        ]),
    );
    assert_eq!(
        c.query,
        "username LIKE $1 AND username LIKE $2 AND username NOT LIKE $3"
    );
    assert_eq!(
        c.args,
        vec![
            ArgValue::Text("ad%".to_string()),
            ArgValue::Text("%in".to_string()),
            ArgValue::Text("%bot%".to_string()),
        ]
    );
}

#[test]
fn uuid_in_list_binds_each_member() {
    let u1 = Uuid { hi: 1, lo: 2 };
    let u2 = Uuid { hi: 3, lo: 4 };
    let u3 = Uuid { hi: 5, lo: 6 };
    let mut c = Config::new(String::new(), Vec::new(), 1);
    c.check_field(
        "id",
        &UuidFilter(vec![
            UuidFilterKind::In(vec![u1, u2]),
            UuidFilterKind::Equals(u3),
        ]),
    );
    assert_eq!(c.query, "id IN ($1,$2) AND id= $3");
    assert_eq!(
        c.args,
        vec![ArgValue::Id(u1), ArgValue::Id(u2), ArgValue::Id(u3)]
    );
    assert_eq!(c.get_index(), 4);
}

#[test]
fn date_and_datetime_conditions() {
    let d = day(2021, 3, 14);
    let t = DateTime { date: day(2021, 3, 14), hour: 9, minute: 26, second: 53 };
    let mut c = Config::new(String::new(), Vec::new(), 1);
    c.check_field("born", &DateFilter(vec![DateFilterKind::After(d)]));
    c.check_field(
        "seen",
        &DateTimeFilter(vec![DateTimeFilterKind::Before(t)]),
    );
    assert_eq!(c.query, "born>$1 AND seen<$2");
    assert_eq!(c.args, vec![ArgValue::Day(d), ArgValue::Stamp(t)]);
}

#[test]
fn skipped_field_keeps_the_separator_straight() {
    let none: Option<NumberFilter> = None;
    let mut c = Config::new(String::new(), Vec::new(), 1);
    c.check_field("age", &NumberFilter(vec![NumberFilterKind::Equals(7)]));
    c.check_field("height", &none);
    c.check_field("width", &NumberFilter(vec![NumberFilterKind::Equals(9)]));
    // the empty middle field leaves its separator, and no second one is
    // added before the next field
    assert_eq!(c.query, "age==$1 AND width==$2");
    assert_eq!(c.args, vec![ArgValue::Int(7), ArgValue::Int(9)]);
}

#[test]
fn empty_condition_set_renders_nothing() {
    let mut c = Config::new(String::new(), Vec::new(), 1);
    c.check_field("age", &NumberFilter(Vec::new()));
    assert_eq!(c.query, "");
    assert!(c.args.is_empty());
    assert_eq!(c.get_index(), 1);
    assert!(!c.used);
}

#[test]
fn placeholder_indices_render_in_decimal() {
    let mut c = Config::new(String::new(), Vec::new(), 99);
    c.check_field("age", &NumberFilter(vec![NumberFilterKind::Equals(1)]));
    c.check_field("width", &NumberFilter(vec![NumberFilterKind::Equals(2)]));
    assert_eq!(c.query, "age==$99 AND width==$100");
    assert_eq!(c.get_index(), 101);
}
