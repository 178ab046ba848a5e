use yeax::filters::{Order, QueryFilter, UserFilter};
use yeax::types::number::NumberFilter;
use yeax::types::string::StringFilter;

fn empty_user_filter() -> UserFilter {
    UserFilter { username: None, age: None }
}

fn query(
    start: Option<u32>,
    end: Option<u32>,
    sort: Option<&str>,
    order: Option<&str>,
) -> QueryFilter<UserFilter> {
    QueryFilter {
        start,
        end,
        sort: sort.map(|s| s.to_string()),
        order: order.map(|s| s.to_string()),
        filter: empty_user_filter(),
    }
}

#[test]
fn offset_defaults_to_zero() {
    assert_eq!(query(None, None, None, None).get_offset(), 0);
    assert_eq!(query(Some(25), None, None, None).get_offset(), 25);
}

#[test]
fn limit_clamps_the_window() {
    // no end: the default page size
    let q = query(Some(10), None, None, None);
    assert_eq!(q.get_limit(q.get_offset()), 10);
    // a plain window
    let q = query(Some(10), Some(30), None, None);
    assert_eq!(q.get_limit(q.get_offset()), 20);
    // an empty window still asks for one row
    let q = query(Some(5), Some(5), None, None);
    assert_eq!(q.get_limit(q.get_offset()), 1);
    // the filter's cap bounds the window
    let q = query(None, Some(500), None, None);
    assert_eq!(q.get_limit(q.get_offset()), 100);
}

#[test]
fn sort_is_validated_against_the_filter() {
    assert_eq!(query(None, None, Some("username"), None).get_sort(), Some("username"));
    assert_eq!(query(None, None, Some("age"), None).get_sort(), Some("age"));
    assert_eq!(query(None, None, Some("password"), None).get_sort(), None);
    assert_eq!(query(None, None, None, None).get_sort(), None);
}

#[test]
fn order_parses_case_insensitively() {
    assert_eq!(query(None, None, None, Some("asc")).get_order(), Order::Asc);
    assert_eq!(query(None, None, None, Some("DESC")).get_order(), Order::Desc);
    assert_eq!(query(None, None, None, Some("DeSc")).get_order(), Order::Desc);
    assert_eq!(query(None, None, None, Some("sideways")).get_order(), Order::Unordered);
    assert_eq!(query(None, None, None, None).get_order(), Order::Unordered);
}

#[test]
fn order_keywords() {
    assert_eq!(Order::Asc.as_str(), "ASC");
    assert_eq!(Order::Desc.as_str(), "DESC");
    assert_eq!(Order::Unordered.as_str(), "ASC");
    assert_eq!(Order::from_str("Asc"), Ok(Order::Asc));
    assert_eq!(Order::from_str("desc"), Ok(Order::Desc));
    assert_eq!(Order::from_str("about"), Err(()));
}

#[test]
fn get_filter_hands_back_the_field_filter() {
    let q = QueryFilter {
        start: None,
        end: None,
        sort: None,
        order: None,
        filter: UserFilter {
            username: Some(StringFilter(Vec::new())),
            age: Some(NumberFilter(Vec::new())),
        },
    };
    assert!(q.get_filter().username.is_some());
    assert!(q.get_filter().age.is_some());
}
