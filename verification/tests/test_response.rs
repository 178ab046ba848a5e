use yeax::response::{JsonError, JsonResponse};

#[test]
fn response_builders_fill_the_envelope() {
    let r = JsonResponse::new();
    assert_eq!(r.status, 200);
    assert!(r.total.is_none());
    assert!(r.next.is_none());
    assert!(r.prev.is_none());

    let r = JsonResponse::with_content(vec![1, 2, 3])
        .total(3)
        .next("/items?start=3".to_string())
        .prev("/items?start=0".to_string());
    assert_eq!(r.status, 200);
    assert_eq!(r.content, vec![1, 2, 3]);
    assert_eq!(r.total, Some(3));
    assert_eq!(r.next.as_deref(), Some("/items?start=3"));
    assert_eq!(r.prev.as_deref(), Some("/items?start=0"));
}

#[test]
fn response_content_swap_keeps_the_rest() {
    let r = JsonResponse::with_content(1).total(9).content("one");
    assert_eq!(r.content, "one");
    assert_eq!(r.total, Some(9));
    assert_eq!(r.status, 200);
}

#[test]
fn error_builders_fill_the_envelope() {
    let e = JsonError::new(404, "40400 not-found");
    assert_eq!(e.status, 404);
    assert_eq!(e.code, "40400 not-found");
    assert!(e.hint.is_none());

    let e = JsonError::with_content(422, "42200 invalid", vec!["name"])
        .hint("the name is taken".to_string());
    assert_eq!(e.status, 422);
    assert_eq!(e.code, "42200 invalid");
    assert_eq!(e.hint.as_deref(), Some("the name is taken"));
    assert_eq!(e.content, vec!["name"]);
}

#[test]
fn error_content_swap_keeps_the_rest() {
    let e = JsonError::new(400, "40000 bad").content(7);
    assert_eq!(e.status, 400);
    assert_eq!(e.code, "40000 bad");
    assert_eq!(e.content, 7);
}
