use yeax::errors::{
    Attr, Attrs, Ctxt, DeriveDiagnostic, ErrorVariant, JsonError, JsonErrorKind, JsonErrors,
};

fn attr(ident: &str, value: &str) -> Attr {
    Attr { ident: ident.to_string(), value: value.to_string(), optional: false }
}

fn plain_variant(ident: &str, n_fields: usize) -> ErrorVariant {
    ErrorVariant { ident: ident.to_string(), n_fields, attrs: Vec::new() }
}

#[test]
fn internal_error_classifies_by_field_count() {
    let mut ctxt = Ctxt::new();
    let e = JsonError::new_internal_error(&plain_variant("Broken", 0), &mut ctxt).unwrap();
    assert_eq!(e.kind, JsonErrorKind::NaiveInternal);
    assert_eq!(e.ident, "Broken");
    let e = JsonError::new_internal_error(&plain_variant("Wrapped", 1), &mut ctxt).unwrap();
    assert_eq!(e.kind, JsonErrorKind::Internal);
    assert!(ctxt.errors.is_empty());
    let none = JsonError::new_internal_error(&plain_variant("Pair", 2), &mut ctxt);
    assert!(none.is_none());
    assert_eq!(
        ctxt.errors,
        vec![DeriveDiagnostic::UnsupportedTupleVariant("Pair".to_string())]
    );
}

#[test]
fn request_error_validates_fields() {
    let mut ctxt = Ctxt::new();
    let attrs = Attrs {
        inner: vec![attr("status", "404"), attr("code", "not-found"), attr("message", "gone")],
    };
    let e = JsonError::new_request_error(&plain_variant("NotFound", 0), attrs, &mut ctxt).unwrap();
    assert_eq!(e.kind, JsonErrorKind::NaiveRequest);
    assert!(ctxt.errors.is_empty());
    // the message field becomes optional
    assert!(e.attrs.inner[2].optional);
    assert!(!e.attrs.inner[0].optional);
}

#[test]
fn request_error_reports_unknown_fields() {
    let mut ctxt = Ctxt::new();
    let attrs = Attrs { inner: vec![attr("status", "400"), attr("flavor", "sour")] };
    // an unknown field is reported, but the variant still classifies
    let e = JsonError::new_request_error(&plain_variant("Bad", 1), attrs, &mut ctxt).unwrap();
    assert_eq!(e.kind, JsonErrorKind::Request);
    assert_eq!(
        ctxt.errors,
        vec![DeriveDiagnostic::UnknownAttribute("flavor".to_string())]
    );
}

#[test]
fn request_error_rejects_extra_fields() {
    let mut ctxt = Ctxt::new();
    let attrs = Attrs { inner: vec![attr("status", "400")] };
    let none = JsonError::new_request_error(&plain_variant("Two", 2), attrs, &mut ctxt);
    assert!(none.is_none());
    assert_eq!(
        ctxt.errors,
        vec![DeriveDiagnostic::MultipleWrappedErrors("Two".to_string())]
    );
}

#[test]
fn from_variant_scans_the_attributes() {
    let mut ctxt = Ctxt::new();
    let v = ErrorVariant {
        ident: "Gone".to_string(),
        n_fields: 0,
        attrs: vec![
            ("serde".to_string(), Attrs::new()),
            (
                "request_error".to_string(),
                Attrs { inner: vec![attr("status", "410"), attr("code", "gone")] },
            ),
        ],
    };
    let e = JsonError::from_variant(&v, &mut ctxt).unwrap();
    assert_eq!(e.kind, JsonErrorKind::NaiveRequest);
    assert!(ctxt.errors.is_empty());
}

#[test]
fn from_variant_requires_an_error_attribute() {
    let mut ctxt = Ctxt::new();
    let none = JsonError::from_variant(&plain_variant("Plain", 0), &mut ctxt);
    assert!(none.is_none());
    assert_eq!(
        ctxt.errors,
        vec![DeriveDiagnostic::MissingErrorAttribute("Plain".to_string())]
    );
}

#[test]
fn expand_renders_a_request_arm() {
    let mut ctxt = Ctxt::new();
    let attrs = Attrs { inner: vec![attr("status", "404"), attr("code", "\"40400\"")] };
    let e = JsonError::new_request_error(&plain_variant("NotFound", 0), attrs, &mut ctxt).unwrap();
    let arm = e.expand_match_condition("ApiError");
    assert_eq!(
        arm,
        "ApiError::NotFound => yeax_api::JsonError { status: 404 , code: \"40400\" , content: () , ..yeax_api::JsonError::default() }.error_response()"
    );
}

#[test]
fn expand_renders_an_internal_arm() {
    let mut ctxt = Ctxt::new();
    let e = JsonError::new_internal_error(&plain_variant("Db", 1), &mut ctxt).unwrap();
    let arm = e.expand_match_condition("ApiError");
    assert_eq!(
        arm,
        "ApiError::Db(err) => yeax_api::JsonError { status: actix_web::http::StatusCode::INTERNAL_SERVER_ERROR , code: \"50000 internal-error\".into() , content: () , ..yeax_api::JsonError::default() }.error_response()"
    );
}

#[test]
fn from_variants_collects_every_arm() {
    let mut ctxt = Ctxt::new();
    let variants = vec![
        ErrorVariant {
            ident: "Gone".to_string(),
            n_fields: 0,
            attrs: vec![(
                "request_error".to_string(),
                Attrs { inner: vec![attr("status", "410")] },
            )],
        },
        ErrorVariant {
            ident: "Db".to_string(),
            n_fields: 0,
            attrs: vec![("internal_error".to_string(), Attrs::new())],
        },
    ];
    let es = JsonErrors::from_variants("ApiError".to_string(), &variants, &mut ctxt).unwrap();
    assert_eq!(es.errors.len(), 2);
    let mut out = String::new();
    es.to_tokens(&mut out);
    assert!(out.starts_with("ApiError::Gone => "));
    assert!(out.ends_with(".error_response(),"));
    assert!(out.contains("ApiError::Db => "));
}

#[test]
fn from_variants_stops_at_the_first_failure() {
    let mut ctxt = Ctxt::new();
    let variants = vec![
        plain_variant("Plain", 0),
        ErrorVariant {
            ident: "Db".to_string(),
            n_fields: 0,
            attrs: vec![("internal_error".to_string(), Attrs::new())],
        },
    ];
    let none = JsonErrors::from_variants("ApiError".to_string(), &variants, &mut ctxt);
    assert!(none.is_none());
    assert_eq!(
        ctxt.errors,
        vec![DeriveDiagnostic::MissingErrorAttribute("Plain".to_string())]
    );
}
