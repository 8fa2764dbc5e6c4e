use sustainalytics_fdw::error::FdwError;
use sustainalytics_fdw::fetch::{
    on_response, start_fetch, FetchStep, HttpMethod, HttpResponse, TokenStore,
};
use sustainalytics_fdw::json::Json;
use sustainalytics_fdw::listing::normalize_take;
use sustainalytics_fdw::session::{new_session, Cell, ScanStep, Session};
use sustainalytics_fdw::tree::json_id_text;

fn s(x: &str) -> String {
    x.to_string()
}

fn obj(fields: Vec<(&str, Json)>) -> Json {
    Json::Obj(fields.into_iter().map(|(k, v)| (k.to_string(), v)).collect())
}

fn txt(x: &str) -> Json {
    Json::Text(x.to_string())
}

fn listing_session() -> Session {
    let mut sess = new_session(None, Some(&s("id")), Some(&s("secret"))).unwrap();
    let opts = vec![(s("endpoint"), s("DataServices")), (s("ProductId"), s("ABC"))];
    sess.begin(&s("DataServices"), &opts).unwrap();
    sess
}

fn expect_fetch(step: Result<ScanStep, FdwError>) -> String {
    match step.unwrap() {
        ScanStep::Fetch(url) => url,
        _ => panic!("expected a fetch request"),
    }
}

fn expect_row(step: Result<ScanStep, FdwError>) -> Vec<Option<Cell>> {
    match step.unwrap() {
        ScanStep::Row(cells) => cells,
        _ => panic!("expected a row"),
    }
}

fn cell_text(c: &Option<Cell>) -> String {
    match c {
        Some(Cell::Text(v)) => v.clone(),
        _ => panic!("expected a text cell"),
    }
}

fn cell_i64(c: &Option<Cell>) -> i64 {
    match c {
        Some(Cell::I64(v)) => *v,
        _ => panic!("expected an integer cell"),
    }
}

fn expect_send(step: FetchStep) -> (sustainalytics_fdw::fetch::FetchCall, sustainalytics_fdw::fetch::HttpRequest) {
    match step {
        FetchStep::Send(c, r) => (c, r),
        _ => panic!("expected another round-trip"),
    }
}

fn expect_err(step: Result<ScanStep, FdwError>) -> FdwError {
    match step {
        Err(e) => e,
        Ok(_) => panic!("expected an error"),
    }
}

fn expect_new_session_err(r: Result<Session, FdwError>) -> FdwError {
    match r {
        Err(e) => e,
        Ok(_) => panic!("expected an error"),
    }
}

fn expect_begin_err(r: Result<(), FdwError>) -> FdwError {
    r.unwrap_err()
}

#[test]
fn take_defaults_when_unset() {
    assert_eq!(normalize_take(None), 10);
}

#[test]
fn take_uses_small_values() {
    assert_eq!(normalize_take(Some(&s("1"))), 1);
    assert_eq!(normalize_take(Some(&s("5"))), 5);
    assert_eq!(normalize_take(Some(&s("9"))), 9);
    assert_eq!(normalize_take(Some(&s("+7"))), 7);
}

#[test]
fn take_clamps_at_maximum() {
    assert_eq!(normalize_take(Some(&s("10"))), 10);
    assert_eq!(normalize_take(Some(&s("15"))), 10);
    assert_eq!(normalize_take(Some(&s("99999999999999999999999"))), 10);
}

#[test]
fn take_defaults_on_invalid() {
    assert_eq!(normalize_take(Some(&s("abc"))), 10);
    assert_eq!(normalize_take(Some(&s(""))), 10);
    assert_eq!(normalize_take(Some(&s("0"))), 10);
    assert_eq!(normalize_take(Some(&s("-3"))), 10);
    assert_eq!(normalize_take(Some(&s("3x"))), 10);
    assert_eq!(normalize_take(Some(&s("+"))), 10);
}

#[test]
fn first_page_url_matches_documented_example() {
    let mut sess = listing_session();
    let url = expect_fetch(sess.next(&vec![]));
    assert_eq!(
        url,
        "https://api.sustainalytics.com/v2/DataService?ProductId=ABC&Skip=0&Take=10"
    );
}

#[test]
fn filters_are_percent_encoded() {
    let mut sess = new_session(None, Some(&s("id")), Some(&s("secret"))).unwrap();
    let opts = vec![
        (s("ProductId"), s("A B")),
        (s("PackageIds"), s("1,2/3")),
        (s("Take"), s("5")),
    ];
    sess.begin(&s("DataServices"), &opts).unwrap();
    let url = expect_fetch(sess.next(&vec![]));
    assert_eq!(
        url,
        "https://api.sustainalytics.com/v2/DataService?ProductId=A%20B&Skip=0&Take=5&PackageIds=1%2C2%2F3"
    );
}

#[test]
fn base_url_trailing_slash_is_trimmed() {
    let base = s("https://host.example//");
    let mut sess = new_session(Some(&base), Some(&s("id")), Some(&s("secret"))).unwrap();
    sess.begin(&s("FieldMappingDefinitions"), &vec![]).unwrap();
    let url = expect_fetch(sess.next(&vec![]));
    assert_eq!(url, "https://host.example/v2/FieldMappingDefinitions");
}

fn entity(id: i64) -> Json {
    obj(vec![
        ("entityId", Json::Int(id)),
        ("entityName", txt("Entity")),
        ("fields", obj(vec![("score", Json::Int(1))])),
    ])
}

#[test]
fn short_page_finishes_without_another_fetch() {
    let mut sess = listing_session();
    let url = expect_fetch(sess.next(&vec![]));
    let page = Json::Arr((0..7).map(entity).collect());
    sess.provide(200, page, &url).unwrap();
    let cols = vec![s("entityId")];
    for i in 0..7 {
        let cells = expect_row(sess.next(&cols));
        assert_eq!(cell_text(&cells[0]), i.to_string());
    }
    match sess.next(&cols).unwrap() {
        ScanStep::Finished => {}
        _ => panic!("a short page must end the scan with no further fetch"),
    }
}

#[test]
fn full_page_advances_skip_by_take() {
    let mut sess = listing_session();
    let url = expect_fetch(sess.next(&vec![]));
    let page = Json::Arr((0..10).map(entity).collect());
    sess.provide(200, page, &url).unwrap();
    let cols = vec![s("entityName")];
    for _ in 0..10 {
        expect_row(sess.next(&cols));
    }
    let url2 = expect_fetch(sess.next(&cols));
    assert_eq!(
        url2,
        "https://api.sustainalytics.com/v2/DataService?ProductId=ABC&Skip=10&Take=10"
    );
}

#[test]
fn listing_upstream_error_carries_status_and_url() {
    let mut sess = listing_session();
    let url = expect_fetch(sess.next(&vec![]));
    let err = sess.provide(503, Json::Arr(vec![]), &url).unwrap_err();
    assert_eq!(err, FdwError::Upstream { status: 503, url: url.clone() });
}

#[test]
fn listing_non_array_body_is_schema_error() {
    let mut sess = listing_session();
    let url = expect_fetch(sess.next(&vec![]));
    let err = sess.provide(200, obj(vec![]), &url).unwrap_err();
    assert!(matches!(err, FdwError::Schema { .. }));
}

#[test]
fn listing_projects_id_name_and_payload() {
    let mut sess = listing_session();
    let url = expect_fetch(sess.next(&vec![]));
    sess.provide(200, Json::Arr(vec![entity(42)]), &url).unwrap();
    let cols = vec![s("entityId"), s("entityName"), s("fields")];
    let cells = expect_row(sess.next(&cols));
    assert_eq!(cells.len(), 3);
    assert_eq!(cell_text(&cells[0]), "42");
    assert_eq!(cell_text(&cells[1]), "Entity");
    match &cells[2] {
        Some(Cell::Jsonb(Json::Obj(fields))) => {
            assert_eq!(fields.len(), 1);
            assert_eq!(fields[0].0, "score");
            assert!(matches!(fields[0].1, Json::Int(1)));
        }
        _ => panic!("expected the opaque payload"),
    }
}

#[test]
fn bogus_column_fails_by_name_on_listing() {
    let mut sess = listing_session();
    let url = expect_fetch(sess.next(&vec![]));
    sess.provide(200, Json::Arr(vec![entity(1)]), &url).unwrap();
    let err = expect_err(sess.next(&vec![s("bogus")]));
    assert_eq!(err, FdwError::UnsupportedColumn { column: s("bogus") });
}

fn defs_a() -> Json {
    Json::Arr(vec![
        obj(vec![
            ("fieldId", Json::Int(31)),
            ("fieldName", txt("F31")),
            ("description", txt("first")),
        ]),
        obj(vec![("fieldId", Json::Int(32)), ("fieldName", txt("F32"))]),
    ])
}

fn defs_b() -> Json {
    Json::Arr(vec![
        obj(vec![("fieldId", Json::Int(33))]),
        obj(vec![("fieldId", Json::Int(34))]),
    ])
}

fn sample_tree_doc() -> Json {
    let pkg = |pid: i64, defs: Json| {
        obj(vec![
            ("packageId", Json::Int(pid)),
            ("packageName", txt("Pack")),
            (
                "clusters",
                Json::Arr(vec![obj(vec![
                    ("fieldClusterId", Json::Int(pid * 10)),
                    ("fieldClusterName", txt("Cluster")),
                    ("fieldDefinitions", defs),
                ])]),
            ),
        ])
    };
    Json::Arr(vec![
        obj(vec![
            ("productId", txt("P1")),
            ("productName", txt("Product One")),
            (
                "packages",
                Json::Arr(vec![pkg(11, defs_a()), pkg(12, defs_b())]),
            ),
        ]),
        obj(vec![
            ("productId", Json::Int(7)),
            (
                "packages",
                Json::Arr(vec![pkg(21, defs_a()), pkg(22, defs_b())]),
            ),
        ]),
    ])
}

fn collect_tree_rows(sess: &mut Session, cols: &Vec<String>) -> Vec<Vec<Option<Cell>>> {
    let mut rows = Vec::new();
    loop {
        match sess.next(cols).unwrap() {
            ScanStep::Row(cells) => rows.push(cells),
            ScanStep::Finished => break,
            ScanStep::Fetch(_) => panic!("no further fetch expected"),
        }
    }
    rows
}

#[test]
fn tree_flattens_every_leaf_in_document_order() {
    let mut sess = new_session(None, Some(&s("id")), Some(&s("secret"))).unwrap();
    sess.begin(&s("FieldMappingDefinitions"), &vec![]).unwrap();
    let url = expect_fetch(sess.next(&vec![]));
    assert_eq!(url, "https://api.sustainalytics.com/v2/FieldMappingDefinitions");
    sess.provide(200, sample_tree_doc(), &url).unwrap();
    let cols = vec![s("product_id"), s("package_id"), s("field_id")];
    let rows = collect_tree_rows(&mut sess, &cols);
    // 2 products x 2 packages x 1 cluster x 2 definitions
    assert_eq!(rows.len(), 8);
    let got: Vec<(String, i64, i64)> = rows
        .iter()
        .map(|r| (cell_text(&r[0]), cell_i64(&r[1]), cell_i64(&r[2])))
        .collect();
    let want = vec![
        (s("P1"), 11, 31),
        (s("P1"), 11, 32),
        (s("P1"), 12, 33),
        (s("P1"), 12, 34),
        (s("7"), 21, 31),
        (s("7"), 21, 32),
        (s("7"), 22, 33),
        (s("7"), 22, 34),
    ];
    assert_eq!(got, want);
}

#[test]
fn tree_missing_fields_are_absent_not_empty() {
    let mut sess = new_session(None, Some(&s("id")), Some(&s("secret"))).unwrap();
    sess.begin(&s("FieldMappingDefinitions"), &vec![]).unwrap();
    let url = expect_fetch(sess.next(&vec![]));
    sess.provide(200, sample_tree_doc(), &url).unwrap();
    let cols = vec![s("product_name"), s("description"), s("parentage")];
    let rows = collect_tree_rows(&mut sess, &cols);
    assert_eq!(rows.len(), 8);
    // first leaf has a description, the second does not
    assert_eq!(cell_text(&rows[0][0]), "Product One");
    assert_eq!(cell_text(&rows[0][1]), "first");
    assert!(rows[1][1].is_none());
    // the second product has no name anywhere
    assert!(rows[4][0].is_none());
    // no leaf carries a parentage member
    assert!(rows.iter().all(|r| r[2].is_none()));
}

#[test]
fn tree_missing_levels_count_as_empty() {
    let doc = Json::Arr(vec![
        obj(vec![("productId", txt("NoPackages"))]),
        obj(vec![
            ("productId", txt("OddPackages")),
            ("packages", txt("not a list")),
        ]),
    ]);
    let mut sess = new_session(None, Some(&s("id")), Some(&s("secret"))).unwrap();
    sess.begin(&s("FieldMappingDefinitions"), &vec![]).unwrap();
    let url = expect_fetch(sess.next(&vec![]));
    sess.provide(200, doc, &url).unwrap();
    let rows = collect_tree_rows(&mut sess, &vec![s("product_id")]);
    assert_eq!(rows.len(), 0);
}

#[test]
fn tree_reload_of_unchanged_document_is_identical() {
    let cols = vec![s("product_id"), s("package_id"), s("field_id"), s("field_name")];
    let mut first = Vec::new();
    let mut second = Vec::new();
    for pass in 0..2 {
        let mut sess = new_session(None, Some(&s("id")), Some(&s("secret"))).unwrap();
        sess.begin(&s("FieldMappingDefinitions"), &vec![]).unwrap();
        let url = expect_fetch(sess.next(&vec![]));
        sess.provide(200, sample_tree_doc(), &url).unwrap();
        let rows = collect_tree_rows(&mut sess, &cols);
        let flat: Vec<(String, i64, i64, Option<String>)> = rows
            .iter()
            .map(|r| {
                let name = match &r[3] {
                    Some(Cell::Text(v)) => Some(v.clone()),
                    None => None,
                    _ => panic!("expected text"),
                };
                (cell_text(&r[0]), cell_i64(&r[1]), cell_i64(&r[2]), name)
            })
            .collect();
        if pass == 0 {
            first = flat;
        } else {
            second = flat;
        }
    }
    assert_eq!(first, second);
}

#[test]
fn bogus_column_fails_by_name_on_tree() {
    let mut sess = new_session(None, Some(&s("id")), Some(&s("secret"))).unwrap();
    sess.begin(&s("FieldMappingDefinitions"), &vec![]).unwrap();
    let url = expect_fetch(sess.next(&vec![]));
    sess.provide(200, sample_tree_doc(), &url).unwrap();
    let err = expect_err(sess.next(&vec![s("bogus")]));
    assert_eq!(err, FdwError::UnsupportedColumn { column: s("bogus") });
}

#[test]
fn unknown_endpoint_is_rejected_by_name() {
    let mut sess = new_session(None, Some(&s("id")), Some(&s("secret"))).unwrap();
    let err = expect_begin_err(sess.begin(&s("Other"), &vec![]));
    assert_eq!(err, FdwError::Configuration { detail: s("Other") });
}

#[test]
fn missing_product_id_is_rejected() {
    let mut sess = new_session(None, Some(&s("id")), Some(&s("secret"))).unwrap();
    let err = expect_begin_err(sess.begin(&s("DataServices"), &vec![(s("endpoint"), s("DataServices"))]));
    assert_eq!(err, FdwError::Configuration { detail: s("ProductId") });
}

#[test]
fn unsupported_table_option_is_rejected_by_name() {
    let mut sess = new_session(None, Some(&s("id")), Some(&s("secret"))).unwrap();
    let opts = vec![(s("ProductId"), s("ABC")), (s("Nonsense"), s("1"))];
    let err = expect_begin_err(sess.begin(&s("DataServices"), &opts));
    assert_eq!(err, FdwError::Configuration { detail: s("Nonsense") });
}

#[test]
fn missing_credentials_are_rejected_by_name() {
    let err = expect_new_session_err(new_session(None, None, Some(&s("secret"))));
    assert_eq!(err, FdwError::Configuration { detail: s("client_id") });
    let err = expect_new_session_err(new_session(None, Some(&s("id")), None));
    assert_eq!(err, FdwError::Configuration { detail: s("client_secret") });
}

#[test]
fn empty_cache_fetches_token_first() {
    let store = TokenStore { client_id: s("me"), client_secret: s("pw d"), cached: None };
    let (call, req) = expect_send(start_fetch(&store, "https://h.example", s("https://h.example/v2/X")));
    assert!(matches!(req.method, HttpMethod::Post));
    assert_eq!(req.url, "https://h.example/auth/token");
    assert_eq!(req.body, "client_id=me&client_secret=pw%20d");
    assert!(req
        .headers
        .iter()
        .any(|(k, v)| k == "content-type" && v == "application/x-www-form-urlencoded"));
    let _ = call;
}

#[test]
fn cached_token_sends_get_directly() {
    let store = TokenStore { client_id: s("me"), client_secret: s("pw"), cached: Some(s("t1")) };
    let (_, req) = expect_send(start_fetch(&store, "https://h.example", s("https://h.example/v2/X")));
    assert!(matches!(req.method, HttpMethod::Get));
    assert_eq!(req.url, "https://h.example/v2/X");
    assert!(req.headers.iter().any(|(k, v)| k == "authorization" && v == "Bearer t1"));
}

#[test]
fn auth_retry_refreshes_once_and_returns_second_answer() {
    let base = "https://h.example";
    let mut store = TokenStore { client_id: s("me"), client_secret: s("pw"), cached: Some(s("t1")) };
    let (call, _) = expect_send(start_fetch(&store, base, s("https://h.example/v2/X")));
    // first GET answered 401: exactly one token refresh is issued
    let step = on_response(&mut store, base, call, &HttpResponse { status: 401, body: s("") });
    let (call, req) = expect_send(step);
    assert!(matches!(req.method, HttpMethod::Post));
    assert_eq!(req.url, "https://h.example/auth/token");
    // the refresh stores the fresh token and re-issues the same GET once
    let tok = s("{\"access_token\":\"t2\",\"expires_in\":3600,\"token_type\":\"Bearer\"}");
    let step = on_response(&mut store, base, call, &HttpResponse { status: 200, body: tok });
    let (call, req) = expect_send(step);
    assert!(matches!(req.method, HttpMethod::Get));
    assert_eq!(req.url, "https://h.example/v2/X");
    assert!(req.headers.iter().any(|(k, v)| k == "authorization" && v == "Bearer t2"));
    assert_eq!(store.cached, Some(s("t2")));
    // the retried GET's answer is final
    let step = on_response(&mut store, base, call, &HttpResponse { status: 200, body: s("[1,2]") });
    match step {
        FetchStep::Done(status, Json::Arr(items)) => {
            assert_eq!(status, 200);
            assert_eq!(items.len(), 2);
        }
        _ => panic!("expected the second answer's body"),
    }
    assert_eq!(store.cached, Some(s("t2")));
}

#[test]
fn server_error_is_returned_without_refresh() {
    let base = "https://h.example";
    let mut store = TokenStore { client_id: s("me"), client_secret: s("pw"), cached: Some(s("t1")) };
    let (call, _) = expect_send(start_fetch(&store, base, s("https://h.example/v2/X")));
    let step = on_response(&mut store, base, call, &HttpResponse { status: 500, body: s("{}") });
    match step {
        FetchStep::Done(status, Json::Obj(fields)) => {
            assert_eq!(status, 500);
            assert_eq!(fields.len(), 0);
        }
        _ => panic!("a 500 must be returned as-is"),
    }
    assert_eq!(store.cached, Some(s("t1")));
}

#[test]
fn token_endpoint_failure_is_authentication_error() {
    let base = "https://h.example";
    let mut store = TokenStore { client_id: s("me"), client_secret: s("pw"), cached: None };
    let (call, _) = expect_send(start_fetch(&store, base, s("https://h.example/v2/X")));
    let step = on_response(&mut store, base, call, &HttpResponse { status: 400, body: s("nope") });
    match step {
        FetchStep::Failed(FdwError::Authentication { status, body }) => {
            assert_eq!(status, 400);
            assert_eq!(body, "nope");
        }
        _ => panic!("expected an authentication failure"),
    }
    assert_eq!(store.cached, None);
}

#[test]
fn token_body_without_access_token_is_authentication_error() {
    let base = "https://h.example";
    let mut store = TokenStore { client_id: s("me"), client_secret: s("pw"), cached: None };
    let (call, _) = expect_send(start_fetch(&store, base, s("https://h.example/v2/X")));
    let body = s("{\"expires_in\":3600,\"token_type\":\"Bearer\"}");
    let step = on_response(&mut store, base, call, &HttpResponse { status: 200, body });
    assert!(matches!(step, FetchStep::Failed(FdwError::Authentication { .. })));
}

#[test]
fn malformed_body_is_protocol_error() {
    let base = "https://h.example";
    let mut store = TokenStore { client_id: s("me"), client_secret: s("pw"), cached: Some(s("t1")) };
    let (call, _) = expect_send(start_fetch(&store, base, s("https://h.example/v2/X")));
    let step = on_response(&mut store, base, call, &HttpResponse { status: 200, body: s("not json") });
    assert!(matches!(step, FetchStep::Failed(FdwError::Protocol { .. })));
}

#[test]
fn decoded_numbers_keep_integers_and_carry_floats_as_text() {
    let base = "https://h.example";
    let mut store = TokenStore { client_id: s("me"), client_secret: s("pw"), cached: Some(s("t1")) };
    let (call, _) = expect_send(start_fetch(&store, base, s("https://h.example/v2/X")));
    let body = s("[{\"a\":1,\"b\":1.5,\"c\":\"x\",\"d\":null,\"e\":true}]");
    let step = on_response(&mut store, base, call, &HttpResponse { status: 200, body });
    let items = match step {
        FetchStep::Done(200, Json::Arr(items)) => items,
        _ => panic!("expected a parsed array"),
    };
    assert_eq!(items.len(), 1);
    let first = &items[0];
    assert!(matches!(first.get("a"), Some(Json::Int(1))));
    match first.get("b") {
        Some(Json::NumText(v)) => assert_eq!(v, "1.5"),
        _ => panic!("a non-integer number is carried as numeric text"),
    }
    match first.get("c") {
        Some(Json::Text(v)) => assert_eq!(v, "x"),
        _ => panic!("expected a string"),
    }
    assert!(matches!(first.get("d"), Some(Json::Null)));
    assert!(matches!(first.get("e"), Some(Json::Bool(true))));
    assert!(first.get("missing").is_none());
}

#[test]
fn identifier_values_render_as_plain_text() {
    assert_eq!(json_id_text(&txt("ABC")), "ABC");
    assert_eq!(json_id_text(&Json::NumText(s("1.5"))), "1.5");
    assert_eq!(json_id_text(&Json::Int(42)), "42");
    assert_eq!(json_id_text(&Json::Int(-5)), "-5");
    assert_eq!(json_id_text(&Json::Int(i64::MIN)), "-9223372036854775808");
    assert_eq!(json_id_text(&Json::Bool(true)), "true");
    assert_eq!(json_id_text(&Json::Bool(false)), "false");
    assert_eq!(json_id_text(&Json::Null), "null");
}

#[test]
fn numbers_in_string_columns_are_absent_not_text() {
    // a numeric entityName is not a string: the cell is absent, as the
    // original's as_str produced NULL there
    let mut sess = listing_session();
    let url = expect_fetch(sess.next(&vec![]));
    let row = obj(vec![
        ("entityId", txt("E1")),
        ("entityName", Json::NumText(s("2.5"))),
    ]);
    sess.provide(200, Json::Arr(vec![row]), &url).unwrap();
    let cells = expect_row(sess.next(&vec![s("entityId"), s("entityName")]));
    assert_eq!(cell_text(&cells[0]), "E1");
    assert!(cells[1].is_none());
}

#[test]
fn opaque_payload_keeps_numbers_as_numbers() {
    // a decimal score inside the opaque payload stays a number in the cell
    let mut sess = listing_session();
    let url = expect_fetch(sess.next(&vec![]));
    let row = obj(vec![
        ("entityId", txt("E1")),
        ("fields", obj(vec![("score", Json::NumText(s("1.5")))])),
    ]);
    sess.provide(200, Json::Arr(vec![row]), &url).unwrap();
    let cells = expect_row(sess.next(&vec![s("fields")]));
    match &cells[0] {
        Some(Cell::Jsonb(Json::Obj(fields))) => match &fields[0].1 {
            Json::NumText(v) => assert_eq!(v, "1.5"),
            _ => panic!("the payload must keep the number a number"),
        },
        _ => panic!("expected the opaque payload"),
    }
}

#[test]
fn end_resets_to_inactive_from_either_scanner() {
    let mut sess = listing_session();
    sess.end();
    match sess.next(&vec![s("entityId")]).unwrap() {
        ScanStep::Finished => {}
        _ => panic!("an ended scan serves nothing"),
    }
    sess.begin(&s("FieldMappingDefinitions"), &vec![]).unwrap();
    sess.end();
    match sess.next(&vec![]).unwrap() {
        ScanStep::Finished => {}
        _ => panic!("an ended scan serves nothing"),
    }
}
