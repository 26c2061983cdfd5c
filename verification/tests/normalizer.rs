use data_extractor::normalize::{derive_headers, kv_table, normalize_matrix, normalize_records};
use data_extractor::raw::{decode_value, RawValue, Timestamp};
use data_extractor::table::extraction_stats;

fn ts(year: i64, month: u8, day: u8, hour: u8, minute: u8, second: u8) -> Timestamp {
    Timestamp { year, month, day, hour, minute, second }
}

#[test]
fn decode_every_kind_yields_some_string() {
    // the cascade is total: every kind, including one nothing recognizes,
    // yields a string, never a panic
    assert_eq!(decode_value(&RawValue::Text(String::from("hi"))), "hi");
    assert_eq!(decode_value(&RawValue::Int(-42)), "-42");
    assert_eq!(decode_value(&RawValue::Int(0)), "0");
    assert_eq!(decode_value(&RawValue::Int(i64::MIN)), "-9223372036854775808");
    assert_eq!(decode_value(&RawValue::Float(String::from("3.5"))), "3.5");
    assert_eq!(decode_value(&RawValue::Bool(true)), "true");
    assert_eq!(decode_value(&RawValue::Bool(false)), "false");
    assert_eq!(
        decode_value(&RawValue::DateTime(ts(2023, 7, 8, 9, 10, 11))),
        "2023-07-08 09:10:11"
    );
    assert_eq!(
        decode_value(&RawValue::Decimal(String::from("123.4500"))),
        "123.4500"
    );
    assert_eq!(decode_value(&RawValue::Id(vec![0xde, 0xad, 0x01])), "dead01");
    assert_eq!(
        decode_value(&RawValue::List(vec![
            RawValue::Int(1),
            RawValue::Text(String::from("a")),
            RawValue::Null,
        ])),
        "[1, \"a\", null]"
    );
    assert_eq!(
        decode_value(&RawValue::Doc(vec![
            (String::from("k"), RawValue::Int(2)),
            (String::from("s"), RawValue::Text(String::from("x"))),
        ])),
        "{\"k\": 2, \"s\": \"x\"}"
    );
    assert_eq!(decode_value(&RawValue::Null), "");
    assert_eq!(decode_value(&RawValue::Unsupported), "[UNSUPPORTED TYPE]");
}

#[test]
fn null_and_empty_text_decode_identically() {
    // defined, not enforced: both yield exactly "", indistinguishable
    let from_null = decode_value(&RawValue::Null);
    let from_empty = decode_value(&RawValue::Text(String::new()));
    assert_eq!(from_null, from_empty);
    assert_eq!(from_null, "");
}

#[test]
fn nested_values_render_deterministically() {
    let v = RawValue::Doc(vec![
        (
            String::from("arr"),
            RawValue::List(vec![RawValue::Bool(false), RawValue::Decimal(String::from("1.50"))]),
        ),
        (String::from("inner"), RawValue::Doc(vec![(String::from("n"), RawValue::Null)])),
    ]);
    assert_eq!(
        decode_value(&v),
        "{\"arr\": [false, 1.50], \"inner\": {\"n\": null}}"
    );
}

#[test]
fn nested_text_is_escaped() {
    let v = RawValue::List(vec![RawValue::Text(String::from("a\"b\\c\nd"))]);
    assert_eq!(decode_value(&v), "[\"a\\\"b\\\\c\\nd\"]");
}

#[test]
fn timestamp_components_are_zero_padded() {
    assert_eq!(
        decode_value(&RawValue::DateTime(ts(33, 1, 2, 3, 4, 5))),
        "0033-01-02 03:04:05"
    );
}

#[test]
fn timestamp_before_common_era_keeps_its_sign() {
    assert_eq!(
        decode_value(&RawValue::DateTime(ts(-1, 12, 31, 23, 59, 59))),
        "-0001-12-31 23:59:59"
    );
}

#[test]
fn identifier_with_no_bytes_decodes_empty() {
    assert_eq!(decode_value(&RawValue::Id(Vec::new())), "");
}

#[test]
fn headers_sort_by_code_point() {
    let first = vec![
        (String::from("\u{e9}"), RawValue::Int(1)),
        (String::from("z"), RawValue::Int(2)),
    ];
    let hs = derive_headers(&first);
    assert_eq!(hs, vec!["z", "\u{e9}"]);
}

#[test]
fn duplicate_field_names_yield_one_header() {
    let first = vec![
        (String::from("a"), RawValue::Int(1)),
        (String::from("a"), RawValue::Int(2)),
    ];
    let hs = derive_headers(&first);
    assert_eq!(hs, vec!["a"]);
}

#[test]
fn headers_come_from_first_record_sorted() {
    let first = vec![
        (String::from("b"), RawValue::Int(1)),
        (String::from("a"), RawValue::Int(2)),
        (String::from("c"), RawValue::Int(3)),
    ];
    let hs = derive_headers(&first);
    assert_eq!(hs, vec!["a", "b", "c"]);
}

#[test]
fn header_stability_under_field_order() {
    // two sources whose first records carry the same field set in different
    // insertion orders derive identical headers
    let records1 = vec![vec![
        (String::from("x"), RawValue::Int(1)),
        (String::from("y"), RawValue::Int(2)),
    ]];
    let records2 = vec![vec![
        (String::from("y"), RawValue::Int(2)),
        (String::from("x"), RawValue::Int(1)),
    ]];
    let t1 = normalize_records(&records1);
    let t2 = normalize_records(&records2);
    assert_eq!(t1.headers, t2.headers);
    assert_eq!(t1.headers, vec!["x", "y"]);
}

#[test]
fn later_fields_stay_invisible() {
    // fields absent from the first record never reach the output; fields
    // missing from a later record become empty cells, not missing slots
    let records = vec![
        vec![
            (String::from("b"), RawValue::Int(1)),
            (String::from("a"), RawValue::Text(String::from("r1"))),
        ],
        vec![
            (String::from("a"), RawValue::Text(String::from("r2"))),
            (String::from("z"), RawValue::Text(String::from("never seen"))),
        ],
    ];
    let t = normalize_records(&records);
    assert_eq!(t.headers, vec!["a", "b"]);
    assert_eq!(t.rows.len(), 2);
    for row in &t.rows {
        assert_eq!(row.len(), t.headers.len());
    }
    assert_eq!(t.rows[0], vec!["r1", "1"]);
    assert_eq!(t.rows[1], vec!["r2", ""]);
}

#[test]
fn zero_records_normalize_to_empty_table() {
    let records: Vec<Vec<(String, RawValue)>> = Vec::new();
    let t = normalize_records(&records);
    assert_eq!(t.headers.len(), 0);
    assert_eq!(t.rows.len(), 0);
}

#[test]
fn matrix_rows_are_padded_and_truncated_to_header_arity() {
    let headers = vec![String::from("h1"), String::from("h2")];
    let raw_rows = vec![
        vec![RawValue::Int(1)],
        vec![RawValue::Int(2), RawValue::Int(3), RawValue::Int(4)],
    ];
    let t = normalize_matrix(headers, &raw_rows);
    assert_eq!(t.headers, vec!["h1", "h2"]);
    assert_eq!(t.rows, vec![vec!["1", ""], vec!["2", "3"]]);
}

#[test]
fn matrix_keeps_header_order_verbatim() {
    let headers = vec![String::from("zz"), String::from("aa")];
    let raw_rows = vec![vec![
        RawValue::Text(String::from("v1")),
        RawValue::Text(String::from("v2")),
    ]];
    let t = normalize_matrix(headers, &raw_rows);
    assert_eq!(t.headers, vec!["zz", "aa"]);
    assert_eq!(t.rows[0], vec!["v1", "v2"]);
}

#[test]
fn kv_source_gets_synthetic_headers() {
    let pairs = vec![
        (String::from("user:1"), String::from("alice")),
        (String::from("user:2"), String::from("bob")),
    ];
    let t = kv_table(&pairs);
    assert_eq!(t.headers, vec!["Key", "Value"]);
    assert_eq!(t.rows, vec![vec!["user:1", "alice"], vec!["user:2", "bob"]]);
}

#[test]
fn kv_source_with_no_pairs_is_the_empty_table() {
    let pairs: Vec<(String, String)> = Vec::new();
    let t = kv_table(&pairs);
    assert_eq!(t.headers.len(), 0);
    assert_eq!(t.rows.len(), 0);
}

#[test]
fn unsupported_cells_are_counted_not_fatal() {
    let headers = vec![String::from("a"), String::from("b")];
    let raw_rows = vec![
        vec![RawValue::Unsupported, RawValue::Int(1)],
        vec![RawValue::Text(String::from("x")), RawValue::Unsupported],
        vec![RawValue::Null, RawValue::Bool(true)],
    ];
    let t = normalize_matrix(headers, &raw_rows);
    // the rows with unrecognized cells are kept, sentinel and all
    assert_eq!(t.rows.len(), 3);
    assert_eq!(t.rows[0][0], "[UNSUPPORTED TYPE]");
    let stats = extraction_stats(&t);
    assert_eq!(stats.rows, 3);
    assert_eq!(stats.unsupported_cells, 2);
}

#[test]
fn every_produced_table_has_uniform_arity() {
    let records = vec![
        vec![(String::from("a"), RawValue::Int(1))],
        Vec::new(),
        vec![
            (String::from("a"), RawValue::Int(2)),
            (String::from("b"), RawValue::Int(3)),
        ],
    ];
    let t = normalize_records(&records);
    for row in &t.rows {
        assert_eq!(row.len(), t.headers.len());
    }
}
