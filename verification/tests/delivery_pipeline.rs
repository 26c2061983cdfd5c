use data_extractor::delivery::{
    classify_response, partition_batches, plan_delivery, BatchReply, BatchStatus, DeliveryError,
    DeliverySession, FieldMap,
};
use data_extractor::json::render_upload_body;
use data_extractor::delivery::shape_batch;
use data_extractor::raw::RawValue;
use data_extractor::normalize::normalize_matrix;
use data_extractor::table::ExtractedData;

fn table_of(headers: &[&str], rows: &[&[&str]]) -> ExtractedData {
    let hs: Vec<String> = headers.iter().map(|h| h.to_string()).collect();
    let raw: Vec<Vec<RawValue>> = rows
        .iter()
        .map(|r| r.iter().map(|c| RawValue::Text(c.to_string())).collect())
        .collect();
    normalize_matrix(hs, &raw)
}

fn map_of(entries: &[(&str, &str)]) -> FieldMap {
    let mut m = FieldMap::new();
    for (k, v) in entries {
        m.add(k.to_string(), v.to_string());
    }
    m
}

#[test]
fn partition_ten_rows_by_three() {
    let b = partition_batches(10, 3);
    assert_eq!(b, vec![(0, 3), (3, 6), (6, 9), (9, 10)]);
}

#[test]
fn partition_exact_multiple_has_no_short_batch() {
    let b = partition_batches(9, 3);
    assert_eq!(b, vec![(0, 3), (3, 6), (6, 9)]);
}

#[test]
fn partition_zero_rows_has_zero_batches() {
    let b = partition_batches(0, 1000);
    assert_eq!(b.len(), 0);
}

#[test]
fn partition_count_is_ceiling() {
    for (n, bs, want) in [(1usize, 1000usize, 1usize), (1000, 1000, 1), (1001, 1000, 2), (7, 3, 3)] {
        assert_eq!(partition_batches(n, bs).len(), want);
    }
}

#[test]
fn rows_without_headers_are_fatal() {
    let t = ExtractedData {
        headers: Vec::new(),
        rows: vec![Vec::new()],
    };
    let r = plan_delivery(&t, &map_of(&[("a", "fldA")]), 10);
    assert!(matches!(r, Err(DeliveryError::NoHeaders)));
}

#[test]
fn map_covering_no_header_is_fatal() {
    let t = table_of(&["a", "b"], &[&["1", "2"]]);
    let r = plan_delivery(&t, &map_of(&[("zz", "fldZ")]), 10);
    assert!(matches!(r, Err(DeliveryError::NoMappedColumns)));
}

#[test]
fn zero_rows_short_circuit() {
    // an empty table plans fine, yields zero batches, and the session is
    // over before any request is due
    let t = table_of(&["a"], &[]);
    let plan = plan_delivery(&t, &map_of(&[]), 10).unwrap();
    assert_eq!(plan.batches.len(), 0);
    let s = DeliverySession::start(plan);
    assert_eq!(s.next_batch(), None);
    let sum = s.summary();
    assert_eq!(sum.total_batches, 0);
    assert_eq!(sum.delivered, 0);
    assert_eq!(sum.total_rows, 0);
    assert!(sum.completed);
}

#[test]
fn field_map_partial_coverage() {
    // headers a, b, c with only a mapped: outgoing records hold exactly
    // fldA, and the two unmapped headers are each warned about once
    let t = table_of(&["a", "b", "c"], &[&["1", "2", "3"], &["4", "5", "6"]]);
    let fmap = map_of(&[("a", "fldA")]);
    let plan = plan_delivery(&t, &fmap, 10).unwrap();
    assert_eq!(plan.mapped.len(), 1);
    assert_eq!(plan.mapped[0], (0, String::from("fldA")));
    assert_eq!(plan.unmapped, vec![1, 2]);
    let recs = shape_batch(&t, &plan.mapped, 0, 2);
    assert_eq!(
        recs,
        vec![
            vec![(String::from("fldA"), String::from("1"))],
            vec![(String::from("fldA"), String::from("4"))],
        ]
    );
}

#[test]
fn partial_failure_accounting() {
    // 7 rows in batches of 3: sizes 3, 3, 1; the middle batch soft-fails,
    // so delivered is exactly the other two batches' rows
    let t = table_of(
        &["a"],
        &[&["r0"], &["r1"], &["r2"], &["r3"], &["r4"], &["r5"], &["r6"]],
    );
    let plan = plan_delivery(&t, &map_of(&[("a", "fldA")]), 3).unwrap();
    let mut s = DeliverySession::start(plan);
    assert_eq!(s.next_batch(), Some(0));
    s.record_reply(BatchReply::Accepted);
    assert_eq!(s.next_batch(), Some(1));
    s.record_reply(BatchReply::BodyRejected);
    assert_eq!(s.next_batch(), Some(2));
    s.record_reply(BatchReply::Accepted);
    assert_eq!(s.next_batch(), None);
    let sum = s.summary();
    assert_eq!(sum.total_batches, 3);
    assert_eq!(sum.delivered, 4);
    assert_eq!(sum.total_rows, 7);
    assert_eq!(
        sum.ledger,
        vec![BatchStatus::Delivered, BatchStatus::SoftFailed, BatchStatus::Delivered]
    );
    assert!(sum.completed);
}

#[test]
fn hard_failure_halts_and_preserves_counts() {
    let t = table_of(&["a"], &[&["r0"], &["r1"], &["r2"], &["r3"]]);
    let plan = plan_delivery(&t, &map_of(&[("a", "fldA")]), 2).unwrap();
    let mut s = DeliverySession::start(plan);
    s.record_reply(BatchReply::Accepted);
    s.record_reply(BatchReply::TransportFailed);
    assert_eq!(s.next_batch(), None);
    let sum = s.summary();
    assert_eq!(sum.total_batches, 2);
    assert_eq!(sum.attempted, 2);
    assert_eq!(sum.delivered, 2);
    assert_eq!(
        sum.ledger,
        vec![BatchStatus::Delivered, BatchStatus::HardFailed]
    );
    assert!(!sum.completed);
}

#[test]
fn all_batches_soft_failing_is_distinguishable_from_zero_rows() {
    let t = table_of(&["a"], &[&["r0"]]);
    let plan = plan_delivery(&t, &map_of(&[("a", "fldA")]), 10).unwrap();
    let mut s = DeliverySession::start(plan);
    s.record_reply(BatchReply::BodyRejected);
    let sum = s.summary();
    assert_eq!(sum.delivered, 0);
    assert_eq!(sum.total_batches, 1);
    assert!(sum.completed);
}

#[test]
fn http_status_outside_success_is_hard() {
    assert_eq!(
        classify_response(500, Some(true), Some(200), 200),
        BatchReply::HttpRejected(500)
    );
    assert_eq!(
        classify_response(199, Some(true), Some(200), 200),
        BatchReply::HttpRejected(199)
    );
}

#[test]
fn body_level_rejection_is_soft() {
    assert_eq!(classify_response(200, Some(false), Some(200), 200), BatchReply::BodyRejected);
    assert_eq!(classify_response(200, Some(true), Some(500), 200), BatchReply::BodyRejected);
    assert_eq!(classify_response(200, None, None, 200), BatchReply::BodyRejected);
}

#[test]
fn full_success_is_accepted() {
    assert_eq!(classify_response(201, Some(true), Some(200), 200), BatchReply::Accepted);
}

#[test]
fn upload_body_has_the_documented_shape() {
    let recs = vec![
        vec![
            (String::from("fldA"), String::from("v1")),
            (String::from("fldB"), String::from("v2")),
        ],
        vec![(String::from("fldA"), String::from("v3"))],
    ];
    assert_eq!(
        render_upload_body(&recs),
        "{\"records\":[{\"fldA\":\"v1\",\"fldB\":\"v2\"},{\"fldA\":\"v3\"}],\"fieldKey\":\"id\"}"
    );
}

#[test]
fn upload_body_escapes_cell_text() {
    let recs = vec![vec![(String::from("f"), String::from("a\"b\\c\td"))]];
    assert_eq!(
        render_upload_body(&recs),
        "{\"records\":[{\"f\":\"a\\\"b\\\\c\\td\"}],\"fieldKey\":\"id\"}"
    );
}

#[test]
fn empty_record_list_still_frames_the_body() {
    let recs: Vec<Vec<(String, String)>> = Vec::new();
    assert_eq!(render_upload_body(&recs), "{\"records\":[],\"fieldKey\":\"id\"}");
}
