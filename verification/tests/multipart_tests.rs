use s3_cli::multipart::{
    list_uploads, upload_to_abort, MultipartError, UploadRow, UploadSummary, MAX_CHRONO_MILLIS,
    MIN_CHRONO_MILLIS,
};
use s3_cli::number::{format_i64, parse_i64};

fn upload(key: Option<&str>, millis: Option<i64>, id: Option<&str>) -> UploadSummary {
    UploadSummary {
        key: key.map(|k| k.to_string()),
        initiated_millis: millis,
        upload_id: id.map(|i| i.to_string()),
    }
}

#[test]
fn parses_like_std() {
    for s in ["0", "123", "-5", "+7", "", "-", "+", "12a", " 1", "007", "-0",
        "9223372036854775807", "9223372036854775808", "-9223372036854775808",
        "-9223372036854775809", "99999999999999999999999", "1-2", "+-1"] {
        assert_eq!(parse_i64(s), s.parse::<i64>().ok(), "input {:?}", s);
    }
}

#[test]
fn picks_the_first_upload_with_the_timestamp() {
    let uploads = vec![
        upload(Some("a"), Some(1_700_000_000_000), Some("id-a")),
        upload(Some("b"), Some(1_700_000_000_500), Some("id-b")),
        upload(Some("c"), Some(1_700_000_000_500), Some("id-c")),
    ];
    assert_eq!(upload_to_abort(&uploads, "b", "1700000000500"), Ok(Some("id-b".to_string())));
    assert_eq!(upload_to_abort(&uploads, "a", "1700000000000"), Ok(Some("id-a".to_string())));
    assert_eq!(upload_to_abort(&uploads, "a", "42"), Ok(None));
    assert_eq!(upload_to_abort(&uploads, "a", "soon"), Err(MultipartError::InvalidTimestampId));
    assert_eq!(upload_to_abort(&Vec::new(), "a", "soon"), Ok(None));
}

#[test]
fn matching_upload_without_id_aborts_nothing() {
    let uploads = vec![upload(Some("a"), Some(5), None), upload(Some("a"), Some(5), Some("x"))];
    assert_eq!(upload_to_abort(&uploads, "a", "5"), Ok(None));
}

#[test]
fn missing_or_out_of_range_times_stop_the_search() {
    let uploads = vec![upload(Some("a"), Some(5), Some("x")), upload(Some("b"), None, Some("y"))];
    assert_eq!(upload_to_abort(&uploads, "a", "5"), Ok(Some("x".to_string())));
    assert_eq!(upload_to_abort(&uploads, "a", "6"), Err(MultipartError::MissingTimestamp));
    let far = vec![upload(Some("a"), Some(i64::MAX), Some("x"))];
    assert_eq!(upload_to_abort(&far, "a", "6"), Err(MultipartError::TimestampOutOfRange));
}

#[test]
fn listing_numbers_rows_from_one() {
    let uploads = Some(vec![
        upload(Some("a"), Some(10), Some("x")),
        upload(Some("b"), Some(-20), None),
    ]);
    assert_eq!(
        list_uploads(&uploads),
        Ok(vec![
            UploadRow { num: 1, key: "a".to_string(), timestamp_id: 10 },
            UploadRow { num: 2, key: "b".to_string(), timestamp_id: -20 },
        ])
    );
    assert_eq!(list_uploads(&None), Err(MultipartError::NoUploads));
    assert_eq!(list_uploads(&Some(Vec::new())), Ok(Vec::new()));
    let keyless = Some(vec![upload(None, Some(1), None)]);
    assert_eq!(list_uploads(&keyless), Err(MultipartError::MissingKey));
    let far = Some(vec![upload(Some("a"), Some(i64::MIN), None)]);
    assert_eq!(list_uploads(&far), Err(MultipartError::TimestampOutOfRange));
}

#[test]
fn deleting_by_a_listed_timestamp_picks_the_first_upload_with_it() {
    let list = vec![
        upload(Some("a"), Some(1_000), Some("id-a")),
        upload(Some("b"), Some(2_000), Some("id-b")),
        upload(Some("c"), Some(2_000), Some("id-c")),
        upload(Some("d"), Some(-3_000), Some("id-d")),
    ];
    let rows = list_uploads(&Some(list.clone())).unwrap();
    let picked: Vec<Option<String>> = rows
        .iter()
        .map(|row| upload_to_abort(&list, &row.key, &format_i64(row.timestamp_id)).unwrap())
        .collect();
    assert_eq!(
        picked,
        vec![
            Some("id-a".to_string()),
            Some("id-b".to_string()),
            Some("id-c".to_string()),
            Some("id-d".to_string()),
        ]
    );
}

#[test]
fn uploads_in_the_same_millisecond_are_told_apart_by_key() {
    let uploads = vec![
        upload(Some("a"), Some(1_700_000_000_000), Some("i1")),
        upload(Some("b"), Some(1_700_000_000_000), Some("i2")),
    ];
    assert_eq!(upload_to_abort(&uploads, "b", "1700000000000"), Ok(Some("i2".to_string())));
    assert_eq!(upload_to_abort(&uploads, "a", "1700000000000"), Ok(Some("i1".to_string())));
    assert_eq!(upload_to_abort(&uploads, "c", "1700000000000"), Ok(None));
}

#[test]
fn one_upload_at_five_milliseconds_is_picked() {
    let uploads = vec![upload(Some("k"), Some(5), Some("id"))];
    assert_eq!(upload_to_abort(&uploads, "k", "5"), Ok(Some("id".to_string())));
}

#[test]
fn timestamp_range_matches_chrono() {
    assert!(chrono::DateTime::from_timestamp_millis(MIN_CHRONO_MILLIS).is_some());
    assert!(chrono::DateTime::from_timestamp_millis(MIN_CHRONO_MILLIS - 1).is_none());
    assert!(chrono::DateTime::from_timestamp_millis(MAX_CHRONO_MILLIS).is_some());
    assert!(chrono::DateTime::from_timestamp_millis(MAX_CHRONO_MILLIS + 1).is_none());
    let edge = Some(vec![
        upload(Some("lo"), Some(MIN_CHRONO_MILLIS), None),
        upload(Some("hi"), Some(MAX_CHRONO_MILLIS), None),
    ]);
    assert_eq!(list_uploads(&edge).unwrap().len(), 2);
    let below = Some(vec![upload(Some("x"), Some(MIN_CHRONO_MILLIS - 1), None)]);
    assert_eq!(list_uploads(&below), Err(MultipartError::TimestampOutOfRange));
    let above = Some(vec![upload(Some("x"), Some(MAX_CHRONO_MILLIS + 1), None)]);
    assert_eq!(list_uploads(&above), Err(MultipartError::TimestampOutOfRange));
}

#[test]
fn formatting_matches_std_and_parses_back() {
    for x in [0i64, 7, 10, -1, -10, 1_700_000_000_000, i64::MAX, i64::MIN, -9_999] {
        assert_eq!(format_i64(x), x.to_string());
        assert_eq!(parse_i64(&format_i64(x)), Some(x));
    }
}

#[test]
fn listing_comes_with_local_times() {
    let list = Some(vec![
        upload(Some("a"), Some(1_700_000_000_000), Some("x")),
        upload(Some("b"), Some(MAX_CHRONO_MILLIS), None),
    ]);
    let (rows, times) = s3_cli::multipart::list_uploads_with_times(&list).unwrap();
    assert_eq!(rows, list_uploads(&list).unwrap());
    assert_eq!(times.len(), 2);
    assert!(times[0].starts_with("Nov 1"));
    assert!(times[0].contains(", 2023 - "));
    assert!(times[1].contains("26214"), "{}", times[1]);
    assert_ne!(times[0], times[1]);
    assert_eq!(
        s3_cli::multipart::list_uploads_with_times(&None),
        Err(MultipartError::NoUploads)
    );
    let keyless = Some(vec![upload(None, Some(1), None)]);
    assert_eq!(
        s3_cli::multipart::list_uploads_with_times(&keyless),
        Err(MultipartError::MissingKey)
    );
}
