use cargo_registry::download::{CrateDownload, LoadError, Row, Timestamp, Value, VersionDownload};

fn version_row(date: Value) -> Row {
    Row {
        columns: vec![
            ("id".to_string(), Value::Int(7)),
            ("version_id".to_string(), Value::Int(42)),
            ("downloads".to_string(), Value::Int(100)),
            ("counted".to_string(), Value::Int(90)),
            ("date".to_string(), date),
        ],
    }
}

#[test]
fn find_without_row_is_not_found() {
    assert!(matches!(VersionDownload::find(12345, None), Err(LoadError::NotFound(12345))));
    assert!(matches!(CrateDownload::find(-1, None), Err(LoadError::NotFound(-1))));
}

#[test]
fn find_rejects_a_row_for_another_id() {
    let row = version_row(Value::Time(0, 0));
    assert!(matches!(VersionDownload::find(8, Some(row)), Err(LoadError::NotFound(8))));
}

#[test]
fn find_reads_the_row() {
    let d = VersionDownload::find(7, Some(version_row(Value::Time(0, 0)))).unwrap();
    assert_eq!(
        d,
        VersionDownload {
            id: 7,
            version_id: 42,
            downloads: 100,
            counted: 90,
            date: Timestamp { sec: 0, nsec: 0 },
        }
    );
}

#[test]
fn encodable_drops_counted() {
    let d = VersionDownload::from_row(&version_row(Value::Time(1_400_000_000, 5))).unwrap();
    let e = d.encodable();
    assert_eq!(e.id, 7);
    assert_eq!(e.version, 42);
    assert_eq!(e.downloads, 100);
    assert_eq!(e.date, "2014-05-13T16:53:20Z");
}

#[test]
fn epoch_renders_as_rfc3339() {
    assert_eq!(Timestamp { sec: 0, nsec: 0 }.encode(), "1970-01-01T00:00:00Z");
}

#[test]
fn missing_and_mistyped_columns() {
    let mut row = version_row(Value::Time(0, 0));
    row.columns.remove(3);
    assert!(matches!(VersionDownload::from_row(&row), Err(LoadError::MissingColumn(c)) if c == "counted"));
    let row = version_row(Value::Int(3));
    assert!(matches!(VersionDownload::from_row(&row), Err(LoadError::WrongType(c)) if c == "date"));
    let row = version_row(Value::Time(0, 1_000_000_000));
    assert!(matches!(VersionDownload::from_row(&row), Err(LoadError::WrongType(c)) if c == "date"));
}

#[test]
fn crate_download_from_row() {
    let row = Row {
        columns: vec![
            ("date".to_string(), Value::Time(86_400, 0)),
            ("downloads".to_string(), Value::Int(3)),
            ("crate_id".to_string(), Value::Int(9)),
            ("id".to_string(), Value::Int(1)),
            ("id".to_string(), Value::Int(2)),
        ],
    };
    let d = CrateDownload::find(1, Some(row)).unwrap();
    assert_eq!(d.id, 1);
    assert_eq!(d.crate_id, 9);
    assert_eq!(d.downloads, 3);
    assert_eq!(d.date, Timestamp { sec: 86_400, nsec: 0 });
    assert_eq!(VersionDownload::table_name(), "version_downloads");
    assert_eq!(CrateDownload::table_name(), "crate_downloads");
}

#[test]
fn row_accessors() {
    let row = version_row(Value::Time(0, 0));
    assert_eq!(row.get_int("downloads").unwrap(), 100);
    assert!(matches!(row.get_int("date"), Err(LoadError::WrongType(_))));
    assert!(matches!(row.get_time("nope"), Err(LoadError::MissingColumn(_))));
}
