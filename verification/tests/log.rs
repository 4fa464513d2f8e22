use column_mapping_lab::{
    add_partition_keys, is_log, latest_add_summary, latest_log_json, latest_metadata_action, log_file_name, log_version,
    next_log_version, parse_json, read_metadata_action, render_json, AddSummary, IntegerError, LabError, LogFile, TextMap,
};

fn names(list: &[&str]) -> Vec<Vec<u8>> {
    list.iter().map(|name| name.as_bytes().to_vec()).collect()
}

fn log(name: &str, contents: Option<&str>) -> LogFile {
    LogFile { name: name.as_bytes().to_vec(), contents: contents.map(|text| text.to_string()) }
}

fn keys(summary: &AddSummary) -> Vec<String> {
    (0..summary.partition_keys.len()).map(|at| summary.partition_keys.entry(at).0.to_string()).collect()
}

#[test]
fn logs_are_told_by_their_ending() {
    assert!(is_log(&b"00000000000000000000.json".to_vec()));
    assert!(is_log(&b"a.json".to_vec()));
    assert!(!is_log(&b".json".to_vec()));
    assert!(!is_log(&b"json".to_vec()));
    assert!(!is_log(&b"a.json.crc".to_vec()));
    assert!(!is_log(&b"_last_checkpoint".to_vec()));
    for name in ["a.json", ".json", "..json", "a.JSON", "x.y.json", "json", "a.jsonx"] {
        let found = std::path::Path::new(name).extension().is_some_and(|ext| ext == "json");
        assert_eq!(is_log(&name.as_bytes().to_vec()), found);
    }
}

#[test]
fn latest_log_is_the_last_in_order() {
    let list = names(&["00000000000000000001.json", "00000000000000000010.json", "z.txt", "00000000000000000002.json"]);
    assert_eq!(latest_log_json(&list).unwrap(), &b"00000000000000000010.json".to_vec());
}

#[test]
fn table_without_log_is_reported() {
    assert!(matches!(latest_log_json(&names(&["x.crc"])), Err(LabError::MissingLogJson)));
    assert!(matches!(next_log_version(&Vec::new()), Err(LabError::MissingLogJson)));
}

#[test]
fn next_version_follows_the_latest_log() {
    assert_eq!(next_log_version(&names(&["00000000000000000000.json", "00000000000000000001.json"])).unwrap(), 2);
    assert_eq!(log_version(&b"00000000000000000007.json".to_vec()).unwrap(), 7);
}

#[test]
fn log_names_that_are_no_versions_are_reported() {
    assert!(matches!(
        next_log_version(&names(&["x.json"])),
        Err(LabError::LogVersion(IntegerError::InvalidDigit))
    ));
    assert!(matches!(
        next_log_version(&names(&["99999999999999999999.json"])),
        Err(LabError::LogVersion(IntegerError::TooLarge))
    ));
    assert!(matches!(next_log_version(&vec![vec![0xff, b'.', b'j', b's', b'o', b'n']]), Err(LabError::LogName)));
}

#[test]
fn log_names_hold_their_version() {
    assert_eq!(log_file_name(1), "00000000000000000001.json");
    assert_eq!(log_file_name(u64::MAX), "18446744073709551615.json");
    for version in [0, 1, 9, 10, 12345, u64::MAX] {
        assert_eq!(log_version(&log_file_name(version).into_bytes()).unwrap(), version);
    }
    assert!(log_file_name(9) < log_file_name(10));
}

#[test]
fn next_log_becomes_the_latest() {
    let mut list = names(&["00000000000000000008.json", "00000000000000000009.json"]);
    let next = log_file_name(next_log_version(&list).unwrap());
    assert!(!list.contains(&next.clone().into_bytes()));
    list.push(next.clone().into_bytes());
    assert_eq!(latest_log_json(&list).unwrap(), &next.into_bytes());
}

#[test]
fn metadata_is_that_of_the_first_line_with_any() {
    let contents = "{\"commitInfo\":{}}\n{\"metaData\":{\"id\":\"a\"}}\n{\"metaData\":{\"id\":\"b\"}}\nno json\n";
    let metadata = read_metadata_action(contents, "/t/0.json").unwrap();
    assert_eq!(render_json(&metadata), r#"{"id":"a"}"#);
}

#[test]
fn metadata_behind_a_broken_line_is_not_read() {
    assert!(matches!(read_metadata_action("no json\n{\"metaData\":{}}\n", "/t/0.json"), Err(LabError::Json(_))));
    match read_metadata_action("{}\n", "/t/0.json") {
        Err(LabError::MissingMetadataAction(path)) => assert_eq!(path, "/t/0.json"),
        other => panic!("{other:?}"),
    }
}

#[test]
fn latest_metadata_wins() {
    let logs = vec![
        log("00000000000000000001.json", Some("{\"metaData\":{\"id\":\"new\"}}\n")),
        log("00000000000000000000.json", Some("{\"metaData\":{\"id\":\"old\"}}\n")),
        log("00000000000000000002.json", Some("{\"add\":{}}\n")),
        log("00000000000000000003.json", Some("broken\n")),
        log("00000000000000000004.json", None),
        log("99.crc", Some("{\"metaData\":{\"id\":\"none\"}}\n")),
    ];
    assert_eq!(render_json(&latest_metadata_action(&logs, "/t").unwrap()), r#"{"id":"new"}"#);
}

#[test]
fn table_without_metadata_is_reported() {
    match latest_metadata_action(&vec![log("0.json", Some("{}"))], "/t") {
        Err(LabError::MissingMetadataAction(path)) => assert_eq!(path, "/t"),
        other => panic!("{other:?}"),
    }
}

#[test]
fn partition_keys_of_all_added_files_are_gathered() {
    let contents = concat(&[
        r#"{"commitInfo":{}}"#,
        r#"{"add":{"path":"a","partitionValues":{"b":"1","a":"2"}}}"#,
        r#"{"add":{"path":"b","partitionValues":{"c":null,"a":"3"}}}"#,
        r#"{"add":{"path":"c"}}"#,
        r#"{"add":{"partitionValues":[]}}"#,
    ]);
    assert_eq!(keys(&latest_add_summary(&contents).unwrap()), vec!["a", "b", "c"]);
    assert!(keys(&latest_add_summary("").unwrap()).is_empty());
}

fn concat(lines: &[&str]) -> String {
    lines.iter().map(|line| format!("{line}\n")).collect()
}

#[test]
fn broken_log_has_no_partition_keys() {
    assert!(matches!(latest_add_summary("{}\n\n"), Err(LabError::Json(_))));
    let words = latest_add_summary("{}\n[\n{\n").unwrap_err().message().unwrap();
    assert_eq!(words, "EOF while parsing a list at line 1 column 1");
}

#[test]
fn keys_of_an_action_are_added() {
    let summary = AddSummary { partition_keys: TextMap::new().with("x".to_string(), ()) };
    let action = parse_json(r#"{"add":{"partitionValues":{"y":"1"}}}"#).unwrap();
    assert_eq!(keys(&add_partition_keys(summary, &action)), vec!["x", "y"]);
}

#[test]
fn any_log_makes_a_latest_one() {
    for list in [vec!["a.json"], vec!["x.crc", "b.json", "a.json"], vec!["x", "y"]] {
        let found = latest_log_json(&names(&list)).is_ok();
        assert_eq!(found, list.iter().any(|name| name.ends_with(".json")));
    }
    let held = "{\"metaData\":{}}";
    assert!(latest_metadata_action(&vec![log("b.json", None), log("a.json", Some(held))], "/t").is_ok());
    assert!(latest_metadata_action(&vec![log("b.crc", Some(held)), log("a.json", None)], "/t").is_err());
}
