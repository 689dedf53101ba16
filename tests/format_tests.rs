use rustman::{determine_format_from_path, find_request_files, format_for, is_request_file, FileFormat, ValidationError};

#[test]
fn test_unsupported_format() {
    let result = determine_format_from_path("/tmp/.tmpQ3x9Zk.txt", "some text");
    assert!(result.is_err());
    match result.err().unwrap() {
        ValidationError::UnsupportedFormat(ext) => assert_eq!(ext, "txt"),
        e => panic!("Expected UnsupportedFormat error, got {:?}", e),
    }
}

#[test]
fn request_txt_is_unsupported_and_not_scanned() {
    assert_eq!(
        determine_format_from_path("request.txt", "name: x"),
        Err(ValidationError::UnsupportedFormat("txt".to_string()))
    );
    assert!(!is_request_file("request.txt"));
}

#[test]
fn extension_decides_when_present() {
    assert_eq!(determine_format_from_path("a/b.yaml", "{\"name\": 1}"), Ok(FileFormat::Yaml));
    assert_eq!(determine_format_from_path("b.yml", "{"), Ok(FileFormat::Yaml));
    assert_eq!(determine_format_from_path("dir.v2/b.json", "name: x"), Ok(FileFormat::Json));
    assert_eq!(
        determine_format_from_path("b.YAML", "x"),
        Err(ValidationError::UnsupportedFormat("YAML".to_string()))
    );
    assert_eq!(
        determine_format_from_path("archive.tar.gz", "x"),
        Err(ValidationError::UnsupportedFormat("gz".to_string()))
    );
}

#[test]
fn content_is_sniffed_without_extension() {
    assert_eq!(determine_format_from_path("/tmp/.tmpAbCdEf", "{\"name\": \"SniffJSON\", \"value\": 789}"), Ok(FileFormat::Json));
    assert_eq!(determine_format_from_path("/tmp/.tmpAbCdEf", "name: SniffYAML\nvalue: 101"), Ok(FileFormat::Yaml));
    assert_eq!(determine_format_from_path("request", " \n\t{\"a\":1}"), Ok(FileFormat::Json));
    assert_eq!(determine_format_from_path("request", "\u{3000}{}"), Ok(FileFormat::Json));
    assert_eq!(determine_format_from_path("request", ""), Ok(FileFormat::Yaml));
    assert_eq!(determine_format_from_path("request", "[1, 2]"), Ok(FileFormat::Yaml));
    assert_eq!(determine_format_from_path(".hidden", "{}"), Ok(FileFormat::Json));
}

#[test]
fn format_for_given_extension() {
    assert_eq!(format_for(Some("json"), "x"), Ok(FileFormat::Json));
    assert_eq!(format_for(Some(""), "{}"), Err(ValidationError::UnsupportedFormat(String::new())));
    assert_eq!(format_for(None, "  {"), Ok(FileFormat::Json));
}

#[test]
fn request_files_by_extension() {
    assert!(is_request_file("x/a.yaml"));
    assert!(is_request_file("a.yml"));
    assert!(is_request_file("a.json"));
    assert!(!is_request_file("a"));
    assert!(!is_request_file(".yaml"));
    assert!(!is_request_file("a.jsonl"));
}

#[test]
fn find_request_files_keeps_order() {
    let paths: Vec<String> = ["d/b.json", "d/notes.txt", "d/a.yaml", "d/README", "d/c.yml"]
        .iter()
        .map(|s| s.to_string())
        .collect();
    assert_eq!(find_request_files(&paths), vec!["d/b.json".to_string(), "d/a.yaml".to_string(), "d/c.yml".to_string()]);
    assert!(find_request_files(&Vec::new()).is_empty());
}
