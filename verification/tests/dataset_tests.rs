use vcgen::dataset::{decode_row, encode_record};
use vcgen::record::AnalyzedFile;

fn record(
    findings: Option<Vec<&str>>,
    cwes: Option<Vec<&str>>,
) -> AnalyzedFile {
    AnalyzedFile::new(
        String::from("https://example.test/r.git"),
        String::from("deadbeef"),
        String::from("src/a.c"),
        String::from("int main() { return 0; }\n"),
        findings.map(|v| v.into_iter().map(String::from).collect()),
        cwes.map(|v| v.into_iter().map(String::from).collect()),
    )
}

#[test]
fn round_trip_preserves_every_field_for_well_formed_lists() {
    let original = record(
        Some(vec!["strcpy-use", "gets-use"]),
        Some(vec!["CWE-120", "CWE-676"]),
    );
    let row = encode_record(&original);
    assert_eq!(row.repo_url, "https://example.test/r.git");
    assert_eq!(row.commit_hash, "deadbeef");
    assert_eq!(row.repo_file_path, "src/a.c");
    assert_eq!(row.code, "int main() { return 0; }\n");
    assert_eq!(row.flawfinder_results.as_deref(), Some("strcpy-use gets-use"));
    assert_eq!(row.flawfinder_cwes.as_deref(), Some("CWE-120 CWE-676"));

    let read_back = decode_row(&row);
    assert_eq!(read_back.repo_url(), original.repo_url());
    assert_eq!(read_back.commit_hash(), original.commit_hash());
    assert_eq!(read_back.repo_file_path(), original.repo_file_path());
    assert_eq!(read_back.code(), original.code());
    assert_eq!(read_back.flawfinder_results(), original.flawfinder_results());
    assert_eq!(read_back.flawfinder_cwes(), original.flawfinder_cwes());
}

#[test]
fn absent_analyzer_cells_stay_absent() {
    let original = record(None, None);
    let row = encode_record(&original);
    assert_eq!(row.flawfinder_results, None);
    assert_eq!(row.flawfinder_cwes, None);
    let read_back = decode_row(&row);
    assert!(read_back.flawfinder_results().is_none());
    assert!(read_back.flawfinder_cwes().is_none());
}

#[test]
fn empty_lists_round_trip_through_empty_cells() {
    let original = record(Some(vec![]), Some(vec![]));
    let row = encode_record(&original);
    assert_eq!(row.flawfinder_results.as_deref(), Some(""));
    assert_eq!(row.flawfinder_cwes.as_deref(), Some(""));
    let read_back = decode_row(&row);
    assert_eq!(read_back.flawfinder_results().unwrap().len(), 0);
    assert_eq!(read_back.flawfinder_cwes().unwrap().len(), 0);
}

/// The documented limitation: a finding that itself holds a space does not
/// survive the whitespace join.
#[test]
fn findings_with_spaces_split_apart_on_read_back() {
    let original = record(Some(vec!["two words"]), None);
    let row = encode_record(&original);
    assert_eq!(row.flawfinder_results.as_deref(), Some("two words"));
    let read_back = decode_row(&row);
    assert_eq!(
        read_back.flawfinder_results().unwrap(),
        &vec![String::from("two"), String::from("words")]
    );
    // The scalar fields survive regardless.
    assert_eq!(read_back.commit_hash(), original.commit_hash());
    assert_eq!(read_back.code(), original.code());
}
