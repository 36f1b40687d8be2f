use sheet_loader::{
    detect_file_structure, file_extension, find_header_with_regex, is_mixed_structure,
    select_backend, select_sheet, text_contains, workbook_window, Backend, DataLoader,
    DelimitedScan, FileStructure, LoadError, LoadResult, RecordEvent, ScanStep, Session,
    SessionStatus, DELIMITED_SHEET_NAME, WINDOW_INCREMENT,
};

fn record(fields: &[&str]) -> Vec<String> {
    fields.iter().map(|f| f.to_string()).collect()
}

fn sample(lines: &[Vec<String>]) -> Vec<(usize, Vec<String>)> {
    lines.iter().cloned().enumerate().collect()
}

/// Feeds the events of a file to a scan until it answers.
fn scan(events: &[RecordEvent], start_row: usize, row_count: usize) -> Result<LoadResult, LoadError> {
    let mut machine = DelimitedScan::new(start_row, row_count);
    for ev in events {
        if let ScanStep::Finished(r) = machine.feed(ev.clone()) {
            return r;
        }
    }
    panic!("the scan asked for more events than the file holds");
}

fn file_of(records: &[Vec<String>]) -> Vec<RecordEvent> {
    let mut evs: Vec<RecordEvent> = records.iter().cloned().map(RecordEvent::Record).collect();
    evs.push(RecordEvent::End);
    evs
}

fn header_fields() -> Vec<String> {
    record(&[
        "INDEX_NO", "CHIP_ID", "UPL_X", "UPL_Y", "EPI_LOT", "AOI_FLAG", "WP_AVG", "WD_AVG",
        "FWHM_NM", "LOT_ID", "BIN_CODE", "TEST_TIME",
    ])
}

/// Three metadata lines, the header, then `rows` data rows.
fn mixed_file(rows: usize) -> Vec<Vec<String>> {
    let mut lines = vec![
        record(&["User", "alice"]),
        record(&["Date", "2024-01-01"]),
        record(&["Version", "1.2"]),
        header_fields(),
    ];
    for i in 0..rows {
        let mut r = Vec::new();
        for j in 0..12 {
            r.push(format!("{}", i * 100 + j));
        }
        lines.push(r);
    }
    lines
}

fn simple_file(rows: usize) -> Vec<Vec<String>> {
    let mut lines = vec![record(&["name", "age", "city"])];
    for i in 0..rows {
        lines.push(vec![format!("n{}", i), format!("{}", i), "x".to_string()]);
    }
    lines
}

#[test]
fn mixed_structure_detected_at_header_line() {
    let s = sample(&mixed_file(5));
    assert!(is_mixed_structure(&s));
    assert_eq!(find_header_with_regex(&s), Some(3));
    assert_eq!(detect_file_structure(&s).unwrap(), FileStructure::Mixed { header_line: 3 });
}

#[test]
fn simple_structure_when_consistent() {
    let s = sample(&simple_file(5));
    assert!(!is_mixed_structure(&s));
    assert_eq!(detect_file_structure(&s).unwrap(), FileStructure::Simple);
}

#[test]
fn mixed_without_header_row_falls_back_to_simple() {
    let s = sample(&[
        record(&["user", "bob"]),
        record(&["a", "b"]),
        record(&["c", "d"]),
        record(&["e", "f"]),
    ]);
    assert!(is_mixed_structure(&s));
    assert_eq!(find_header_with_regex(&s), None);
    assert_eq!(detect_file_structure(&s).unwrap(), FileStructure::Simple);
}

#[test]
fn wildly_different_field_counts_are_mixed() {
    let s = sample(&[record(&["x", "y"]), record(&["a", "b", "c", "d", "e"]), record(&["p", "q", "r"])]);
    assert!(is_mixed_structure(&s));
}

#[test]
fn twice_the_smallest_count_is_not_mixed() {
    let s = sample(&[record(&["x", "y"]), record(&["a", "b", "c", "d"]), record(&["p", "q", "r"])]);
    assert!(!is_mixed_structure(&s));
}

#[test]
fn single_letter_banner_is_mixed() {
    let s = sample(&[record(&["B"]), record(&["k"]), record(&["z"])]);
    assert!(is_mixed_structure(&s));
    let digits = sample(&[record(&["1"]), record(&["2"]), record(&["3"])]);
    assert!(!is_mixed_structure(&digits));
}

#[test]
fn fewer_than_three_records_are_simple() {
    let s = sample(&[record(&["user", "bob"]), record(&["a", "b", "c", "d", "e", "f"])]);
    assert!(!is_mixed_structure(&s));
}

#[test]
fn header_needs_ten_fields() {
    let s = sample(&[record(&["INDEX_A", "B_C", "D_E", "F_G", "H_I", "J_K", "L_M", "N_O", "P_Q"])]);
    assert_eq!(find_header_with_regex(&s), None);
}

#[test]
fn header_needs_five_compound_names() {
    let s = sample(&[record(&[
        "INDEX_A", "B_C", "D_E", "F_G", "index", "chip", "upl", "epi", "aoi", "wp",
    ])]);
    assert_eq!(find_header_with_regex(&s), None);
    let t = sample(&[record(&[
        "INDEX_A", "B_C", "D_E", "F_G", "H_I", "chip", "upl", "epi", "aoi", "wp",
    ])]);
    assert_eq!(find_header_with_regex(&t), Some(0));
}

#[test]
fn empty_sample_is_empty_source() {
    assert!(matches!(detect_file_structure(&[]), Err(LoadError::EmptySource)));
}

#[test]
fn substring_search() {
    assert!(text_contains("wafer_id", "id"));
    assert!(text_contains("abc", ""));
    assert!(!text_contains("ab", "abc"));
    assert!(!text_contains("abc", "cb"));
}

#[test]
fn end_to_end_mixed_file_in_three_windows() {
    let file = file_of(&mixed_file(250));
    let first = scan(&file, 0, 100).unwrap();
    assert_eq!(first.headers, header_fields());
    assert_eq!(first.rows.len(), 100);
    assert!(!first.end_of_data);
    assert_eq!(first.rows[0][0], "0");
    assert_eq!(first.sheet_names, vec![DELIMITED_SHEET_NAME.to_string()]);
    let second = scan(&file, 100, 100).unwrap();
    assert!(second.headers.is_empty());
    assert_eq!(second.rows.len(), 100);
    assert!(!second.end_of_data);
    assert_eq!(second.rows[0][0], "10000");
    let third = scan(&file, 200, 100).unwrap();
    assert_eq!(third.rows.len(), 50);
    assert!(third.end_of_data);
    assert_eq!(third.rows[49][0], "24900");
}

#[test]
fn same_window_twice_gives_same_rows() {
    let file = file_of(&simple_file(30));
    let a = scan(&file, 0, 10).unwrap();
    let b = scan(&file, 0, 10).unwrap();
    assert_eq!(a.rows, b.rows);
    assert_eq!(a.headers, record(&["name", "age", "city"]));
}

#[test]
fn after_end_of_data_no_more_rows() {
    let file = file_of(&simple_file(5));
    let a = scan(&file, 0, 10).unwrap();
    assert_eq!(a.rows.len(), 5);
    assert!(a.end_of_data);
    let b = scan(&file, 5, 10).unwrap();
    assert!(b.rows.is_empty());
    assert!(b.end_of_data);
}

#[test]
fn exactly_filled_window_is_not_end_of_data() {
    let file = file_of(&simple_file(10));
    let a = scan(&file, 0, 10).unwrap();
    assert_eq!(a.rows.len(), 10);
    assert!(!a.end_of_data);
}

#[test]
fn ragged_record_is_returned_as_is() {
    let mut lines = simple_file(8);
    lines[6] = record(&["short"]);
    let r = scan(&file_of(&lines), 0, 100).unwrap();
    assert_eq!(r.rows.len(), 8);
    assert_eq!(r.rows[5], record(&["short"]));
    assert!(r.end_of_data);
}

#[test]
fn long_file_window_past_the_sample() {
    let file = file_of(&simple_file(500));
    let r = scan(&file, 300, 20).unwrap();
    assert_eq!(r.rows.len(), 20);
    assert_eq!(r.rows[0][0], "n300");
    assert!(!r.end_of_data);
}

#[test]
fn empty_file_is_empty_source() {
    assert!(matches!(scan(&[RecordEvent::End], 0, 100), Err(LoadError::EmptySource)));
}

#[test]
fn malformed_record_in_window_fails() {
    let mut file = file_of(&simple_file(5));
    file[3] = RecordEvent::Malformed("bad utf-8".to_string());
    match scan(&file, 0, 100) {
        Err(LoadError::DecodeError(m)) => assert_eq!(m, "bad utf-8"),
        other => panic!("unexpected {:?}", other),
    }
}

#[test]
fn malformed_record_before_window_is_skipped() {
    let mut file = file_of(&simple_file(100));
    file[60] = RecordEvent::Malformed("bad".to_string());
    let r = scan(&file, 70, 5).unwrap();
    assert_eq!(r.rows.len(), 5);
    assert_eq!(r.rows[0][0], "n70");
}

#[test]
fn sheet_index_out_of_range_uses_first_sheet() {
    let names = record(&["A", "B", "C"]);
    assert_eq!(select_sheet(&names, 7).unwrap(), 0);
    assert_eq!(select_sheet(&names, 2).unwrap(), 2);
    assert!(matches!(select_sheet(&Vec::new(), 0), Err(LoadError::NoSheets)));
}

fn sheet(rows: usize) -> Vec<Vec<String>> {
    let mut s = vec![record(&["h1", "h2"])];
    for i in 0..rows {
        s.push(vec![format!("r{}", i), "v".to_string()]);
    }
    s
}

#[test]
fn workbook_windows() {
    let names = record(&["S1", "S2"]);
    let a = workbook_window(sheet(150), names.clone(), 0, 100);
    assert_eq!(a.headers, record(&["h1", "h2"]));
    assert_eq!(a.rows.len(), 100);
    assert_eq!(a.rows[0][0], "r0");
    assert!(!a.end_of_data);
    assert_eq!(a.sheet_names, names);
    let b = workbook_window(sheet(150), names.clone(), 100, 100);
    assert!(b.headers.is_empty());
    assert_eq!(b.rows.len(), 50);
    assert_eq!(b.rows[0][0], "r100");
    assert!(b.end_of_data);
    let c = workbook_window(sheet(150), names, 150, 100);
    assert!(c.rows.is_empty());
    assert!(c.end_of_data);
}

#[test]
fn empty_sheet_window() {
    let r = workbook_window(Vec::new(), record(&["S1"]), 0, 100);
    assert!(r.headers.is_empty());
    assert!(r.rows.is_empty());
    assert!(r.end_of_data);
}

#[test]
fn dispatch_by_extension() {
    assert_eq!(select_backend("/data/file.csv").unwrap(), Backend::DelimitedText);
    assert_eq!(select_backend("REPORT.CSV").unwrap(), Backend::DelimitedText);
    assert_eq!(select_backend("book.xlsx").unwrap(), Backend::Workbook);
    assert_eq!(select_backend("book.XLS").unwrap(), Backend::Workbook);
    assert_eq!(select_backend("sheet.ods").unwrap(), Backend::Workbook);
    assert_eq!(DataLoader::new().backend_for_path("a.b.csv").unwrap(), Backend::DelimitedText);
}

#[test]
fn dispatch_rejects_text_files() {
    match select_backend("notes.txt") {
        Err(LoadError::UnsupportedFormat(e)) => assert_eq!(e, "txt"),
        other => panic!("unexpected {:?}", other),
    }
    match select_backend("dir.csv/README") {
        Err(LoadError::UnsupportedFormat(e)) => assert_eq!(e, ""),
        other => panic!("unexpected {:?}", other),
    }
}

#[test]
fn extensions() {
    assert_eq!(file_extension("a/b/c.Csv"), Some("Csv".to_string()));
    assert_eq!(file_extension(".csv"), None);
    assert_eq!(file_extension("x\\y.ods"), Some("ods".to_string()));
    assert_eq!(file_extension("name."), Some(String::new()));
    assert_eq!(file_extension("plain"), None);
}

fn window(headers: &[&str], rows: usize, names: &[&str], end: bool) -> LoadResult {
    LoadResult {
        headers: record(headers),
        rows: (0..rows).map(|i| vec![format!("{}", i)]).collect(),
        sheet_names: record(names),
        end_of_data: end,
    }
}

#[test]
fn session_first_request_and_merge() {
    let mut s = Session::new();
    assert_eq!(s.current_status(), SessionStatus::Idle);
    assert!(s.load_more_data().is_none());
    let q = s.open_file("a.csv".to_string()).unwrap();
    assert_eq!((q.start_row, q.row_count, q.sheet_index), (0, WINDOW_INCREMENT, 0));
    assert_eq!(s.current_status(), SessionStatus::Loading);
    assert!(s.load_more_data().is_none());
    assert!(s.handle_data_response(q.generation, Ok(window(&["h"], 100, &["CSV"], false))));
    assert_eq!(s.table().len(), 100);
    assert!(!s.is_excel_file());
    let q2 = s.near_bottom().unwrap();
    assert_eq!((q2.start_row, q2.row_count), (100, 100));
}

#[test]
fn session_headers_stay_resolved() {
    let mut s = Session::new();
    let q = s.open_file("a.csv".to_string()).unwrap();
    assert!(s.handle_data_response(q.generation, Ok(window(&["h1"], 100, &["CSV"], false))));
    let q2 = s.near_bottom().unwrap();
    assert!(s.handle_data_response(q2.generation, Ok(window(&["other"], 100, &["CSV"], false))));
    assert_eq!(s.headers(), &record(&["h1"]));
    assert_eq!(s.table().len(), 200);
}

#[test]
fn session_end_of_data_stops_requests() {
    let mut s = Session::new();
    let q = s.open_file("a.csv".to_string()).unwrap();
    assert!(s.handle_data_response(q.generation, Ok(window(&["h"], 40, &["CSV"], true))));
    assert_eq!(s.current_status(), SessionStatus::Complete);
    assert!(s.near_bottom().is_none());
    assert!(s.load_more_data().is_none());
    assert!(!s.handle_data_response(q.generation, Ok(window(&[], 10, &["CSV"], true))));
    assert_eq!(s.table().len(), 40);
}

#[test]
fn session_discards_stale_results() {
    let mut s = Session::new();
    let old = s.open_file("a.xlsx".to_string()).unwrap();
    let new = s.open_file("b.xlsx".to_string()).unwrap();
    assert_ne!(old.generation, new.generation);
    assert!(!s.handle_data_response(old.generation, Ok(window(&["x"], 5, &["S"], false))));
    assert!(s.table().is_empty());
    assert!(s.handle_data_response(new.generation, Ok(window(&["y"], 5, &["S1", "S2"], false))));
    assert!(s.is_excel_file());
    assert_eq!(s.sheet_names(), &record(&["S1", "S2"]));
}

#[test]
fn session_switch_sheet_resets() {
    let mut s = Session::new();
    let q = s.open_file("a.xlsx".to_string()).unwrap();
    assert!(s.handle_data_response(q.generation, Ok(window(&["x"], 5, &["S1", "S2", "S3"], true))));
    assert!(s.switch_sheet(0).is_none());
    assert!(s.switch_sheet(9).is_none());
    let q2 = s.switch_sheet(2).unwrap();
    assert_eq!((q2.start_row, q2.row_count, q2.sheet_index), (0, WINDOW_INCREMENT, 2));
    assert!(s.table().is_empty());
    assert!(s.headers().is_empty());
    assert_eq!(s.current_sheet(), 2);
    assert!(!s.handle_data_response(q.generation, Ok(window(&["x"], 5, &["S1"], true))));
}

#[test]
fn session_error_keeps_rows_and_blocks_retry() {
    let mut s = Session::new();
    let q = s.open_file("a.csv".to_string()).unwrap();
    assert!(s.handle_data_response(q.generation, Ok(window(&["h"], 100, &["CSV"], false))));
    let q2 = s.near_bottom().unwrap();
    assert!(s.handle_data_response(q2.generation, Err("decode".to_string())));
    assert_eq!(s.current_status(), SessionStatus::Error);
    assert_eq!(s.error(), Some(&"decode".to_string()));
    assert_eq!(s.table().len(), 100);
    assert!(s.load_more_data().is_none());
    assert!(s.open_file("b.csv".to_string()).is_some());
    assert!(s.error().is_none());
}
