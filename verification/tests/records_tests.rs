use sparkspeech::models::SpeechRecord;
use sparkspeech::records::{
    delete_record, find_record, page_of, read_record_page, read_records, upsert_record,
    BOOTSTRAP_PAGE_SIZE,
};

fn record(id: &str, created_at: &str) -> SpeechRecord {
    SpeechRecord {
        id: id.into(),
        created_at: created_at.into(),
        updated_at: created_at.into(),
        raw_asr_text: String::new(),
        final_text: String::new(),
        audio_path: None,
        duration_ms: None,
        audio_expires_at: None,
        asr_status: "pending".into(),
        optimize_status: "pending".into(),
        copied_at: None,
        pasted_at: None,
        error_message: None,
        doubao_request_id: None,
        doubao_log_id: None,
        openrouter_model: None,
    }
}

fn ids(records: &[SpeechRecord]) -> Vec<String> {
    records.iter().map(|r| r.id.clone()).collect()
}

#[test]
fn history_is_newest_first_and_stable() {
    let records = vec![
        record("a", "2024-01-01T00:00:00Z"),
        record("b", "2024-03-01T00:00:00Z"),
        record("c", "2024-02-01T00:00:00Z"),
        record("d", "2024-03-01T00:00:00Z"),
    ];
    let sorted = read_records(records);
    assert_eq!(ids(&sorted), vec!["b", "d", "c", "a"]);
}

#[test]
fn sorting_matches_std_sort() {
    let stamps = ["b", "a", "c", "a", "", "ab", "aa", "b"];
    let records: Vec<SpeechRecord> = stamps
        .iter()
        .enumerate()
        .map(|(i, s)| record(&i.to_string(), s))
        .collect();
    let mut expected = records.clone();
    expected.sort_by(|a, b| b.created_at.cmp(&a.created_at));
    assert_eq!(ids(&read_records(records)), ids(&expected));
}

#[test]
fn pages_walk_the_history() {
    let records: Vec<SpeechRecord> = (0..5)
        .map(|i| record(&i.to_string(), &format!("2024-01-0{}", i + 1)))
        .collect();
    let first = read_record_page(records.clone(), 0, 2);
    assert_eq!(ids(&first.records), vec!["4", "3"]);
    assert!(first.has_more);
    assert_eq!(first.total, 5);
    let second = read_record_page(records.clone(), 2, 2);
    assert_eq!(ids(&second.records), vec!["2", "1"]);
    let last = read_record_page(records.clone(), 4, 2);
    assert_eq!(ids(&last.records), vec!["0"]);
    assert!(!last.has_more);
    let beyond = read_record_page(records, 9, 2);
    assert!(beyond.records.is_empty());
    assert!(!beyond.has_more);
    assert_eq!(beyond.offset, 9);
}

#[test]
fn bootstrap_loads_sixty_records() {
    assert_eq!(BOOTSTRAP_PAGE_SIZE, 60);
    let records: Vec<SpeechRecord> = (0..70).map(|i| record(&i.to_string(), &format!("{i:03}"))).collect();
    let page = page_of(read_records(records), 0, BOOTSTRAP_PAGE_SIZE);
    assert_eq!(page.records.len(), 60);
    assert!(page.has_more);
}

#[test]
fn saved_record_is_found_again() {
    let mut records = vec![record("a", "1"), record("b", "2")];
    let mut changed = record("b", "2");
    changed.final_text = "新的".into();
    let saved = upsert_record(&mut records, changed.clone());
    assert_eq!(saved.final_text, "新的");
    assert_eq!(ids(&records), vec!["a", "b"]);
    assert_eq!(find_record(&records, "b").unwrap().final_text, "新的");
    upsert_record(&mut records, record("c", "3"));
    assert_eq!(ids(&records), vec!["c", "a", "b"]);
}

#[test]
fn missing_record_reports_error() {
    let records = vec![record("a", "1")];
    assert_eq!(find_record(&records, "x").unwrap_err(), "找不到这条记录");
}

#[test]
fn deleted_record_is_gone() {
    let mut records = vec![record("a", "1"), record("b", "2"), record("a", "3")];
    delete_record(&mut records, "a");
    assert_eq!(ids(&records), vec!["b"]);
    assert!(find_record(&records, "a").is_err());
}

#[test]
fn upsert_keeps_ids_unique() {
    let mut records = vec![record("a", "2024-01-01T00:00:00Z"), record("b", "2024-01-02T00:00:00Z")];
    upsert_record(&mut records, record("a", "2024-01-03T00:00:00Z"));
    assert_eq!(ids(&records), vec!["a", "b"]);
    upsert_record(&mut records, record("c", "2024-01-04T00:00:00Z"));
    assert_eq!(ids(&records), vec!["c", "a", "b"]);
    assert_eq!(records[1].created_at, "2024-01-03T00:00:00Z");
}
