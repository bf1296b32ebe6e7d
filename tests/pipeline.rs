use std::collections::HashSet;

use emote_fetch::catalog::TTVEmoteData;
use emote_fetch::pipeline::{image_file_name, image_url_of, manifest_line_of, DownloadBatch};

/// Runs a batch against a set of file names, every fetch succeeding; returns
/// the addresses fetched and the manifest text.
fn run_batch(template: &String, records: &mut Vec<(String, String)>, files: &mut HashSet<String>) -> (Vec<String>, String) {
    let mut batch = DownloadBatch::new(template, records);
    let mut fetched = Vec::new();
    let mut manifest = String::new();
    while !batch.is_done() {
        let file = batch.current_file();
        match batch.decide(files.contains(&file)) {
            None => {}
            Some(d) => {
                fetched.push(d.url.clone());
                files.insert(d.file_name.clone());
                if let Some(line) = batch.finish(true) {
                    manifest.push_str(&line);
                }
            }
        }
    }
    (fetched, manifest)
}

#[test]
fn end_to_end_single_emote() {
    let mut data = TTVEmoteData::new();
    let body = r#"{"template":{"small":"https://x/{image_id}/1.0"},"emotes":{"Kappa":{"image_id":25}}}"#;
    data.get_global_emotes(body).unwrap();
    let mut files = HashSet::new();
    let (fetched, manifest) = run_batch(&data.template, &mut data.data, &mut files);
    assert_eq!(fetched, vec!["https://x/25/1.0".to_string()]);
    assert!(files.contains("25.png"));
    assert_eq!(manifest, "25.png = \"Kappa\"\n");
    assert!(data.data.is_empty());
}

#[test]
fn second_run_fetches_nothing() {
    let template = "https://x/{image_id}".to_string();
    let records = vec![("Kappa".to_string(), "25".to_string())];
    let mut files = HashSet::new();
    let mut first = records.clone();
    let (f1, m1) = run_batch(&template, &mut first, &mut files);
    let mut second = records.clone();
    let (f2, m2) = run_batch(&template, &mut second, &mut files);
    assert_eq!(f1.len() + f2.len(), 1);
    assert_eq!(format!("{}{}", m1, m2), "25.png = \"Kappa\"\n");
}

#[test]
fn duplicate_ids_in_one_run_are_fetched_once() {
    let template = "t/{{id}}".to_string();
    let mut records = vec![
        ("A".to_string(), "1".to_string()),
        ("B".to_string(), "1".to_string()),
    ];
    let mut files = HashSet::new();
    let (fetched, manifest) = run_batch(&template, &mut records, &mut files);
    assert_eq!(fetched, vec!["t/1".to_string()]);
    assert_eq!(manifest, "1.png = \"A\"\n");
}

#[test]
fn existing_file_is_skipped() {
    let template = "https://x/{image_id}".to_string();
    let mut records = vec![("Kappa".to_string(), "25".to_string())];
    let mut batch = DownloadBatch::new(&template, &mut records);
    assert!(records.is_empty());
    assert_eq!(batch.current_file(), "25.png");
    assert!(batch.decide(true).is_none());
    assert_eq!(batch.saved, 0);
    assert!(batch.is_done());
}

#[test]
fn failed_fetch_writes_no_line() {
    let template = "u/{image_id}".to_string();
    let mut records = vec![("A".to_string(), "5".to_string()), ("B".to_string(), "6".to_string())];
    let mut batch = DownloadBatch::new(&template, &mut records);
    let d = batch.decide(false).unwrap();
    assert_eq!(d.file_name, "5.png");
    assert_eq!(d.url, "u/5");
    assert_eq!(batch.finish(false), None);
    assert_eq!(batch.saved, 0);
    let d = batch.decide(false).unwrap();
    assert_eq!(d.url, "u/6");
    assert_eq!(batch.finish(true), Some("6.png = \"B\"\n".to_string()));
    assert_eq!(batch.saved, 1);
    assert!(batch.is_done());
}

#[test]
fn manifest_line_format() {
    assert_eq!(manifest_line_of("25", "Kappa"), "25.png = \"Kappa\"\n");
    assert_eq!(manifest_line_of("abc", ""), "abc.png = \"\"\n");
}

#[test]
fn file_name_and_address() {
    assert_eq!(image_file_name("abc"), "abc.png");
    assert_eq!(image_url_of("https://c/emote/{{id}}/1x", "abc"), "https://c/emote/abc/1x");
    assert_eq!(image_url_of("https://x/{image_id}/{{id}}", "9"), "https://x/9/9");
}
