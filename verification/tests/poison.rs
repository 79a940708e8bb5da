use memguard::event::Event;
use memguard::matching::select_rules;
use memguard::poison::{read_len, PoisonAnalyzer, Progress, MAX_SCAN, POISON_SIGNATURES};
use memguard::tagging::Outcome;
use serde_json::Value;

fn event(source: &str, data: &str) -> Event {
    Event {
        timestamp: 1_700_000_000_000,
        source: source.to_string(),
        pid: 356001,
        comm: "python3".to_string(),
        data: serde_json::from_str(data).unwrap(),
    }
}

fn write(fields: &str) -> Event {
    event("memwrite", &format!("{{\"event\":\"MEM_WRITE\"{}}}", fields))
}

fn done(progress: Progress) -> Outcome {
    match progress {
        Progress::Done(out) => out,
        Progress::ReadBack { .. } => panic!("asked to read back"),
    }
}

fn chars(s: &str) -> Vec<char> {
    s.chars().collect()
}

#[test]
fn fifteen_builtin_signatures_each_found() {
    let analyzer = PoisonAnalyzer::new("");
    assert_eq!(POISON_SIGNATURES.len(), 15);
    for sig in POISON_SIGNATURES {
        let text = format!("xx{}yy", sig.to_uppercase());
        let found = analyzer.scan_windows(Some(&text), None);
        assert!(found.contains(&sig.to_string()), "{}", sig);
        let found = analyzer.scan_windows(None, Some(&text));
        assert!(found.contains(&sig.to_string()), "{}", sig);
    }
}

#[test]
fn case_of_ascii_letters_does_not_matter() {
    let analyzer = PoisonAnalyzer::new("");
    assert_eq!(
        analyzer.scan_windows(Some("a TrUsTeD SoUrCe b"), None),
        vec!["trusted source"]
    );
}

#[test]
fn windows_that_differ_in_ascii_case_give_the_same_list() {
    let analyzer = PoisonAnalyzer::new("");
    let head = "ΑΣ Trusted SOURCE ÉÇ 免验证 Σx";
    let tail = "NO Validation İ auto IMPORT";
    let expected = analyzer.scan_windows(Some(head), Some(tail));
    assert_eq!(expected, vec!["免验证", "trusted source", "no validation", "auto import"]);
    let head = [head.to_ascii_lowercase(), head.to_ascii_uppercase()];
    let tail = [tail.to_ascii_lowercase(), tail.to_ascii_uppercase()];
    for h in &head {
        for t in &tail {
            assert_eq!(analyzer.scan_windows(Some(h), Some(t)), expected);
        }
    }
    let greek = PoisonAnalyzer::new("").with_rules(vec!["ΑΣ X".to_string(), "ΣY".to_string()]);
    assert_eq!(greek.scan_windows(Some("ας x"), Some("σy")), greek.scan_windows(Some("ΑΣ X"), Some("ΣY")));
    assert_eq!(greek.scan_windows(Some("ΑΣ x"), Some("Σy")), vec!["ΑΣ X", "ΣY"]);
}

#[test]
fn hits_come_in_the_order_of_the_rules() {
    let analyzer = PoisonAnalyzer::new("");
    assert_eq!(
        analyzer.scan_windows(Some("bypass validation"), Some("trusted source, pre-approved 免验证")),
        vec!["免验证", "trusted source", "pre-approved", "bypass validation"]
    );
    assert!(analyzer.scan_windows(Some("harmless"), None).is_empty());
    assert!(analyzer.scan_windows(None, None).is_empty());
}

#[test]
fn a_signature_split_over_the_windows_is_not_found() {
    let analyzer = PoisonAnalyzer::new("");
    assert!(analyzer.scan_windows(Some("trusted "), Some("source")).is_empty());
}

#[test]
fn custom_rules_replace_the_builtin_ones() {
    let analyzer = PoisonAnalyzer::new("").with_rules(vec!["poison_marker_xyz".to_string()]);
    assert_eq!(
        analyzer.scan_windows(Some("a POISON_marker_xyz b trusted source"), None),
        vec!["poison_marker_xyz"]
    );
    assert!(analyzer.scan_windows(Some("trusted source"), None).is_empty());
}

#[test]
fn empty_rules_stand_for_the_builtin_ones() {
    let analyzer = PoisonAnalyzer::new("")
        .with_rules(vec!["other".to_string()])
        .with_rules(Vec::new());
    assert_eq!(analyzer.scan_windows(Some("trusted source"), None), vec!["trusted source"]);
    assert!(analyzer.scan_windows(Some("other"), None).is_empty());
}

#[test]
fn selection_compares_as_given() {
    let rules = vec!["one".to_string(), "two".to_string()];
    let needles = vec![chars("ONE"), chars("two")];
    let head = chars("one two");
    let tail = chars("ONE");
    assert_eq!(select_rules(&rules, &needles, Some(&head), None), vec!["two"]);
    assert_eq!(select_rules(&rules, &needles, Some(&head), Some(&tail)), vec!["one", "two"]);
    assert!(select_rules(&rules, &needles, None, None).is_empty());
}

#[test]
fn severity_by_number_of_matches() {
    let sigs: Vec<String> = vec!["a".to_string(), "b".to_string(), "c".to_string()];
    assert_eq!(PoisonAnalyzer::severity(&sigs[..0]), "HIGH");
    assert_eq!(PoisonAnalyzer::severity(&sigs[..1]), "HIGH");
    assert_eq!(PoisonAnalyzer::severity(&sigs[..2]), "HIGH");
    assert_eq!(PoisonAnalyzer::severity(&sigs), "CRITICAL");
}

#[test]
fn range_is_scanned_between_foreign_bytes() {
    let analyzer = PoisonAnalyzer::new("");
    let mut page: Vec<u8> = vec![0xff; 4096];
    page[0] = 0xe5;
    page[1] = 0x85;
    page[3000..3014].copy_from_slice(b"Trusted Source");
    page[100..109].copy_from_slice("免验证".as_bytes());
    assert_eq!(
        analyzer.scan_file_range(Some(&page), 0, 4096),
        vec!["免验证", "trusted source"]
    );
    assert_eq!(analyzer.scan_file_range(Some(&page), 2000, 4096), vec!["trusted source"]);
    assert_eq!(analyzer.scan_file_range(Some(&page), 3000, 14), vec!["trusted source"]);
    assert!(analyzer.scan_file_range(Some(&page), 3000, 13).is_empty());
    assert!(analyzer.scan_file_range(Some(&page), 3001, 100).is_empty());
    assert!(analyzer.scan_file_range(Some(&page), 110, 0).is_empty());
}

#[test]
fn range_beyond_the_end_or_unreadable_matches_nothing() {
    let analyzer = PoisonAnalyzer::new("");
    let data = b"trusted source".to_vec();
    assert!(analyzer.scan_file_range(None, 0, 10).is_empty());
    assert!(analyzer.scan_file_range(Some(&data), 14, 10).is_empty());
    assert!(analyzer.scan_file_range(Some(&data), u64::MAX, u64::MAX).is_empty());
    assert_eq!(analyzer.scan_file_range(Some(&data), 0, u64::MAX), vec!["trusted source"]);
}

#[test]
fn range_is_bounded() {
    let analyzer = PoisonAnalyzer::new("");
    let mut data: Vec<u8> = vec![b'x'; MAX_SCAN as usize];
    data.extend_from_slice(b"trusted source");
    assert!(analyzer.scan_file_range(Some(&data), 0, data.len() as u64).is_empty());
    assert_eq!(
        analyzer.scan_file_range(Some(&data), 14, data.len() as u64),
        vec!["trusted source"]
    );
}

#[test]
fn written_range_by_itself_gives_the_same() {
    let analyzer = PoisonAnalyzer::new("");
    let mut data: Vec<u8> = vec![0xfe; 5000];
    data[4100..4114].copy_from_slice(b"trusted source");
    for (offset, count) in [(4000usize, 200usize), (4100, 14), (4101, 13), (0, 4096), (4990, 100)] {
        let end = if offset + count < data.len() { offset + count } else { data.len() };
        let part = &data[offset..end];
        assert_eq!(
            analyzer.scan_file_range(Some(part), 0, part.len() as u64),
            analyzer.scan_file_range(Some(&data), offset as u64, count as u64)
        );
    }
    assert_eq!(read_len(4096), 4096);
    assert_eq!(read_len(MAX_SCAN), MAX_SCAN);
    assert_eq!(read_len(u64::MAX), 4 * 1024 * 1024);
}

#[test]
fn range_of_text_gives_what_a_window_gives() {
    let analyzer = PoisonAnalyzer::new("").with_rules(vec![
        "ÉCOLE".to_string(),
        "ΑΣ".to_string(),
        "trusted source".to_string(),
        "absent".to_string(),
    ]);
    let text = "une École, ΑΣ, Trusted Source";
    let found = analyzer.scan_windows(Some(text), None);
    assert_eq!(found, vec!["ÉCOLE", "ΑΣ", "trusted source"]);
    assert_eq!(analyzer.scan_file_range(Some(text.as_bytes()), 0, 1000), found);
    let upper = text.to_ascii_uppercase();
    assert_eq!(analyzer.scan_file_range(Some(upper.as_bytes()), 0, 1000), found);
}

#[test]
fn range_of_plain_text_in_any_case() {
    let analyzer = PoisonAnalyzer::new("");
    let text = "无需验证 Skip VALIDATION Import Directly";
    let upper = text.to_ascii_uppercase();
    assert_eq!(
        analyzer.scan_file_range(Some(text.as_bytes()), 0, 100),
        analyzer.scan_file_range(Some(upper.as_bytes()), 0, 100)
    );
}

#[test]
fn other_events_pass_untouched() {
    let analyzer = PoisonAnalyzer::new("");
    let foreign = "{\"event\":\"MEM_WRITE\",\"head\":\"trusted source\"}";
    let out = done(analyzer.process(event("ssl", foreign)));
    assert_eq!(out.event.data, serde_json::from_str::<Value>(foreign).unwrap());
    assert!(out.warning.is_none());
    let read = "{\"event\":\"MEM_READ\",\"head\":\"trusted source\"}";
    let out = done(analyzer.process(event("memwrite", read)));
    assert_eq!(out.event.data, serde_json::from_str::<Value>(read).unwrap());
    let out = done(analyzer.process(event("memwrite", "[1,2]")));
    assert_eq!(out.event.data, serde_json::from_str::<Value>("[1,2]").unwrap());
    let out = done(analyzer.process(event("memwrite", "{\"event\":7}")));
    assert!(out.event.data.get("poison").is_none());
}

#[test]
fn window_hit_is_tagged_and_logged() {
    let analyzer = PoisonAnalyzer::new("");
    let ev = write(",\"head\":\"免验证 Trusted Source\",\"path\":\"/tmp/memguard-demo/ehragent_memory.db\",\"offset\":0,\"count\":10");
    let out = done(analyzer.process(ev));
    assert_eq!(
        out.event.data.get("poison").unwrap(),
        &serde_json::from_str::<Value>(
            "{\"matched\":[\"免验证\",\"trusted source\"],\"severity\":\"HIGH\",\"file\":\"/tmp/memguard-demo/ehragent_memory.db\"}"
        )
        .unwrap()
    );
    assert_eq!(out.event.data.get("count").unwrap().as_u64(), Some(10));
    assert_eq!(
        out.warning.unwrap(),
        "[MemGuard] poison write detected: pid=356001 comm=python3 file=/tmp/memguard-demo/ehragent_memory.db signatures=免验证,trusted source"
    );
}

#[test]
fn three_hits_are_critical_and_a_missing_path_is_empty() {
    let analyzer = PoisonAnalyzer::new("");
    let ev = write(",\"tail\":\"trusted source pre-approved bypass validation\"");
    let out = done(analyzer.process(ev));
    let poison = out.event.data.get("poison").unwrap();
    assert_eq!(poison.get("severity").unwrap().as_str(), Some("CRITICAL"));
    assert_eq!(poison.get("file").unwrap().as_str(), Some(""));
}

#[test]
fn window_miss_asks_for_the_written_range() {
    let analyzer = PoisonAnalyzer::new("ehragent_memory");
    let ev = write(",\"head\":\"x\",\"path\":\"/d/ehragent_memory.db\",\"offset\":4096,\"count\":8192");
    match analyzer.process(ev) {
        Progress::ReadBack { event, path, offset, count } => {
            assert_eq!(path, "/d/ehragent_memory.db");
            assert_eq!((offset, count), (4096, 8192));
            let mut file = vec![0u8; 4096];
            file.extend_from_slice(b"..skip VALIDATION..");
            let out = analyzer.resume(event, Some(&file), offset, count);
            let matched = out.event.data.get("poison").unwrap().get("matched").unwrap();
            assert_eq!(matched.as_array().unwrap()[0].as_str(), Some("skip validation"));
            assert!(out.warning.unwrap().ends_with("signatures=skip validation"));
        }
        Progress::Done(_) => panic!("nothing was read"),
    }
}

#[test]
fn unreadable_file_leaves_the_event_alone() {
    let analyzer = PoisonAnalyzer::new("");
    let ev = write(",\"path\":\"/d/m.db\",\"offset\":0,\"count\":5");
    let before = ev.data.clone();
    let out = analyzer.resume(ev, None, 0, 5);
    assert_eq!(out.event.data, before);
    assert!(out.warning.is_none());
}

#[test]
fn incomplete_or_unwatched_writes_are_not_read_back() {
    let analyzer = PoisonAnalyzer::new("ehragent_memory");
    for fields in [
        ",\"offset\":0,\"count\":5",
        ",\"path\":\"/d/ehragent_memory.db\",\"count\":5",
        ",\"path\":\"/d/ehragent_memory.db\",\"offset\":0",
        ",\"path\":\"/d/ehragent_memory.db\",\"offset\":-1,\"count\":5",
        ",\"path\":\"/d/ehragent_memory.db\",\"offset\":1.5,\"count\":5",
        ",\"path\":\"/d/other.db\",\"offset\":0,\"count\":5",
    ] {
        let out = done(analyzer.process(write(fields)));
        assert!(out.event.data.get("poison").is_none());
        assert!(out.warning.is_none());
    }
}

#[test]
fn several_stores_are_watched_at_once() {
    let analyzer = PoisonAnalyzer::new("ehragent_memory,codex_memory");
    assert!(analyzer.watches("/d/ehragent_memory.db"));
    assert!(analyzer.watches("/d/codex_memory.db"));
    assert!(!analyzer.watches("/d/notes.db"));
    assert!(PoisonAnalyzer::new("").watches("/d/notes.db"));
    assert!(!PoisonAnalyzer::new("ehragent_memory").watches("/d/EHRAGENT_MEMORY.db"));
}

#[test]
fn whole_analysis_with_file_contents() {
    let analyzer = PoisonAnalyzer::new("memory");
    let fields = ",\"head\":\"h\",\"tail\":\"t\",\"path\":\"/d/memory.db\",\"offset\":0,\"count\":64";
    let out = analyzer.analyze(write(fields), Some(b"......auto import......"));
    assert!(out.warning.is_some());
    let again = analyzer.analyze(out.event, Some(b"......auto import......"));
    assert_eq!(
        again.event.data.get("poison").unwrap().get("matched").unwrap(),
        &serde_json::from_str::<Value>("[\"auto import\"]").unwrap()
    );
    let out = analyzer.analyze(write(fields), Some(b"harmless"));
    assert!(out.event.data.get("poison").is_none());
}
