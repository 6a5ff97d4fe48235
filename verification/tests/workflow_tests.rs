use gcli::audit::{
    audit_excerpt, audit_prompt, collect_hits, file_has_secret, is_audited_source,
    scan_file_content,
};
use gcli::deck::{default_deck_file, outline_request, DeckBuilder, DeckStep};
use gcli::git::{append_diff_line, commit_request, is_commit_action};
use gcli::json::{Json, JsonField};
use gcli::project::{
    is_tracked_dir, track_current_dir, track_dir_at, track_project, Project, TrackOutcome,
};

fn project(path: &str) -> Project {
    Project {
        name: "n".to_string(),
        path: path.to_string(),
        last_used: "t".to_string(),
        description: "d".to_string(),
    }
}

#[test]
fn tracking_adds_once() {
    let mut ps = vec![project("/a")];
    assert!(track_project(&mut ps, "/b", "b", "2024-01-01T00:00:00+00:00"));
    assert_eq!(ps.len(), 2);
    assert_eq!(ps[1].name, "b");
    assert_eq!(ps[1].path, "/b");
    assert_eq!(ps[1].last_used, "2024-01-01T00:00:00+00:00");
    assert_eq!(ps[1].description, "Auto-tracked by gcli v3");
    assert!(!track_project(&mut ps, "/b", "other", "later"));
    assert_eq!(ps.len(), 2);
    assert_eq!(ps[1].name, "b");
    assert!(is_tracked_dir(&ps, "/a"));
    assert!(!is_tracked_dir(&ps, "/c"));
}

#[test]
fn tracking_the_working_directory() {
    let mut ps = vec![];
    assert!(matches!(track_current_dir(&mut ps, "/home/me/proj"), TrackOutcome::Added));
    assert_eq!(ps[0].name, "proj");
    let stamp = &ps[0].last_used;
    assert!(chrono::DateTime::parse_from_rfc3339(stamp).is_ok());
    assert!(stamp.ends_with("+00:00"));
    let b = stamp.as_bytes();
    assert_eq!((b[4], b[7], b[10], b[13], b[16]), (b'-', b'-', b'T', b':', b':'));
    assert!(b[..4].iter().all(|c| c.is_ascii_digit()));
    assert!(matches!(track_current_dir(&mut ps, "/home/me/proj"), TrackOutcome::AlreadyTracked));
    assert_eq!(ps.len(), 1);
    assert!(matches!(track_current_dir(&mut ps, "/"), TrackOutcome::Unnamed));
    assert_eq!(ps.len(), 1);
}

#[test]
fn secret_scan_finds_leaking_lines() {
    let content = "fn main() {}\n  let api_key = \"ABCDEFGHIJKLMNOPQRSTUVWX\";  \nok\nPASSWORD: abcdefghijklmnopqrstuvwxyz\n";
    let scan = match scan_file_content(content) {
        Ok(s) => s,
        Err(_) => panic!("pattern compiles"),
    };
    assert!(scan.leaked);
    let hits: Vec<(usize, String)> = scan.hits.into_iter().map(|h| (h.line, h.text)).collect();
    assert_eq!(
        hits,
        vec![
            (2, "let api_key = \"ABCDEFGHIJKLMNOPQRSTUVWX\";".to_string()),
            (4, "PASSWORD: abcdefghijklmnopqrstuvwxyz".to_string()),
        ]
    );
    let clean = match scan_file_content("secret = short") {
        Ok(s) => s,
        Err(_) => panic!("pattern compiles"),
    };
    assert!(!clean.leaked);
    assert!(clean.hits.is_empty());
    assert!(matches!(file_has_secret("aws_key=0123456789abcdefghij0123"), Ok(true)));
    assert!(matches!(file_has_secret("nothing here"), Ok(false)));
}

#[test]
fn audited_sources() {
    assert!(is_audited_source("src/main.rs"));
    assert!(is_audited_source("a/b.py"));
    assert!(is_audited_source("x.js"));
    assert!(is_audited_source("x.ts"));
    assert!(!is_audited_source("x.tsx"));
    assert!(!is_audited_source(".rs"));
    assert!(!is_audited_source("Makefile"));
}

#[test]
fn audit_prompt_and_excerpt() {
    assert_eq!(
        audit_excerpt(None),
        "Directory scan - full content not sent. Provide specific files if needed."
    );
    let big: String = std::iter::repeat('é').take(8100).collect();
    assert_eq!(audit_excerpt(Some(&big)).chars().count(), 8000);
    let p = audit_prompt("src/x.rs", "code");
    assert!(p.starts_with("Perform a comprehensive code audit on the following code/file:\n- Security issues"));
    assert!(p.ends_with("Code/path: src/x.rs\nContent excerpt (truncated):\n```text\ncode\n```"));
}

#[test]
fn deck_assembly() {
    let req = outline_request("Q3 results");
    assert_eq!(
        req.prompt,
        "Generate 6-slide PowerPoint structure for 'Q3 results'. Return JSON: array of {title, bullets:[]}"
    );
    assert_eq!(req.model, "grok-4-1-fast-reasoning");
    let outline = Json::Array(vec![Json::Object(vec![
        JsonField { key: "title".to_string(), value: Json::Str("Growth".to_string()) },
        JsonField {
            key: "bullets".to_string(),
            value: Json::Array(vec![Json::Str("up".to_string())]),
        },
    ])]);
    let mut deck = DeckBuilder::new("Q3 Report", &Some(outline));
    match deck.next_step() {
        DeckStep::NeedImage(p) => assert_eq!(p, "Professional illustration for slide: Growth"),
        DeckStep::Ready => panic!("one slide to build"),
    }
    let png: Vec<u8> = vec![
        0x89, 0x50, 0x4E, 0x47, 0x0D, 0x0A, 0x1A, 0x0A, 0, 0, 0, 0x0D, 0x49, 0x48, 0x44, 0x52, 0, 0,
        0, 1, 0, 0, 0, 1, 8, 6, 0, 0, 0, 0x1F, 0x15, 0xC4, 0x89,
    ];
    deck.add_slide(png);
    assert!(matches!(deck.next_step(), DeckStep::Ready));
    assert!(deck.is_ready());
    assert_eq!(deck.slides()[0].title, "Growth");
    assert_eq!(deck.slides()[0].content, vec!["up".to_string()]);
    assert_eq!(deck.slides()[0].images.len(), 1);
    assert_eq!(deck.slides()[0].images[0].width, 400);
    assert_eq!(deck.slides()[0].images[0].height, 300);
    assert_eq!(deck.slides()[0].images[0].format, "PNG");
    let bytes = match deck.finish() {
        Ok(b) => b,
        Err(_) => panic!("package"),
    };
    assert_eq!(&bytes[..4], b"PK\x03\x04");
}

#[test]
fn empty_outline_gives_ready_deck() {
    let deck = DeckBuilder::new("T", &None);
    assert!(matches!(deck.next_step(), DeckStep::Ready));
    match deck.finish() {
        Ok(bytes) => assert_eq!(&bytes[..4], b"PK\x03\x04"),
        Err(_) => panic!("package"),
    }
}

#[test]
fn default_deck_file_names() {
    assert_eq!(default_deck_file("Q3 Report"), "Q3_Report.pptx");
    assert_eq!(default_deck_file(""), ".pptx");
    assert_eq!(default_deck_file("a  b"), "a__b.pptx");
}

#[test]
fn diff_collection_and_commit_prompt() {
    let mut diff = String::new();
    append_diff_line(&mut diff, b"+added\n");
    append_diff_line(&mut diff, &[0xff, 0xfe]);
    append_diff_line(&mut diff, "-é\n".as_bytes());
    assert_eq!(diff, "+added\n-é\n");
    assert!(is_commit_action("commit"));
    assert!(!is_commit_action("Commit"));
    assert!(!is_commit_action("push"));
    let req = commit_request("+x\n");
    assert_eq!(req.prompt, "Generate commit message + changelog entry for these changes:\n+x\n");
    assert_eq!(req.model, "grok-4-1-fast-reasoning");
    assert!(!req.local);
}

#[test]
fn hits_from_given_matches() {
    let lines = vec!["a".to_string(), "  key = x  ".to_string(), "c".to_string()];
    let hits = collect_hits(&lines, &vec![false, true, true]);
    let got: Vec<(usize, String)> = hits.into_iter().map(|h| (h.line, h.text)).collect();
    assert_eq!(got, vec![(2, "key = x".to_string()), (3, "c".to_string())]);
    assert!(collect_hits(&lines, &vec![false, false, false]).is_empty());
}

#[test]
fn sample_outline_builds_three_slides() {
    let parsed: serde_json::Value =
        serde_json::from_str(r#"[{"title":"Intro","bullets":["a",1]},{"bullets":"x"},3]"#).unwrap();
    let outline = Json::Array(
        parsed
            .as_array()
            .unwrap()
            .iter()
            .map(|v| match v {
                serde_json::Value::Object(m) => Json::Object(
                    m.iter()
                        .map(|(k, v)| JsonField {
                            key: k.clone(),
                            value: match v {
                                serde_json::Value::String(s) => Json::Str(s.clone()),
                                serde_json::Value::Array(a) => Json::Array(
                                    a.iter()
                                        .map(|x| match x {
                                            serde_json::Value::String(s) => Json::Str(s.clone()),
                                            other => Json::Number(other.to_string()),
                                        })
                                        .collect(),
                                ),
                                other => Json::Number(other.to_string()),
                            },
                        })
                        .collect(),
                ),
                other => Json::Number(other.to_string()),
            })
            .collect(),
    );
    let mut deck = DeckBuilder::new("Deck", &Some(outline));
    let mut prompts = vec![];
    while let DeckStep::NeedImage(p) = deck.next_step() {
        prompts.push(p);
        deck.add_slide(vec![1, 2, 3]);
    }
    assert_eq!(
        prompts,
        vec![
            "Professional illustration for slide: Intro".to_string(),
            "Professional illustration for slide: Slide".to_string(),
            "Professional illustration for slide: Slide".to_string(),
        ]
    );
    let titles: Vec<String> = deck.slides().iter().map(|s| s.title.clone()).collect();
    assert_eq!(titles, vec!["Intro", "Slide", "Slide"]);
    assert_eq!(deck.slides()[0].content, vec!["a".to_string(), "".to_string()]);
    assert!(deck.slides()[1].content.is_empty());
    assert!(deck.finish().is_ok());
}

#[test]
fn tracking_with_a_given_clock_reading() {
    let mut ps = vec![];
    assert!(matches!(track_dir_at(&mut ps, "/w/epoch", Some((0, 0))), TrackOutcome::Added));
    assert_eq!(ps[0].last_used, "1970-01-01T00:00:00+00:00");
    assert!(matches!(
        track_dir_at(&mut ps, "/w/may", Some((1431648000, 123_000_000))),
        TrackOutcome::Added
    ));
    assert_eq!(ps[1].name, "may");
    assert_eq!(ps[1].last_used, "2015-05-15T00:00:00.123+00:00");
    assert!(matches!(track_dir_at(&mut ps, "/w/late", Some((1431648000, 5))), TrackOutcome::Added));
    assert_eq!(ps[2].last_used, "2015-05-15T00:00:00.000000005+00:00");
    assert!(matches!(track_dir_at(&mut ps, "/w/none", None), TrackOutcome::NoClock));
    assert!(matches!(track_dir_at(&mut ps, "/w/far", Some((u64::MAX, 0))), TrackOutcome::NoClock));
    assert_eq!(ps.len(), 3);
    assert!(matches!(track_dir_at(&mut ps, "/w/may", None), TrackOutcome::AlreadyTracked));
    assert!(matches!(track_dir_at(&mut ps, "/", Some((0, 0))), TrackOutcome::Unnamed));
    assert_eq!(ps.len(), 3);
}
