use tuner::archive::create_zip_archive;
use tuner::attachments::{
    attachment_roots, file_link_paths, is_blacklisted_file, is_image_file, review_offer, split_attachments,
    trim_link, unique_paths, zip_entry_names,
};
use tuner::keyboard::ButtonAction;
use tuner::review::{
    check_record_files, cloudflared_candidates, content_plan, current_unix_secs, detect_language,
    download_disposition, file_paths_named, format_activation_toast, is_media, is_retained, parse_tunnel_url,
    resolve_unique_filename, review_file_from, review_url, tunnel_target, ContentPlan, ReviewFile,
    ReviewSessionRecord,
};
use tuner::review_callback::{build_viewer_buttons, review_callback_alert};
use tuner::review_sessions::{retained_records, ReviewStore};
use tuner::tokens::new_session_token;

fn file(name: &str, path: &str, content: &str) -> ReviewFile {
    ReviewFile {
        filename: name.to_string(),
        path: path.to_string(),
        content: content.to_string(),
        size_bytes: content.len(),
        language: "plaintext".to_string(),
        is_binary: false,
    }
}

#[test]
fn languages_by_extension() {
    assert_eq!(detect_language("/a/main.RS"), "rust");
    assert_eq!(detect_language("notes.markdown"), "markdown");
    assert_eq!(detect_language("clip.webm"), "video");
    assert_eq!(detect_language("Makefile"), "plaintext");
    assert!(is_media("pdf"));
    assert!(!is_media("svg"));
}

#[test]
fn unique_display_names() {
    let mut used = Vec::new();
    assert_eq!(resolve_unique_filename("/a/main.rs", &mut used), "main.rs");
    assert_eq!(resolve_unique_filename("/b/main.rs", &mut used), "main_2.rs");
    assert_eq!(resolve_unique_filename("/c/main.rs", &mut used), "main_3.rs");
    assert_eq!(resolve_unique_filename("/d/Makefile", &mut used), "Makefile");
    assert_eq!(resolve_unique_filename("/e/Makefile", &mut used), "Makefile_2");
    assert_eq!(used.len(), 5);
}

#[test]
fn archive_entry_names_are_distinct() {
    let files = vec![
        file("a.txt", "/x/a.txt", "1"),
        file("", "/y/a.txt", "2"),
        file("a_2.txt", "/z/a_2.txt", "3"),
        file("", "/", "4"),
    ];
    let names = zip_entry_names(&files);
    assert_eq!(names, vec!["a.txt".to_string(), "a_2.txt".to_string(), "a_2_2.txt".to_string(), "file".to_string()]);
}

#[test]
fn zip_archive_holds_every_file() {
    let files = vec![file("a.txt", "/x/a.txt", "from snapshot"), file("a.txt", "/y/a.txt", "other")];
    let bytes = create_zip_archive(&files, vec![None, Some(b"from disk".to_vec())]).unwrap();
    // A zip archive starts with a local file header and names its entries.
    assert_eq!(&bytes[0..4], b"PK\x03\x04");
    let text = String::from_utf8_lossy(&bytes);
    assert!(text.contains("a.txt"));
    assert!(text.contains("a_2.txt"));
    let empty = create_zip_archive(&vec![], vec![]).unwrap();
    assert!(!empty.is_empty());
}

#[test]
fn tunnel_urls() {
    assert_eq!(
        parse_tunnel_url("INF |  https://quiet-river-1234.trycloudflare.com  |"),
        Some("https://quiet-river-1234.trycloudflare.com".to_string())
    );
    assert_eq!(parse_tunnel_url("https://api.trycloudflare.com/tunnel"), None);
    assert_eq!(parse_tunnel_url("see https://trycloudflare.com for help"), None);
    assert_eq!(parse_tunnel_url("no url"), None);
}

#[test]
fn record_files_and_retention() {
    let rec = ReviewSessionRecord { created_at_secs: 10, file_paths: vec!["/a".to_string(), "/b".to_string(), "/c".to_string()] };
    let (valid, total) = check_record_files(&rec, &vec![true, false, true]);
    assert_eq!(valid, vec!["/a".to_string(), "/c".to_string()]);
    assert_eq!(total, 3);
    assert!(is_retained(10 + 2592000 - 1, 10));
    assert!(!is_retained(10 + 2592000, 10));
    assert!(is_retained(5, 10));
    assert_eq!(format_activation_toast(2, 3), "⚠️ 일부 파일 삭제됨 (3개 중 2개 유효). [🌐 뷰어 열기]를 눌러주세요.");
    assert_eq!(format_activation_toast(3, 3), "✅ 뷰어 링크가 활성화되었습니다. [🌐 뷰어 열기]를 눌러주세요.");
}

#[test]
fn snapshot_contents() {
    assert_eq!(content_plan("video", 5), ContentPlan::Media);
    assert_eq!(content_plan("rust", 10_000_001), ContentPlan::TooLarge);
    assert_eq!(content_plan("rust", 10_000_000), ContentPlan::ReadText);
    let media = review_file_from("v.mp4".to_string(), "/v.mp4".to_string(), "video".to_string(), 99, None);
    assert!(media.is_binary);
    assert_eq!(media.size_bytes, 99);
    assert_eq!(media.content, "");
    let big = review_file_from("b.rs".to_string(), "/b.rs".to_string(), "rust".to_string(), 20_000_000, None);
    assert_eq!(big.content, "// File exceeds 10MB (20000000 bytes). Download directly to inspect.");
    assert_eq!(big.size_bytes, big.content.len());
    let text = review_file_from("k.md".to_string(), "/k.md".to_string(), "markdown".to_string(), 3, Some("가나".to_string()));
    assert_eq!(text.size_bytes, 6);
    assert!(!text.is_binary);
    let unreadable = review_file_from("x.bin".to_string(), "/x".to_string(), "plaintext".to_string(), 42, None);
    assert!(unreadable.is_binary);
    assert_eq!(unreadable.size_bytes, 42);
}

#[test]
fn review_store_read_after_register() {
    let mut store = ReviewStore::new();
    assert_eq!(store.register_session(vec![], "id0".to_string(), 1), None);
    let r = store.register_session(vec!["/a".to_string(), "/b".to_string()], "id1".to_string(), 100);
    assert_eq!(r, Some(("id1".to_string(), 2)));
    let rec = store.get_session_record("id1").unwrap();
    assert_eq!(rec.created_at_secs, 100);
    assert_eq!(rec.file_paths, vec!["/a".to_string(), "/b".to_string()]);
    assert!(store.get_session_record("id0").is_none());
    // A second record under the same id replaces the first.
    store.register_session(vec!["/c".to_string()], "id1".to_string(), 200);
    assert_eq!(store.get_session_record("id1").unwrap().file_paths, vec!["/c".to_string()]);
}

#[test]
fn review_store_sessions_expire() {
    let mut store = ReviewStore::new();
    assert_eq!(store.activate_session(vec![], "t0".to_string(), 0), None);
    let files = vec![file("a.txt", "/a.txt", "hi")];
    assert_eq!(store.activate_session(files.clone(), "t1".to_string(), 1000), Some("t1".to_string()));
    let live = store.live_files("t1", 1000 + 1799).unwrap();
    assert_eq!(live.len(), 1);
    assert_eq!(live[0].content, "hi");
    assert!(store.live_files("t1", 1000 + 1800).is_none());
    assert!(store.live_files("unknown", 1000).is_none());
}

#[test]
fn review_store_fresh_ids_are_hex_tokens() {
    let mut store = ReviewStore::new();
    let (id, n) = store.register_new_session(vec!["/a".to_string()], 5).unwrap();
    assert_eq!(n, 1);
    assert_eq!(id.len(), 32);
    assert!(id.chars().all(|c| c.is_ascii_digit() || ('a'..='f').contains(&c)));
    assert!(store.get_session_record(&id).is_some());
    let token = store.activate_new_session(vec![file("a", "/a", "")], 5).unwrap();
    assert_eq!(token.len(), 32);
    assert!(store.live_files(&token, 6).is_some());
    let t = new_session_token();
    assert_eq!(t.len(), 32);
}

#[test]
fn records_kept_for_saving() {
    let mut store = ReviewStore::new();
    store.init_storage(vec![
        ("old".to_string(), ReviewSessionRecord { created_at_secs: 0, file_paths: vec![] }),
        ("new".to_string(), ReviewSessionRecord { created_at_secs: 2_000_000, file_paths: vec!["/n".to_string()] }),
    ]);
    let saved = store.records_to_save(2_600_000);
    assert_eq!(saved.len(), 1);
    assert_eq!(saved[0].0, "new");
    let kept = retained_records(&vec![("x".to_string(), ReviewSessionRecord { created_at_secs: 9, file_paths: vec![] })], 10);
    assert_eq!(kept.len(), 1);
}

#[test]
fn attachment_classification() {
    assert!(is_blacklisted_file("/w/Cargo.lock"));
    assert!(is_blacklisted_file("/w/app.LOG"));
    assert!(is_blacklisted_file("/w/target/debug/x.rs"));
    assert!(!is_blacklisted_file("/w/src/main.rs"));
    assert!(is_image_file("/w/shot.PNG"));
    assert!(!is_image_file("/w/shot.svg"));
    let (images, docs) = split_attachments(&vec![
        "/w/a.png".to_string(),
        "/w/b.rs".to_string(),
        "/w/.git/c.png".to_string(),
        "/w/d.jpeg".to_string(),
    ]);
    assert_eq!(images, vec!["/w/a.png".to_string(), "/w/d.jpeg".to_string()]);
    assert_eq!(docs, vec!["/w/b.rs".to_string()]);
}

#[test]
fn attachment_roots_and_links() {
    let roots = attachment_roots("/work", "/home/u", Some("/work/"), true);
    assert_eq!(
        roots,
        vec![
            "/work".to_string(),
            "/home/u/.tuner".to_string(),
            "/home/u/tuner".to_string(),
            "/home/u/.gemini/antigravity-cli".to_string(),
            "/workspace".to_string(),
        ]
    );
    let paths = file_link_paths("see [x](file:///w/a.rs#L10-L20), and file:///w/b.rs. and file://remote-host/c");
    assert_eq!(paths, vec!["/w/a.rs".to_string(), "/w/b.rs".to_string()]);
    assert_eq!(unique_paths(&vec!["/w/a".to_string(), "/w/a/".to_string(), "/w/b".to_string()]), vec!["/w/a".to_string(), "/w/b".to_string()]);
}

#[test]
fn review_offer_message() {
    let (text, kb) = review_offer(2, "tok", "https://x.trycloudflare.com/review/tok");
    assert_eq!(text, "📁 <b>답변에서 2개의 파일이 참조되었습니다.</b>");
    assert_eq!(kb.inline_keyboard[0][0].text, "🔍 참조 파일 2개 검토 (In-App)");
    assert_eq!(kb.inline_keyboard[0][0].action, ButtonAction::WebApp("https://x.trycloudflare.com/review/tok".to_string()));
    assert_eq!(kb.inline_keyboard[0][1].action, ButtonAction::Callback("dl_files:tok".to_string()));
    let (local, kb2) = review_offer(1, "t", "http://127.0.0.1:8743/review/t");
    assert_eq!(local, "📁 <b>답변에서 1개의 파일이 참조되었습니다.</b>\n(로컬 뷰어: http://127.0.0.1:8743/review/t)");
    assert_eq!(kb2.inline_keyboard[0][0].action, ButtonAction::Callback("dl_files:t".to_string()));
}

#[test]
fn viewer_buttons_and_alerts() {
    let k = build_viewer_buttons("https://x.trycloudflare.com/review/t", true, "sid");
    assert_eq!(k.inline_keyboard[0][0].action, ButtonAction::WebApp("https://x.trycloudflare.com/review/t".to_string()));
    let g = build_viewer_buttons("https://x.trycloudflare.com/review/t", false, "sid");
    assert_eq!(g.inline_keyboard[0][0].action, ButtonAction::Url("https://x.trycloudflare.com/review/t".to_string()));
    let bad = build_viewer_buttons("not a url", true, "sid");
    assert_eq!(bad.inline_keyboard[0][0].text, "🌐 뷰어 열기");
    assert_eq!(bad.inline_keyboard[0][0].action, ButtonAction::Callback("review:sid".to_string()));
    assert_eq!(bad.inline_keyboard[1][1].action, ButtonAction::Callback("dl_files:sid".to_string()));
    assert_eq!(review_callback_alert(false, 0, false), Some("⚠️ 보관 기간(30일)이 만료되어 열람할 수 없습니다.".to_string()));
    assert_eq!(review_callback_alert(true, 0, true), Some("⚠️ 참조된 파일이 디스크에서 이미 삭제/이동되어 열람할 수 없습니다.".to_string()));
    assert_eq!(review_callback_alert(true, 2, false), Some("⚠️ 파일 세션을 활성화하지 못했습니다.".to_string()));
    assert_eq!(review_callback_alert(true, 2, true), None);
}

#[test]
fn viewer_addresses() {
    assert_eq!(review_url(Some("https://t.trycloudflare.com"), 8743, "ab"), "https://t.trycloudflare.com/review/ab");
    assert_eq!(review_url(None, 8743, "ab"), "http://127.0.0.1:8743/review/ab");
    assert_eq!(tunnel_target(9000), "http://127.0.0.1:9000");
    assert_eq!(download_disposition("a.txt"), "attachment; filename=\"a.txt\"");
    assert_eq!(cloudflared_candidates("/home/u")[0], "/home/u/.tuner/bin/cloudflared");
    let files = vec![file("a", "/1", ""), file("b", "/2", ""), file("a", "/3", "")];
    assert_eq!(file_paths_named(&files, "a"), vec!["/1".to_string(), "/3".to_string()]);
    assert!(current_unix_secs() > 1_600_000_000);
}

#[test]
fn links_lose_trailing_punctuation() {
    assert_eq!(trim_link("file:///w/a.rs)."), "file:///w/a.rs");
    assert_eq!(trim_link("file:///w/b.rs\"'>;,"), "file:///w/b.rs");
    assert_eq!(trim_link("file:///w/c.rs"), "file:///w/c.rs");
    assert_eq!(trim_link(".,"), "");
}

#[test]
fn saved_records_load_back() {
    let mut store = ReviewStore::new();
    store.register_session(vec!["/w/a.rs".to_string()], "old".to_string(), 1_000);
    store.register_session(vec!["/w/b.rs".to_string(), "/w/c.rs".to_string()], "new".to_string(), 3_000_000);
    let now = 3_000_100;
    let saved = store.records_to_save(now);
    let mut fresh = ReviewStore::new();
    fresh.init_storage(saved);
    assert!(fresh.get_session_record("old").is_none());
    let rec = fresh.get_session_record("new").unwrap();
    assert_eq!(rec.created_at_secs, 3_000_000);
    assert_eq!(rec.file_paths, vec!["/w/b.rs".to_string(), "/w/c.rs".to_string()]);
}
