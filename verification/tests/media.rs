use tuner::blockquotes::convert_blockquotes;
use tuner::media::{has_media, media_file, media_relative_path, prepend_reply_to_media, prompt_with_media_hint, DocumentInfo, MediaMessage};
use tuner::model_select::{choose_base_model, effort_keyboard, effort_switched_text, get_efforts_for_base, model_with_effort, BaseChoice};
use tuner::keyboard::ButtonAction;

fn message() -> MediaMessage {
    MediaMessage {
        chat_id: -100,
        message_id: 7,
        photo: None,
        document: None,
        voice: None,
        audio: None,
        video: None,
        video_note: false,
        sticker: false,
        replied_text: None,
    }
}

#[test]
fn media_files_to_download() {
    let mut m = message();
    assert!(!has_media(&m));
    assert_eq!(media_file(&m), None);
    m.photo = Some(vec!["small".to_string(), "large".to_string()]);
    assert!(has_media(&m));
    assert_eq!(media_file(&m), Some(("large".to_string(), "jpg".to_string())));
    m.photo = Some(vec![]);
    m.document = Some(DocumentInfo { file_id: "d".to_string(), file_name: Some("a.tar.gz".to_string()) });
    // A photo without sizes hides the document.
    assert_eq!(media_file(&m), None);
    m.photo = None;
    assert_eq!(media_file(&m), Some(("d".to_string(), "gz".to_string())));
    m.document = Some(DocumentInfo { file_id: "d".to_string(), file_name: None });
    assert_eq!(media_file(&m), Some(("d".to_string(), "bin".to_string())));
    m.document = None;
    m.voice = Some("v".to_string());
    assert_eq!(media_file(&m), Some(("v".to_string(), "ogg".to_string())));
    m.voice = None;
    m.sticker = true;
    assert!(has_media(&m));
    assert_eq!(media_file(&m), None);
    assert_eq!(media_relative_path(-100, 7, "jpg"), "telegram_files/media_-100_7.jpg");
    assert_eq!(
        prompt_with_media_hint("telegram_files/x.jpg", "describe"),
        "[SYSTEM HINT] The user attached a file. You can read/view it by calling `view_file` at path: `telegram_files/x.jpg`\n\ndescribe"
    );
}

#[test]
fn replies_to_media_quote_the_message() {
    let mut m = message();
    assert_eq!(prepend_reply_to_media(&m, "P"), "P");
    m.replied_text = Some("   ".to_string());
    assert_eq!(prepend_reply_to_media(&m, "P"), "P");
    m.replied_text = Some(" first\nsecond ".to_string());
    m.voice = Some("v".to_string());
    assert_eq!(
        prepend_reply_to_media(&m, "P"),
        "The user is replying to this quoted message:\n> first\n> second\n\nTheir reply is a voice message (the attached file below).\n\nP"
    );
    m.voice = None;
    assert!(prepend_reply_to_media(&m, "P").contains("Their reply is a media file (the attached file below)."));
}

#[test]
fn effort_levels_of_a_base_model() {
    let models = vec![
        "gemini-3.6-flash-high".to_string(),
        "gemini-3.6-flash-low".to_string(),
        "gemini-3.6-flash-x".to_string(),
        "gemini-3.1-pro-high".to_string(),
    ];
    assert_eq!(get_efforts_for_base("gemini-3.6-flash", &models), vec!["high".to_string(), "low".to_string()]);
    assert!(get_efforts_for_base("other", &models).is_empty());
    assert_eq!(choose_base_model("other", &models), BaseChoice::SwitchModel);
    match choose_base_model("gemini-3.6-flash", &models) {
        BaseChoice::ChooseEffort(text, kb) => {
            assert_eq!(text, "Select reasoning effort level for `gemini-3.6-flash`:");
            assert_eq!(kb.inline_keyboard.len(), 1);
            assert_eq!(kb.inline_keyboard[0][0].text, "HIGH");
            assert_eq!(kb.inline_keyboard[0][1].action, ButtonAction::Callback("model_effort:gemini-3.6-flash:low".to_string()));
        },
        other => panic!("unexpected {:?}", other),
    }
    let (_, kb) = effort_keyboard("m", &vec![]);
    assert_eq!(kb.inline_keyboard, vec![vec![]]);
    assert_eq!(model_with_effort("m", "high"), "m (effort: high)");
    assert_eq!(effort_switched_text("low"), "🤖 [tuner] Session reasoning effort switched to `low`.");
}

#[test]
fn blockquotes_become_expandable_quotes() {
    assert_eq!(convert_blockquotes("plain text"), "plain text");
    assert_eq!(
        convert_blockquotes("&gt; one\n&gt; two\nafter"),
        "<blockquote>one\ntwo</blockquote>\nafter"
    );
    assert_eq!(
        convert_blockquotes("before\n&gt;! hidden\n&gt; more"),
        "before\n<blockquote expandable>hidden\nmore</blockquote>"
    );
}
