//! Re-opening a stored review from its message button: the alert shown when it cannot be
//! opened, and the buttons that replace the old ones when it can.

use vstd::prelude::*;
use crate::keyboard::{
    callback_button, keyboard_view, row_view, url_accepted, url_parses, ActionKind, ButtonAction,
    InlineKeyboard, KeyboardButton,
};
use crate::text::{append_str, chars_of, starts_with, starts_with_str, string_of};

verus! {

/// The alert for a review that cannot be re-opened: its record expired, its files are
/// gone, or no session could be opened on them; `None` when it was opened.
pub open spec fn review_alert_of(has_record: bool, valid_files: nat, activated: bool) -> Option<Seq<char>> {
    if !has_record {
        Some("⚠️ 보관 기간(30일)이 만료되어 열람할 수 없습니다."@)
    } else if valid_files == 0 {
        Some("⚠️ 참조된 파일이 디스크에서 이미 삭제/이동되어 열람할 수 없습니다."@)
    } else if !activated {
        Some("⚠️ 파일 세션을 활성화하지 못했습니다."@)
    } else {
        None
    }
}

/// The alert answering a review button, if the review cannot be re-opened.
pub fn review_callback_alert(has_record: bool, valid_files: usize, activated: bool) -> (r: Option<String>)
    ensures
        r is None <==> review_alert_of(has_record, valid_files as nat, activated) is None,
        r matches Some(a) ==> review_alert_of(has_record, valid_files as nat, activated) == Some(a@),
{
    if !has_record {
        Some("⚠️ 보관 기간(30일)이 만료되어 열람할 수 없습니다.".to_owned())
    } else if valid_files == 0 {
        Some("⚠️ 참조된 파일이 디스크에서 이미 삭제/이동되어 열람할 수 없습니다.".to_owned())
    } else if !activated {
        Some("⚠️ 파일 세션을 활성화하지 못했습니다.".to_owned())
    } else {
        None
    }
}

/// The buttons of a re-opened review: open the viewer (inside the messenger in a private
/// chat over HTTPS, else as a link, else by callback when the address is not a URL), then
/// refresh the link and download directly.
pub open spec fn viewer_keyboard(review_url: Seq<char>, is_private: bool, session_id: Seq<char>) -> Seq<
    Seq<(Seq<char>, ActionKind, Seq<char>)>,
> {
    let again = "review:"@ + session_id;
    let open = if url_accepted(review_url) {
        if is_private && starts_with(review_url, "https://"@) {
            ("🌐 뷰어 열기 (30분 유효)"@, ActionKind::WebApp, review_url)
        } else {
            ("🌐 뷰어 열기 (30분 유효)"@, ActionKind::Link, review_url)
        }
    } else {
        ("🌐 뷰어 열기"@, ActionKind::Callback, again)
    };
    seq![
        seq![open],
        seq![("🔄 링크 갱신"@, ActionKind::Callback, again), ("📥 직접 받기"@, ActionKind::Callback, "dl_files:"@ + session_id)],
    ]
}

/// Builds the buttons of a re-opened review.
pub fn build_viewer_buttons(review_url: &str, is_private: bool, session_id: &str) -> (r: InlineKeyboard)
    ensures
        keyboard_view(r) == viewer_keyboard(review_url@, is_private, session_id@),
{
    let mut again = chars_of("review:");
    append_str(&mut again, session_id);
    let again_data = string_of(&again);
    let mut download = chars_of("dl_files:");
    append_str(&mut download, session_id);
    let download_data = string_of(&download);
    let open = if url_parses(review_url) {
        if is_private && starts_with_str(&chars_of(review_url), "https://") {
            KeyboardButton {
                text: "🌐 뷰어 열기 (30분 유효)".to_owned(),
                action: ButtonAction::WebApp(review_url.to_owned()),
            }
        } else {
            KeyboardButton {
                text: "🌐 뷰어 열기 (30분 유효)".to_owned(),
                action: ButtonAction::Url(review_url.to_owned()),
            }
        }
    } else {
        callback_button("🌐 뷰어 열기", again_data.as_str())
    };
    let mut first: Vec<KeyboardButton> = Vec::new();
    first.push(open);
    let mut second: Vec<KeyboardButton> = Vec::new();
    second.push(callback_button("🔄 링크 갱신", again_data.as_str()));
    second.push(callback_button("📥 직접 받기", download_data.as_str()));
    let mut rows: Vec<Vec<KeyboardButton>> = Vec::new();
    rows.push(first);
    rows.push(second);
    let r = InlineKeyboard { inline_keyboard: rows };
    assert(row_view(r.inline_keyboard@[0]) =~= viewer_keyboard(review_url@, is_private, session_id@)[0]);
    assert(row_view(r.inline_keyboard@[1]) =~= viewer_keyboard(review_url@, is_private, session_id@)[1]);
    assert(keyboard_view(r) =~= viewer_keyboard(review_url@, is_private, session_id@));
    r
}

} // verus!
