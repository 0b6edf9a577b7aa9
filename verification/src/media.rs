//! Attachments of incoming messages: which file to download, the name it is stored under,
//! and the text that tells the agent about it.

use vstd::prelude::*;
use crate::text::{
    append, append_str, chars_of, decimal_int, decimal_i64, join, join_chars, lines, lines_chars, seqs,
    split, split_chars, string_of, trim, trim_chars,
};

verus! {

/// A document attachment: its file id and, when it has one, its file name.
#[derive(Clone, Debug, PartialEq, Eq)]
pub struct DocumentInfo {
    pub file_id: String,
    pub file_name: Option<String>,
}

/// What the bot reads of an incoming message and its attachments.
#[derive(Clone, Debug, PartialEq, Eq)]
pub struct MediaMessage {
    pub chat_id: i64,
    pub message_id: i32,
    /// The file ids of the sizes of an attached photo, smallest first.
    pub photo: Option<Vec<String>>,
    pub document: Option<DocumentInfo>,
    /// File ids of a voice message, an audio file and a video.
    pub voice: Option<String>,
    pub audio: Option<String>,
    pub video: Option<String>,
    pub video_note: bool,
    pub sticker: bool,
    /// The text, or else the caption, of the message this one replies to.
    pub replied_text: Option<String>,
}

/// The message carries an attachment of a kind the bot handles.
pub open spec fn carries_media(m: MediaMessage) -> bool {
    m.photo is Some || m.document is Some || m.voice is Some || m.audio is Some || m.video is Some
        || m.video_note || m.sticker
}

/// Whether the message carries an attachment.
pub fn has_media(m: &MediaMessage) -> (r: bool)
    ensures
        r == carries_media(*m),
{
    m.photo.is_some() || m.document.is_some() || m.voice.is_some() || m.audio.is_some()
        || m.video.is_some() || m.video_note || m.sticker
}

/// The extension of a document: the part of its name after the last `.` (the whole name
/// when it has none), or `bin` without a name.
pub open spec fn document_extension(name: Option<String>) -> Seq<char> {
    match name {
        Some(n) => split(n@, '.').last(),
        None => "bin"@,
    }
}

/// The file to download for a message and the extension to store it with: the largest
/// size of a photo (nothing when the photo lists no size), else the document, voice
/// message, audio file or video, in that order.
pub open spec fn media_file_of(m: MediaMessage) -> Option<(Seq<char>, Seq<char>)> {
    match m.photo {
        Some(sizes) => if sizes@.len() > 0 {
            Some((sizes@.last()@, "jpg"@))
        } else {
            None
        },
        None => match m.document {
            Some(d) => Some((d.file_id@, document_extension(d.file_name))),
            None => match m.voice {
                Some(v) => Some((v@, "ogg"@)),
                None => match m.audio {
                    Some(a) => Some((a@, "mp3"@)),
                    None => match m.video {
                        Some(v) => Some((v@, "mp4"@)),
                        None => None,
                    },
                },
            },
        },
    }
}

/// The file id and extension of the attachment to download.
pub fn media_file(m: &MediaMessage) -> (r: Option<(String, String)>)
    ensures
        r is None <==> media_file_of(*m) is None,
        r matches Some(p) ==> media_file_of(*m) == Some((p.0@, p.1@)),
{
    match &m.photo {
        Some(sizes) => {
            if sizes.len() > 0 {
                Some((sizes[sizes.len() - 1].clone(), "jpg".to_owned()))
            } else {
                None
            }
        },
        None => match &m.document {
            Some(d) => {
                let ext = match &d.file_name {
                    Some(n) => {
                        let parts = split_chars(&chars_of(n.as_str()), '.');
                        assert(seqs(parts@).len() == parts@.len());
                        string_of(&parts[parts.len() - 1])
                    },
                    None => "bin".to_owned(),
                };
                Some((d.file_id.clone(), ext))
            },
            None => match &m.voice {
                Some(v) => Some((v.clone(), "ogg".to_owned())),
                None => match &m.audio {
                    Some(a) => Some((a.clone(), "mp3".to_owned())),
                    None => match &m.video {
                        Some(v) => Some((v.clone(), "mp4".to_owned())),
                        None => None,
                    },
                },
            },
        },
    }
}

/// The name a downloaded attachment is stored under: `media_{chat}_{message}.{ext}`.
pub open spec fn media_file_name_of(chat_id: i64, message_id: i32, ext: Seq<char>) -> Seq<char> {
    "media_"@ + decimal_int(chat_id as int) + "_"@ + decimal_int(message_id as int) + "."@ + ext
}

/// The path, relative to the workspace, of a downloaded attachment.
pub fn media_relative_path(chat_id: i64, message_id: i32, ext: &str) -> (r: String)
    ensures
        r@ == "telegram_files/"@ + media_file_name_of(chat_id, message_id, ext@),
{
    let mut p = chars_of("telegram_files/");
    append_str(&mut p, "media_");
    append(&mut p, &decimal_i64(chat_id));
    append_str(&mut p, "_");
    append(&mut p, &decimal_i64(message_id as i64));
    append_str(&mut p, ".");
    append_str(&mut p, ext);
    assert(p@ =~= "telegram_files/"@ + media_file_name_of(chat_id, message_id, ext@));
    string_of(&p)
}

/// The prompt with a hint in front that tells the agent where the attachment was stored.
pub open spec fn hinted_prompt(relative_path: Seq<char>, prompt: Seq<char>) -> Seq<char> {
    "[SYSTEM HINT] The user attached a file. You can read/view it by calling `view_file` at path: `"@
        + relative_path + "`\n\n"@ + prompt
}

/// Puts the attachment hint in front of the prompt.
pub fn prompt_with_media_hint(relative_path: &str, prompt: &str) -> (r: String)
    ensures
        r@ == hinted_prompt(relative_path@, prompt@),
{
    let mut p = chars_of(
        "[SYSTEM HINT] The user attached a file. You can read/view it by calling `view_file` at path: `",
    );
    append_str(&mut p, relative_path);
    append_str(&mut p, "`\n\n");
    append_str(&mut p, prompt);
    string_of(&p)
}

/// How the attachment is described to the agent.
pub open spec fn media_kind_of(m: MediaMessage) -> Seq<char> {
    if m.photo is Some {
        "an image"@
    } else if m.document is Some {
        "a document"@
    } else if m.voice is Some {
        "a voice message"@
    } else if m.audio is Some {
        "an audio file"@
    } else if m.video is Some {
        "a video"@
    } else if m.video_note {
        "a video note"@
    } else if m.sticker {
        "a sticker"@
    } else {
        "a media file"@
    }
}

/// Each line of `text` quoted with `> `.
pub open spec fn quoted_lines(text: Seq<char>) -> Seq<char> {
    join(lines(text).map_values(|l: Seq<char>| "> "@ + l), "\n"@)
}

/// The prompt for an attachment that replies to a message: the quoted message and what
/// the reply is, then the attachment's own prompt; unchanged when the replied message has
/// no text.
pub open spec fn reply_prompt_of(m: MediaMessage, media_prompt: Seq<char>) -> Seq<char> {
    match m.replied_text {
        None => media_prompt,
        Some(t) => {
            let cited = trim(t@);
            if cited.len() == 0 {
                media_prompt
            } else {
                "The user is replying to this quoted message:\n"@ + quoted_lines(cited)
                    + "\n\nTheir reply is "@ + media_kind_of(m) + " (the attached file below).\n\n"@
                    + media_prompt
            }
        },
    }
}

fn media_kind(m: &MediaMessage) -> (r: &'static str)
    ensures
        r@ == media_kind_of(*m),
{
    if m.photo.is_some() {
        "an image"
    } else if m.document.is_some() {
        "a document"
    } else if m.voice.is_some() {
        "a voice message"
    } else if m.audio.is_some() {
        "an audio file"
    } else if m.video.is_some() {
        "a video"
    } else if m.video_note {
        "a video note"
    } else if m.sticker {
        "a sticker"
    } else {
        "a media file"
    }
}

fn quote_lines(text: &Vec<char>) -> (r: Vec<char>)
    ensures
        r@ == quoted_lines(text@),
{
    let ls = lines_chars(text);
    let mut quoted: Vec<Vec<char>> = Vec::new();
    let mut i: usize = 0;
    while i < ls.len()
        invariant
            i <= ls@.len(),
            seqs(ls@) == lines(text@),
            seqs(quoted@) == seqs(ls@).take(i as int).map_values(|l: Seq<char>| "> "@ + l),
        decreases ls.len() - i,
    {
        let mut q = chars_of("> ");
        append(&mut q, &ls[i]);
        let ghost before = seqs(quoted@);
        quoted.push(q);
        assert(seqs(ls@)[i as int] == ls@[i as int]@);
        assert(seqs(ls@).take(i + 1) =~= seqs(ls@).take(i as int).push(seqs(ls@)[i as int]));
        assert(seqs(quoted@) =~= before.push(q@));
        assert(seqs(quoted@) =~= seqs(ls@).take(i + 1).map_values(|l: Seq<char>| "> "@ + l));
        i = i + 1;
    }
    assert(seqs(ls@).take(ls@.len() as int) =~= seqs(ls@));
    join_chars(&quoted, &chars_of("\n"))
}

/// Puts the message an attachment replies to in front of the attachment's prompt.
pub fn prepend_reply_to_media(m: &MediaMessage, media_prompt: &str) -> (r: String)
    ensures
        r@ == reply_prompt_of(*m, media_prompt@),
{
    match &m.replied_text {
        None => media_prompt.to_owned(),
        Some(t) => {
            let cited = trim_chars(&chars_of(t.as_str()));
            if cited.len() == 0 {
                media_prompt.to_owned()
            } else {
                let mut p = chars_of("The user is replying to this quoted message:\n");
                append(&mut p, &quote_lines(&cited));
                append_str(&mut p, "\n\nTheir reply is ");
                append_str(&mut p, media_kind(m));
                append_str(&mut p, " (the attached file below).\n\n");
                append_str(&mut p, media_prompt);
                string_of(&p)
            }
        },
    }
}

} // verus!
