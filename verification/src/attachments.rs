//! Files referenced by an answer: which are skipped, which are sent as photos and which go
//! to a review session, the names they get inside a download archive, and the message that
//! offers them.

use vstd::prelude::*;
use crate::keyboard::{
    callback_button, keyboard_view, row_view, url_accepted, url_parses, ActionKind,
    ButtonAction, InlineKeyboard, KeyboardButton,
};
use crate::paths::{extension, file_name, join_path, path_equal, path_extension, path_file_name, path_joined, same_path};
use crate::patterns::{regex_find_all, regex_matches};
use crate::review::{claim_name, claimed, lemma_claimed_is_fresh, names, ReviewFile};
use crate::text::{
    append, append_str, chars_of, contains, contains_str, decimal, decimal_u128, eq_str, lowercase,
    starts_with, starts_with_str, string_of, to_lowercase,
};

verus! {

/// The file name of a path, or the empty text.
pub open spec fn name_or_empty(p: Seq<char>) -> Seq<char> {
    match path_file_name(p) {
        Some(n) => n,
        None => Seq::empty(),
    }
}

/// The lowercased extension of a path (the empty text lowercased when it has none).
pub open spec fn lower_extension(p: Seq<char>) -> Seq<char> {
    lowercase(
        match path_extension(p) {
            Some(e) => e,
            None => Seq::empty(),
        },
    )
}

/// Lock files, logs and build or dependency directories are never sent.
pub open spec fn blacklisted(p: Seq<char>) -> bool {
    let name = name_or_empty(p);
    let ext = lower_extension(p);
    ||| name == "Cargo.lock"@
    ||| name == "package-lock.json"@
    ||| name == "yarn.lock"@
    ||| ext == "log"@
    ||| ext == "jsonl"@
    ||| ext == "lock"@
    ||| contains(p, "/target/"@)
    ||| contains(p, "/.git/"@)
    ||| contains(p, "/node_modules/"@)
}

/// Images are sent as photos.
pub open spec fn image_path(p: Seq<char>) -> bool {
    let ext = lower_extension(p);
    ext == "png"@ || ext == "jpg"@ || ext == "jpeg"@ || ext == "gif"@ || ext == "webp"@
}

fn lower_extension_of(path: &str) -> (r: Vec<char>)
    ensures
        r@ == lower_extension(path@),
{
    let ext: Vec<char> = match extension(path) {
        Some(e) => chars_of(e.as_str()),
        None => Vec::new(),
    };
    to_lowercase(&ext)
}

/// Whether a referenced file is one that is never sent.
pub fn is_blacklisted_file(path: &str) -> (r: bool)
    ensures
        r == blacklisted(path@),
{
    let name: Vec<char> = match file_name(path) {
        Some(n) => chars_of(n.as_str()),
        None => Vec::new(),
    };
    if eq_str(&name, "Cargo.lock") || eq_str(&name, "package-lock.json") || eq_str(&name, "yarn.lock") {
        return true;
    }
    let ext = lower_extension_of(path);
    if eq_str(&ext, "log") || eq_str(&ext, "jsonl") || eq_str(&ext, "lock") {
        return true;
    }
    let p = chars_of(path);
    contains_str(&p, "/target/") || contains_str(&p, "/.git/") || contains_str(&p, "/node_modules/")
}

/// Whether a referenced file is an image.
pub fn is_image_file(path: &str) -> (r: bool)
    ensures
        r == image_path(path@),
{
    let ext = lower_extension_of(path);
    eq_str(&ext, "png") || eq_str(&ext, "jpg") || eq_str(&ext, "jpeg") || eq_str(&ext, "gif")
        || eq_str(&ext, "webp")
}

/// The images among `paths`, in order, leaving out blacklisted ones.
pub open spec fn images_among(paths: Seq<Seq<char>>) -> Seq<Seq<char>>
    decreases paths.len(),
{
    if paths.len() == 0 {
        Seq::empty()
    } else {
        let prior = images_among(paths.drop_last());
        let p = paths.last();
        if !blacklisted(p) && image_path(p) {
            prior.push(p)
        } else {
            prior
        }
    }
}

/// The other files among `paths`, in order, leaving out blacklisted ones.
pub open spec fn documents_among(paths: Seq<Seq<char>>) -> Seq<Seq<char>>
    decreases paths.len(),
{
    if paths.len() == 0 {
        Seq::empty()
    } else {
        let prior = documents_among(paths.drop_last());
        let p = paths.last();
        if !blacklisted(p) && !image_path(p) {
            prior.push(p)
        } else {
            prior
        }
    }
}

/// What the sorting keeps of each path: the images are exactly the paths that are sent and
/// are images, the documents exactly the paths that are sent and are not.
proof fn lemma_sorted_members(paths: Seq<Seq<char>>)
    ensures
        forall|x: Seq<char>|
            #[trigger] images_among(paths).contains(x) <==> paths.contains(x) && !blacklisted(x)
                && image_path(x),
        forall|x: Seq<char>|
            #[trigger] documents_among(paths).contains(x) <==> paths.contains(x) && !blacklisted(x)
                && !image_path(x),
    decreases paths.len(),
{
    if paths.len() > 0 {
        let prev = paths.drop_last();
        lemma_sorted_members(prev);
        assert forall|x: Seq<char>| paths.contains(x) <==> prev.contains(x) || x == paths.last() by {
            if paths.contains(x) {
                let j = choose|j: int| 0 <= j < paths.len() && paths[j] == x;
                if j < prev.len() {
                    assert(prev[j] == x);
                }
            }
            if prev.contains(x) {
                let j = choose|j: int| 0 <= j < prev.len() && prev[j] == x;
                assert(paths[j] == x);
            }
            if x == paths.last() {
                assert(paths[paths.len() - 1] == x);
            }
        }
        let p = paths.last();
        assert forall|x: Seq<char>| #[trigger] images_among(paths).contains(x) <==> images_among(prev).contains(x)
            || (x == p && !blacklisted(p) && image_path(p)) by {
            let a = images_among(prev);
            if !blacklisted(p) && image_path(p) {
                if a.push(p).contains(x) {
                    let j = choose|j: int| 0 <= j < a.push(p).len() && a.push(p)[j] == x;
                    if j < a.len() {
                        assert(a[j] == x);
                    }
                }
                if a.contains(x) {
                    let j = choose|j: int| 0 <= j < a.len() && a[j] == x;
                    assert(a.push(p)[j] == x);
                }
                if x == p {
                    assert(a.push(p)[a.len() as int] == x);
                }
            }
        }
        assert forall|x: Seq<char>| #[trigger] documents_among(paths).contains(x) <==> documents_among(prev).contains(x)
            || (x == p && !blacklisted(p) && !image_path(p)) by {
            let a = documents_among(prev);
            if !blacklisted(p) && !image_path(p) {
                if a.push(p).contains(x) {
                    let j = choose|j: int| 0 <= j < a.push(p).len() && a.push(p)[j] == x;
                    if j < a.len() {
                        assert(a[j] == x);
                    }
                }
                if a.contains(x) {
                    let j = choose|j: int| 0 <= j < a.len() && a[j] == x;
                    assert(a.push(p)[j] == x);
                }
                if x == p {
                    assert(a.push(p)[a.len() as int] == x);
                }
            }
        }
    }
}

/// A referenced file that is sent and whose extension, in lower case, is `png`, `jpg`,
/// `jpeg`, `gif` or `webp` is sent as a photo, and is not offered as a document.
pub proof fn lemma_picture_files_are_photos(paths: Seq<Seq<char>>, p: Seq<char>)
    requires
        paths.contains(p),
        !blacklisted(p),
        lower_extension(p) == "png"@ || lower_extension(p) == "jpg"@ || lower_extension(p) == "jpeg"@
            || lower_extension(p) == "gif"@ || lower_extension(p) == "webp"@,
    ensures
        images_among(paths).contains(p),
        !documents_among(paths).contains(p),
{
    lemma_sorted_members(paths);
}

/// A referenced file that is sent and has any other extension is offered as a document.
pub proof fn lemma_other_files_are_documents(paths: Seq<Seq<char>>, p: Seq<char>)
    requires
        paths.contains(p),
        !blacklisted(p),
        lower_extension(p) != "png"@ && lower_extension(p) != "jpg"@ && lower_extension(p) != "jpeg"@
            && lower_extension(p) != "gif"@ && lower_extension(p) != "webp"@,
    ensures
        documents_among(paths).contains(p),
        !images_among(paths).contains(p),
{
    lemma_sorted_members(paths);
}

/// Sorts referenced files into images (sent as photos) and other files (offered for
/// review), dropping those that are never sent.
pub fn split_attachments(paths: &Vec<String>) -> (r: (Vec<String>, Vec<String>))
    ensures
        names(r.0@) == images_among(names(paths@)),
        names(r.1@) == documents_among(names(paths@)),
{
    let ghost ps = names(paths@);
    let mut images: Vec<String> = Vec::new();
    let mut documents: Vec<String> = Vec::new();
    let mut i: usize = 0;
    while i < paths.len()
        invariant
            i <= paths@.len(),
            ps == names(paths@),
            names(images@) == images_among(ps.take(i as int)),
            names(documents@) == documents_among(ps.take(i as int)),
        decreases paths.len() - i,
    {
        assert(ps.take(i + 1).drop_last() == ps.take(i as int));
        assert(ps.take(i + 1).last() == paths@[i as int]@);
        let p = &paths[i];
        if is_blacklisted_file(p.as_str()) {
        } else if is_image_file(p.as_str()) {
            images.push(p.clone());
        } else {
            documents.push(p.clone());
        }
        assert(names(images@) =~= images_among(ps.take(i + 1)));
        assert(names(documents@) =~= documents_among(ps.take(i + 1)));
        i = i + 1;
    }
    assert(ps.take(paths@.len() as int) == ps);
    (images, documents)
}

/// The name a file starts from inside an archive: its display name, or the file name of
/// its path, or `file`.
pub open spec fn entry_base(f: ReviewFile) -> Seq<char> {
    if f.filename@.len() > 0 {
        f.filename@
    } else {
        match path_file_name(f.path@) {
            Some(n) => n,
            None => "file"@,
        }
    }
}

/// `r` names the archive entries of `files`: each file claims its base name, or a
/// numbered variant of it, against the names given before it.
pub open spec fn entry_names_of(files: Seq<ReviewFile>, r: Seq<Seq<char>>) -> bool {
    &&& r.len() == files.len()
    &&& forall|i: int|
        0 <= i < files.len() ==> claimed(
            r.take(i),
            entry_base(#[trigger] files[i]),
            entry_base(files[i]),
            r[i],
        )
}

/// The entry names of a list of files are determined by the files.
pub proof fn lemma_entry_names_determined(files: Seq<ReviewFile>, a: Seq<Seq<char>>, b: Seq<Seq<char>>)
    requires
        entry_names_of(files, a),
        entry_names_of(files, b),
    ensures
        a == b,
{
    assert forall|k: int| 0 <= k <= files.len() implies #[trigger] a.take(k) == b.take(k) by {
        lemma_prefix_agrees(files, a, b, k);
    }
    assert(a.take(files.len() as int) =~= a);
    assert(b.take(files.len() as int) =~= b);
}

proof fn lemma_prefix_agrees(files: Seq<ReviewFile>, a: Seq<Seq<char>>, b: Seq<Seq<char>>, k: int)
    requires
        entry_names_of(files, a),
        entry_names_of(files, b),
        0 <= k <= files.len(),
    ensures
        a.take(k) == b.take(k),
    decreases k,
{
    if k == 0 {
        assert(a.take(0) =~= b.take(0));
    } else {
        lemma_prefix_agrees(files, a, b, k - 1);
        let f = files[k - 1];
        assert(claimed(a.take(k - 1), entry_base(f), entry_base(f), a[k - 1]));
        assert(claimed(b.take(k - 1), entry_base(f), entry_base(f), b[k - 1]));
        crate::review::lemma_claimed_unique(a.take(k - 1), entry_base(f), entry_base(f), a[k - 1], b[k - 1]);
        assert(a.take(k) =~= a.take(k - 1).push(a[k - 1]));
        assert(b.take(k) =~= b.take(k - 1).push(b[k - 1]));
    }
}

/// The names the files get inside a download archive; files sharing a name get
/// `{stem}_{n}{.ext}` variants, so that every entry name is distinct.
pub fn zip_entry_names(files: &Vec<ReviewFile>) -> (r: Vec<String>)
    ensures
        entry_names_of(files@, names(r@)),
        names(r@).no_duplicates(),
{
    let mut used: Vec<String> = Vec::new();
    let mut i: usize = 0;
    while i < files.len()
        invariant
            i <= files@.len(),
            used@.len() == i,
            forall|j: int|
                0 <= j < i ==> claimed(
                    names(used@).take(j),
                    entry_base(#[trigger] files@[j]),
                    entry_base(files@[j]),
                    names(used@)[j],
                ),
            names(used@).no_duplicates(),
        decreases files.len() - i,
    {
        let f = &files[i];
        let own = chars_of(f.filename.as_str());
        let first: Vec<char> = if own.len() > 0 {
            own
        } else {
            match file_name(f.path.as_str()) {
                Some(n) => chars_of(n.as_str()),
                None => chars_of("file"),
            }
        };
        assert(first@ == entry_base(files@[i as int]));
        let ghost before = used@;
        let source = string_of(&first);
        let name = claim_name(first, source.as_str(), &mut used);
        proof {
            assert(names(before) == names(used@).take(i as int));
            lemma_claimed_is_fresh(names(before), entry_base(files@[i as int]), source@, name@);
            assert forall|j: int| 0 <= j < i + 1 implies claimed(
                names(used@).take(j),
                entry_base(#[trigger] files@[j]),
                entry_base(files@[j]),
                names(used@)[j],
            ) by {
                if j < i {
                    assert(names(used@).take(j) == names(before).take(j));
                    assert(names(used@)[j] == names(before)[j]);
                }
            }
            assert forall|a: int, b: int|
                0 <= a < names(used@).len() && 0 <= b < names(used@).len() && a != b implies
                names(used@)[a] != names(used@)[b] by {
                if a == i as int {
                    assert(names(used@)[b] == names(before)[b]);
                    assert(names(before).contains(names(before)[b]));
                } else if b == i as int {
                    assert(names(used@)[a] == names(before)[a]);
                    assert(names(before).contains(names(before)[a]));
                } else {
                    assert(names(used@)[a] == names(before)[a]);
                    assert(names(used@)[b] == names(before)[b]);
                }
            }
        }
        i = i + 1;
    }
    used
}

/// The label of the button that opens the referenced files for review.
pub open spec fn review_button_label(count: nat) -> Seq<char> {
    "🔍 참조 파일 "@ + decimal(count) + "개 검토 (In-App)"@
}

/// The message that offers the referenced files: the count, and the local viewer address
/// when the viewer is not reachable over HTTPS.
pub open spec fn review_offer_text(count: nat, review_url: Seq<char>) -> Seq<char> {
    let head = "📁 <b>답변에서 "@ + decimal(count) + "개의 파일이 참조되었습니다.</b>"@;
    if starts_with(review_url, "https://"@) {
        head
    } else {
        head + "\n(로컬 뷰어: "@ + review_url + ")"@
    }
}

/// The keyboard of the offer: open in the messenger when the viewer is on HTTPS, else a
/// download callback; then a direct download button.
pub open spec fn review_offer_keyboard(count: nat, token: Seq<char>, review_url: Seq<char>) -> Seq<
    Seq<(Seq<char>, ActionKind, Seq<char>)>,
> {
    let download = "dl_files:"@ + token;
    let open = if starts_with(review_url, "https://"@) && url_accepted(review_url) {
        (review_button_label(count), ActionKind::WebApp, review_url)
    } else {
        (review_button_label(count), ActionKind::Callback, download)
    };
    seq![seq![open, ("📥 직접 받기"@, ActionKind::Callback, download)]]
}

/// The message offering `count` referenced files of the review session `token`, and its
/// keyboard.
pub fn review_offer(count: usize, token: &str, review_url: &str) -> (r: (String, InlineKeyboard))
    ensures
        r.0@ == review_offer_text(count as nat, review_url@),
        keyboard_view(r.1) == review_offer_keyboard(count as nat, token@, review_url@),
{
    let url = chars_of(review_url);
    let secure = starts_with_str(&url, "https://");
    let mut label = chars_of("🔍 참조 파일 ");
    append(&mut label, &decimal_u128(count as u128));
    append_str(&mut label, "개 검토 (In-App)");
    let mut download = chars_of("dl_files:");
    append_str(&mut download, token);
    let download_data = string_of(&download);
    let open = if secure && url_parses(review_url) {
        KeyboardButton { text: string_of(&label), action: ButtonAction::WebApp(review_url.to_owned()) }
    } else {
        KeyboardButton { text: string_of(&label), action: ButtonAction::Callback(download_data.clone()) }
    };
    let fetch = callback_button("📥 직접 받기", download_data.as_str());
    let mut row: Vec<KeyboardButton> = Vec::new();
    row.push(open);
    row.push(fetch);
    let mut rows: Vec<Vec<KeyboardButton>> = Vec::new();
    rows.push(row);
    let keyboard = InlineKeyboard { inline_keyboard: rows };
    assert(keyboard_view(keyboard) =~= review_offer_keyboard(count as nat, token@, review_url@)) by {
        assert(row_view(keyboard.inline_keyboard@[0]) =~= review_offer_keyboard(
            count as nat,
            token@,
            review_url@,
        )[0]);
    }
    let mut text = chars_of("📁 <b>답변에서 ");
    append(&mut text, &decimal_u128(count as u128));
    append_str(&mut text, "개의 파일이 참조되었습니다.</b>");
    if !secure {
        append_str(&mut text, "\n(로컬 뷰어: ");
        append(&mut text, &url);
        append_str(&mut text, ")");
    }
    (string_of(&text), keyboard)
}

/// Whether some path of `list` equals `p` component by component.
pub open spec fn listed_path(list: Seq<Seq<char>>, p: Seq<char>) -> bool {
    exists|i: int| 0 <= i < list.len() && path_equal(list[i], p)
}

fn has_path(list: &Vec<String>, p: &str) -> (r: bool)
    ensures
        r == listed_path(names(list@), p@),
{
    let mut i: usize = 0;
    while i < list.len()
        invariant
            i <= list@.len(),
            forall|j: int| 0 <= j < i ==> !path_equal(names(list@)[j], p@),
        decreases list.len() - i,
    {
        if same_path(list[i].as_str(), p) {
            assert(path_equal(names(list@)[i as int], p@));
            return true;
        }
        i = i + 1;
    }
    false
}

/// The directories whose files may be sent: the workspace, the tuner directories in the
/// home directory, the current directory and `/workspace` when it is a directory (each of
/// the last two only when not already listed).
pub open spec fn attachment_roots_of(
    working_dir: Seq<char>,
    home: Seq<char>,
    cwd: Option<Seq<char>>,
    workspace_is_dir: bool,
) -> Seq<Seq<char>> {
    let base = seq![
        working_dir,
        path_joined(home, ".tuner"@),
        path_joined(home, "tuner"@),
        path_joined(home, ".gemini/antigravity-cli"@),
    ];
    let with_cwd = match cwd {
        Some(c) => if listed_path(base, c) {
            base
        } else {
            base.push(c)
        },
        None => base,
    };
    if workspace_is_dir && !listed_path(with_cwd, "/workspace"@) {
        with_cwd.push("/workspace"@)
    } else {
        with_cwd
    }
}

/// Lists the directories whose files may be sent.
pub fn attachment_roots(working_dir: &str, home: &str, cwd: Option<&str>, workspace_is_dir: bool) -> (r: Vec<String>)
    ensures
        names(r@) == attachment_roots_of(
            working_dir@,
            home@,
            match cwd {
                Some(c) => Some(c@),
                None => None,
            },
            workspace_is_dir,
        ),
{
    let mut roots: Vec<String> = Vec::new();
    roots.push(working_dir.to_owned());
    roots.push(join_path(home, ".tuner"));
    roots.push(join_path(home, "tuner"));
    roots.push(join_path(home, ".gemini/antigravity-cli"));
    let ghost base = seq![
        working_dir@,
        path_joined(home@, ".tuner"@),
        path_joined(home@, "tuner"@),
        path_joined(home@, ".gemini/antigravity-cli"@),
    ];
    assert(names(roots@) =~= base);
    if let Some(c) = cwd {
        if !has_path(&roots, c) {
            roots.push(c.to_owned());
            assert(names(roots@) =~= base.push(c@));
        }
    }
    let ghost with_cwd = names(roots@);
    if workspace_is_dir && !has_path(&roots, "/workspace") {
        roots.push("/workspace".to_owned());
        assert(names(roots@) =~= with_cwd.push("/workspace"@));
    }
    roots
}

/// The pattern of a `file://` link: up to whitespace or a closing parenthesis.
pub open spec fn file_link_pattern() -> Seq<char> {
    "file://[^\\s\\)]+"@
}

/// Characters dropped from the end of a link.
pub open spec fn link_trailer(c: char) -> bool {
    c == '.' || c == ',' || c == ';' || c == '"' || c == '\'' || c == '>' || c == ')'
}

/// `s` without its trailing run of link trailers.
pub open spec fn trim_link_end(s: Seq<char>) -> Seq<char>
    decreases s.len(),
{
    if s.len() > 0 && link_trailer(s.last()) {
        trim_link_end(s.drop_last())
    } else {
        s
    }
}

/// What `url::Url::parse` followed by `Url::to_file_path` gives for a link: the local path
/// it names, or `None` when it is not a URL or names no local file.
pub uninterp spec fn url_file_path(link: Seq<char>) -> Option<Seq<char>>;

/// Wraps `url::Url::parse` and `Url::to_file_path` (the path handed out as text): the
/// result is the name `url_file_path` of the link.
#[verifier::external_body]
fn link_file_path(link: &str) -> (r: Option<String>)
    ensures
        r is None <==> url_file_path(link@) is None,
        r matches Some(p) ==> url_file_path(link@) == Some(p@),
{
    match url::Url::parse(link) {
        Ok(u) => match u.to_file_path() {
            Ok(p) => Some(p.to_string_lossy().into_owned()),
            Err(_) => None,
        },
        Err(_) => None,
    }
}

/// The local paths of the `file://` links of a text, in order, before any check that the
/// files exist or may be sent: each link is cut before trailing punctuation, and links
/// that name no local file are skipped.
pub open spec fn link_paths_of(links: Seq<Seq<char>>) -> Seq<Seq<char>>
    decreases links.len(),
{
    if links.len() == 0 {
        Seq::empty()
    } else {
        let prior = link_paths_of(links.drop_last());
        match url_file_path(trim_link_end(links.last())) {
            Some(p) => prior.push(p),
            None => prior,
        }
    }
}

fn is_link_trailer(c: char) -> (r: bool)
    ensures
        r == link_trailer(c),
{
    c == '.' || c == ',' || c == ';' || c == '"' || c == '\'' || c == '>' || c == ')'
}

fn trim_link_end_of(s: &Vec<char>) -> (r: Vec<char>)
    ensures
        r@ == trim_link_end(s@),
{
    let mut n = s.len();
    assert(s@.take(n as int) =~= s@);
    while n > 0 && is_link_trailer(s[n - 1])
        invariant
            n <= s@.len(),
            trim_link_end(s@.take(n as int)) == trim_link_end(s@),
        decreases n,
    {
        assert(s@.take(n as int).drop_last() =~= s@.take(n - 1));
        n = n - 1;
    }
    crate::text::slice(s, 0, n)
}

/// Cuts a link before its trailing punctuation (`.`, `,`, `;`, quotes, `>` and `)`).
pub fn trim_link(link: &str) -> (r: String)
    ensures
        r@ == trim_link_end(link@),
{
    string_of(&trim_link_end_of(&chars_of(link)))
}

/// The local paths named by the `file://` links of `text`.
pub fn file_link_paths(text: &str) -> (r: Vec<String>)
    ensures
        names(r@) == link_paths_of(regex_matches(file_link_pattern(), text@)),
{
    let links = regex_find_all("file://[^\\s\\)]+", text);
    let ghost ls = links@.map_values(|m: String| m@);
    let mut out: Vec<String> = Vec::new();
    let mut i: usize = 0;
    while i < links.len()
        invariant
            i <= links@.len(),
            ls == links@.map_values(|m: String| m@),
            names(out@) == link_paths_of(ls.take(i as int)),
        decreases links.len() - i,
    {
        assert(ls.take(i + 1).drop_last() =~= ls.take(i as int));
        let raw = trim_link_end_of(&chars_of(links[i].as_str()));
        let raw_s = string_of(&raw);
        let ghost before = names(out@);
        match link_file_path(raw_s.as_str()) {
            Some(p) => {
                out.push(p);
                assert(names(out@) =~= before.push(url_file_path(trim_link_end(ls[i as int]))->Some_0));
            },
            None => {},
        }
        i = i + 1;
    }
    assert(ls.take(links@.len() as int) =~= ls);
    out
}

/// The paths of `paths` without later repeats (equal component by component), in order.
pub open spec fn first_occurrences(paths: Seq<Seq<char>>) -> Seq<Seq<char>>
    decreases paths.len(),
{
    if paths.len() == 0 {
        Seq::empty()
    } else {
        let prior = first_occurrences(paths.drop_last());
        if listed_path(prior, paths.last()) {
            prior
        } else {
            prior.push(paths.last())
        }
    }
}

/// Drops the repeats of a list of paths.
pub fn unique_paths(paths: &Vec<String>) -> (r: Vec<String>)
    ensures
        names(r@) == first_occurrences(names(paths@)),
{
    let ghost ps = names(paths@);
    let mut out: Vec<String> = Vec::new();
    let mut i: usize = 0;
    while i < paths.len()
        invariant
            i <= paths@.len(),
            ps == names(paths@),
            names(out@) == first_occurrences(ps.take(i as int)),
        decreases paths.len() - i,
    {
        assert(ps.take(i + 1).drop_last() =~= ps.take(i as int));
        assert(ps.take(i + 1).last() == paths@[i as int]@);
        if !has_path(&out, paths[i].as_str()) {
            let ghost before = names(out@);
            out.push(paths[i].clone());
            assert(names(out@) =~= before.push(paths@[i as int]@));
        }
        i = i + 1;
    }
    assert(ps.take(paths@.len() as int) =~= ps);
    out
}

} // verus!
