//! The reply to `/upgrade`: whether the latest release is offered, and the buttons that
//! answer the offer.
//!
//! Button labels are message keys that the caller looks up in the active language.

use vstd::prelude::*;
use crate::text::{append_str, chars_of, ends_with, ends_with_chars, slice, string_of};

verus! {

/// The version a release tag names: the tag without its leading `v`s.
pub open spec fn tag_version(tag: Seq<char>) -> Seq<char>
    decreases tag.len(),
{
    if tag.len() > 0 && tag[0] == 'v' {
        tag_version(tag.drop_first())
    } else {
        tag
    }
}

/// The version a release tag names (`trim_start_matches('v')`).
pub fn latest_version(tag: &str) -> (r: String)
    ensures
        r@ == tag_version(tag@),
{
    let t = chars_of(tag);
    let mut i: usize = 0;
    assert(t@.skip(0) == t@);
    while i < t.len() && t[i] == 'v'
        invariant
            i <= t@.len(),
            t@ == tag@,
            tag_version(t@.skip(i as int)) == tag_version(tag@),
        decreases t.len() - i,
    {
        assert(t@.skip(i as int).drop_first() == t@.skip(i + 1));
        i = i + 1;
    }
    assert(t@.skip(i as int) == t@.subrange(i as int, t@.len() as int));
    string_of(&slice(&t, i, t.len()))
}

/// A button of the upgrade offer: the message key of its label and its callback data.
#[derive(Clone, Debug, PartialEq, Eq)]
pub struct UpgradeButton {
    pub label_key: String,
    pub data: String,
}

/// A button as (label key, callback data).
pub open spec fn upgrade_button_view(b: UpgradeButton) -> (Seq<char>, Seq<char>) {
    (b.label_key@, b.data@)
}

/// The rows of the offer for release `tag`: install it, read its changelog (when the
/// release notes are not empty), or not now.
pub open spec fn upgrade_rows(tag: Seq<char>, has_body: bool) -> Seq<Seq<(Seq<char>, Seq<char>)>> {
    let yes = seq![("upgrade.btn_yes"@, "upg:yes:"@ + tag)];
    let changelog = seq![("upgrade.btn_changelog"@, "upg:changelog:"@ + tag)];
    let no = seq![("upgrade.btn_not_now"@, "upg:no"@)];
    if has_body {
        seq![yes, changelog, no]
    } else {
        seq![yes, no]
    }
}

/// The rows as (label key, callback data).
pub open spec fn upgrade_rows_view(rows: Seq<Vec<UpgradeButton>>) -> Seq<Seq<(Seq<char>, Seq<char>)>> {
    rows.map_values(|row: Vec<UpgradeButton>| row@.map_values(|b: UpgradeButton| upgrade_button_view(b)))
}

fn button(label_key: &str, data_head: &str, tag: &str) -> (b: UpgradeButton)
    ensures
        b.label_key@ == label_key@,
        b.data@ == data_head@ + tag@,
{
    let mut d = chars_of(data_head);
    append_str(&mut d, tag);
    UpgradeButton { label_key: label_key.to_owned(), data: string_of(&d) }
}

/// Builds the buttons of the offer for release `tag`.
pub fn build_upgrade_keyboard(tag: &str, has_body: bool) -> (r: Vec<Vec<UpgradeButton>>)
    ensures
        upgrade_rows_view(r@) == upgrade_rows(tag@, has_body),
{
    let ghost view = |row: Vec<UpgradeButton>| row@.map_values(|b: UpgradeButton| upgrade_button_view(b));
    let yes = vec![button("upgrade.btn_yes", "upg:yes:", tag)];
    assert(view(yes) =~= seq![("upgrade.btn_yes"@, "upg:yes:"@ + tag@)]);
    let no = vec![button("upgrade.btn_not_now", "upg:no", "")];
    proof {
        reveal_strlit("");
        assert("upg:no"@ + ""@ =~= "upg:no"@);
    }
    assert(view(no) =~= seq![("upgrade.btn_not_now"@, "upg:no"@)]);
    let mut rows: Vec<Vec<UpgradeButton>> = Vec::new();
    rows.push(yes);
    if has_body {
        let log = vec![button("upgrade.btn_changelog", "upg:changelog:", tag)];
        assert(view(log) =~= seq![("upgrade.btn_changelog"@, "upg:changelog:"@ + tag@)]);
        rows.push(log);
    }
    rows.push(no);
    assert(upgrade_rows_view(rows@) =~= upgrade_rows(tag@, has_body));
    rows
}

/// The reply to `/upgrade`.
#[derive(Clone, Debug, PartialEq, Eq)]
pub enum UpgradeReply {
    /// A newer release can be installed: its version and the buttons of the offer.
    Offer { latest: String, keyboard: Vec<Vec<UpgradeButton>> },
    /// A newer release exists but has no Linux archive.
    NoAsset,
    /// The running version is current: the latest release's version.
    UpToDate { latest: String },
}

/// Some asset of the release is a `.tar.gz` archive.
pub open spec fn has_archive(asset_names: Seq<Seq<char>>) -> bool {
    exists|i: int| 0 <= i < asset_names.len() && ends_with(#[trigger] asset_names[i], ".tar.gz"@)
}

fn archive_among(asset_names: &Vec<String>) -> (r: bool)
    ensures
        r == has_archive(asset_names@.map_values(|a: String| a@)),
{
    let ghost names = asset_names@.map_values(|a: String| a@);
    let suffix = chars_of(".tar.gz");
    let mut i: usize = 0;
    while i < asset_names.len()
        invariant
            i <= asset_names@.len(),
            suffix@ == ".tar.gz"@,
            names == asset_names@.map_values(|a: String| a@),
            forall|j: int| 0 <= j < i ==> !ends_with(#[trigger] names[j], ".tar.gz"@),
        decreases asset_names.len() - i,
    {
        if ends_with_chars(&chars_of(asset_names[i].as_str()), &suffix) {
            assert(ends_with(names[i as int], ".tar.gz"@));
            return true;
        }
        i = i + 1;
    }
    false
}

/// Decides the reply to `/upgrade` for the latest release `tag`, given whether its version
/// is newer than the running one, the names of its assets and its release notes.
pub fn upgrade_reply(tag: &str, newer: bool, asset_names: &Vec<String>, body: Option<&str>) -> (r: UpgradeReply)
    ensures
        !newer ==> (r matches UpgradeReply::UpToDate { latest } && latest@ == tag_version(tag@)),
        newer && !has_archive(asset_names@.map_values(|a: String| a@)) ==> r == UpgradeReply::NoAsset,
        newer && has_archive(asset_names@.map_values(|a: String| a@)) ==> (r matches UpgradeReply::Offer {
            latest,
            keyboard,
        } && latest@ == tag_version(tag@) && upgrade_rows_view(keyboard@) == upgrade_rows(
            tag@,
            body matches Some(b) && b@.len() > 0,
        )),
{
    let latest = latest_version(tag);
    if !newer {
        return UpgradeReply::UpToDate { latest };
    }
    if !archive_among(asset_names) {
        return UpgradeReply::NoAsset;
    }
    let has_body = match body {
        Some(b) => !b.is_empty(),
        None => false,
    };
    UpgradeReply::Offer { latest, keyboard: build_upgrade_keyboard(tag, has_body) }
}

} // verus!
