use tuner::upgrade_offer::{build_upgrade_keyboard, latest_version, upgrade_reply, UpgradeButton, UpgradeReply};

fn b(label_key: &str, data: &str) -> UpgradeButton {
    UpgradeButton { label_key: label_key.to_string(), data: data.to_string() }
}

#[test]
fn versions_lose_the_tag_prefix() {
    assert_eq!(latest_version("v1.2.3"), "1.2.3");
    assert_eq!(latest_version("vv2.0"), "2.0");
    assert_eq!(latest_version("3.1"), "3.1");
    assert_eq!(latest_version(""), "");
}

#[test]
fn upgrade_keyboards() {
    assert_eq!(
        build_upgrade_keyboard("v1.2.3", true),
        vec![
            vec![b("upgrade.btn_yes", "upg:yes:v1.2.3")],
            vec![b("upgrade.btn_changelog", "upg:changelog:v1.2.3")],
            vec![b("upgrade.btn_not_now", "upg:no")],
        ]
    );
    assert_eq!(
        build_upgrade_keyboard("v1.2.3", false),
        vec![vec![b("upgrade.btn_yes", "upg:yes:v1.2.3")], vec![b("upgrade.btn_not_now", "upg:no")]]
    );
}

#[test]
fn upgrade_replies() {
    let assets = vec!["tuner-linux.tar.gz".to_string(), "checksums.txt".to_string()];
    assert_eq!(upgrade_reply("v1.0.0", false, &assets, None), UpgradeReply::UpToDate { latest: "1.0.0".to_string() });
    assert_eq!(upgrade_reply("v2.0.0", true, &vec!["notes.md".to_string()], Some("x")), UpgradeReply::NoAsset);
    assert_eq!(
        upgrade_reply("v2.0.0", true, &assets, Some("")),
        UpgradeReply::Offer { latest: "2.0.0".to_string(), keyboard: build_upgrade_keyboard("v2.0.0", false) }
    );
    assert_eq!(
        upgrade_reply("v2.0.0", true, &assets, Some("fixes")),
        UpgradeReply::Offer { latest: "2.0.0".to_string(), keyboard: build_upgrade_keyboard("v2.0.0", true) }
    );
}
