use heddle::release_manifest::{
    manifest_source, ChannelEntry, ChannelVersions, ManifestSource, LOCAL_MANIFEST_PATH_VAR,
    MANIFEST_URL,
};
use heddle::update_consent::UpdateConsent;

fn home() -> Option<String> {
    Some("/home/someone".to_string())
}

#[test]
fn unanswered_or_declined_consent_reads_nothing() {
    for consent in [UpdateConsent::Unanswered, UpdateConsent::Disabled] {
        assert_eq!(manifest_source(consent, None, home()), ManifestSource::NotPermitted);
    }
}

#[test]
fn the_local_path_override_does_not_bypass_consent() {
    for consent in [UpdateConsent::Unanswered, UpdateConsent::Disabled] {
        assert_eq!(
            manifest_source(consent, Some("/tmp/channel_versions.json".to_string()), home()),
            ManifestSource::NotPermitted
        );
    }
}

#[test]
fn enabled_consent_downloads_from_the_release() {
    assert_eq!(
        manifest_source(UpdateConsent::Enabled, None, home()),
        ManifestSource::Remote {
            url: "https://github.com/nikolaypaskov/heddle/releases/latest/download/channel_versions.json"
                .to_string()
        }
    );
    assert!(MANIFEST_URL.ends_with("/channel_versions.json"));
    assert_eq!(LOCAL_MANIFEST_PATH_VAR, "HEDDLE_CHANNEL_VERSIONS_PATH");
}

#[test]
fn an_override_is_read_with_consent() {
    assert_eq!(
        manifest_source(
            UpdateConsent::Enabled,
            Some("/tmp/channel_versions.json".to_string()),
            home()
        ),
        ManifestSource::LocalFile {
            path: "/tmp/channel_versions.json".to_string()
        }
    );
    assert_eq!(
        manifest_source(UpdateConsent::Enabled, Some("~someone/m.json".to_string()), home()),
        ManifestSource::LocalFile {
            path: "~someone/m.json".to_string()
        }
    );
}

#[test]
fn a_leading_tilde_is_expanded() {
    assert_eq!(
        manifest_source(UpdateConsent::Enabled, Some("~/m.json".to_string()), home()),
        ManifestSource::LocalFile {
            path: "/home/someone/m.json".to_string()
        }
    );
    assert_eq!(
        manifest_source(UpdateConsent::Enabled, Some("~".to_string()), home()),
        ManifestSource::LocalFile {
            path: "/home/someone".to_string()
        }
    );
}

#[test]
fn without_a_home_directory_the_tilde_stays() {
    assert_eq!(
        manifest_source(UpdateConsent::Enabled, Some("~/m.json".to_string()), None),
        ManifestSource::LocalFile {
            path: "~/m.json".to_string()
        }
    );
}

fn manifest(entries: &[(&str, &str)]) -> ChannelVersions {
    ChannelVersions {
        channels: entries
            .iter()
            .map(|(channel, version)| ChannelEntry {
                channel: channel.to_string(),
                version: version.to_string(),
            })
            .collect(),
    }
}

#[test]
fn each_channel_offers_its_own_version() {
    let m = manifest(&[("dev", "v0.3.3"), ("preview", "v0.3.2"), ("stable", "0.3.1")]);
    let stable = m.offered_version("stable").unwrap();
    assert_eq!((stable.major(), stable.minor(), stable.patch()), (0, 3, 1));
    let dev = m.offered_version("dev").unwrap();
    assert_eq!((dev.major(), dev.minor(), dev.patch()), (0, 3, 3));
}

#[test]
fn a_missing_channel_or_an_unreadable_version_offers_nothing() {
    let m = manifest(&[("dev", "v0.3.3"), ("stable", "latest")]);
    assert!(m.offered_version("preview").is_none());
    assert!(m.offered_version("stable").is_none());
    assert!(manifest(&[]).offered_version("stable").is_none());
}

#[test]
fn the_first_entry_for_a_channel_is_the_one_read() {
    let m = manifest(&[("stable", "v1.0.0"), ("stable", "v2.0.0")]);
    assert_eq!(m.offered_version("stable").unwrap().major(), 1);
}
