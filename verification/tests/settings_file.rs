use heddle::key_migration::{MigrationPlan, SshKeyStep, TableStep};
use heddle::settings_file::{migrate_warpify_text, plan_text_migration, MigrationError};

fn migrated(text: &str) -> String {
    migrate_warpify_text(text)
        .expect("migration succeeds")
        .expect("something was migrated")
}

#[test]
fn migrates_the_table_and_preserves_every_value() {
    let after = migrated(
        r#"
[warpify.subshells]
added_subshell_commands = ["mycmd"]

[warpify.ssh]
ssh_hosts_denylist = ["prod.example.com"]
use_ssh_tmux_wrapper = true
"#,
    );
    assert!(after.contains("heddlify"), "table was renamed: {after}");
    assert!(!after.contains("warpify"), "no old table remains: {after}");
    assert!(after.contains("mycmd"), "subshell value survived: {after}");
    assert!(
        after.contains("prod.example.com"),
        "denylist value survived: {after}"
    );
    assert!(
        after.contains("use_ssh_tmux_wrapper = true"),
        "untouched keys carried across: {after}"
    );
}

#[test]
fn renames_the_one_key_that_carried_the_old_stem() {
    let after = migrated(
        r#"
[warpify.ssh]
enable_ssh_warpification = false
"#,
    );
    assert!(
        after.contains("enable_ssh_heddlification = false"),
        "key renamed AND its value kept: {after}"
    );
    assert!(
        !after.contains("enable_ssh_warpification"),
        "old key gone: {after}"
    );
}

#[test]
fn preserves_comments_and_unrelated_tables() {
    let after = migrated(
        r#"# my notes about ssh
[warpify.ssh]
# keep prod out of this
ssh_hosts_denylist = ["prod.example.com"]

[appearance]
theme = "dark"
"#,
    );
    assert!(after.contains("# my notes about ssh"), "comment kept: {after}");
    assert!(
        after.contains("# keep prod out of this"),
        "inner comment kept: {after}"
    );
    assert!(after.contains("theme = \"dark\""), "other tables kept: {after}");
}

#[test]
fn is_idempotent_and_reports_no_change_the_second_time() {
    let first = migrated(
        r#"
[warpify.ssh]
ssh_hosts_denylist = ["a"]
"#,
    );
    assert_eq!(
        migrate_warpify_text(&first),
        Ok(None),
        "a migrated file must not be rewritten again"
    );
}

#[test]
fn merges_when_both_tables_exist_with_the_new_one_winning() {
    let after = migrated(
        r#"
[warpify.ssh]
ssh_hosts_denylist = ["stale"]
use_ssh_tmux_wrapper = true

[warpify.subshells]
added_subshell_commands = ["only-in-old"]

[heddlify.ssh]
ssh_hosts_denylist = ["current"]
"#,
    );
    assert!(
        after.contains("current") && !after.contains("stale"),
        "the newer value wins the conflict: {after}"
    );
    assert!(
        after.contains("use_ssh_tmux_wrapper = true"),
        "a sibling key present only in the old table is rescued: {after}"
    );
    assert!(
        after.contains("only-in-old"),
        "a whole sub-table present only in the old table is carried across: {after}"
    );
    assert!(!after.contains("[warpify"), "old table removed: {after}");
}

#[test]
fn merging_prefers_a_new_style_ssh_key_over_the_renamed_old_one() {
    let after = migrated(
        r#"
[warpify.ssh]
enable_ssh_warpification = true

[heddlify.ssh]
enable_ssh_heddlification = false
"#,
    );
    assert!(
        after.contains("enable_ssh_heddlification = false"),
        "the user's newer explicit opt-out survives: {after}"
    );
    assert!(
        !after.contains("enable_ssh_heddlification = true"),
        "the stale value must not be reintroduced: {after}"
    );
}

#[test]
fn does_nothing_when_there_is_nothing_to_migrate() {
    assert_eq!(
        migrate_warpify_text("[appearance]\ntheme = \"dark\"\n"),
        Ok(None)
    );
    assert_eq!(migrate_warpify_text(""), Ok(None));
}

#[test]
fn malformed_toml_is_reported_rather_than_silently_skipped() {
    assert_eq!(
        migrate_warpify_text("[warpify.ssh\nthis is not toml"),
        Err(MigrationError::NotToml)
    );
    assert_eq!(
        plan_text_migration("[warpify.ssh\nthis is not toml"),
        Err(MigrationError::NotToml)
    );
}

#[test]
fn the_plan_is_read_from_the_text() {
    assert_eq!(
        plan_text_migration("[warpify.ssh]\nenable_ssh_warpification = true\n"),
        Ok(Some(MigrationPlan {
            ssh_key: SshKeyStep::Rename,
            table: TableStep::Move,
        }))
    );
}

#[test]
fn an_inline_old_table_is_migrated_too() {
    let after = migrated("warpify = { ssh = { enable_ssh_warpification = true } }\n");
    assert!(after.contains("heddlify"), "{after}");
    assert!(after.contains("enable_ssh_heddlification = true"), "{after}");
    assert!(!after.contains("warpify"), "{after}");
}

#[test]
fn merges_into_an_inline_new_table() {
    let after = migrated(
        r#"heddlify = { ssh = { ssh_hosts_denylist = ["current"] } }

[warpify.ssh]
ssh_hosts_denylist = ["stale"]
use_ssh_tmux_wrapper = true
"#,
    );
    assert!(!after.contains("warpify"), "old table removed: {after}");
    assert!(after.contains("current"), "the new value wins: {after}");
    assert!(!after.contains("stale"), "the old value is dropped: {after}");
    assert!(after.contains("use_ssh_tmux_wrapper = true"), "missing key filled in: {after}");
    assert_eq!(plan_text_migration(&after), Ok(None));
}

#[test]
fn dotted_keys_of_the_old_table_are_carried_across() {
    let after = migrated(
        r#"[warpify]
ssh.enable_ssh_warpification = true
subshells.added_subshell_commands = ["mycmd"]
"#,
    );
    assert!(!after.contains("warpify"), "old table removed: {after}");
    assert!(after.contains("enable_ssh_heddlification = true"), "key renamed: {after}");
    assert!(after.contains("mycmd"), "value kept: {after}");
    assert_eq!(migrate_warpify_text(&after), Ok(None));
}
