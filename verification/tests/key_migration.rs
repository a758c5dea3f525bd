use heddle::key_migration::{plan_migration, MigrationPlan, SshKeyStep, TableStep, TomlShape};

fn table(entries: Vec<(&str, TomlShape)>) -> TomlShape {
    TomlShape::Table(entries.into_iter().map(|(k, v)| (k.to_string(), v)).collect())
}

fn root(entries: Vec<(&str, TomlShape)>) -> Vec<(String, TomlShape)> {
    entries.into_iter().map(|(k, v)| (k.to_string(), v)).collect()
}

fn value() -> TomlShape {
    TomlShape::Value("true".to_string())
}

fn path(keys: &[&str]) -> Vec<String> {
    keys.iter().map(|k| k.to_string()).collect()
}

#[test]
fn a_file_without_the_old_table_needs_nothing() {
    let doc = root(vec![("appearance", table(vec![("theme", value())]))]);
    assert_eq!(plan_migration(doc), None);
    assert_eq!(plan_migration(Vec::new()), None);
}

#[test]
fn the_old_table_moves_when_there_is_no_new_one() {
    let doc = root(vec![(
        "warpify",
        table(vec![
            ("subshells", table(vec![("added_subshell_commands", value())])),
            (
                "ssh",
                table(vec![
                    ("ssh_hosts_denylist", value()),
                    ("use_ssh_tmux_wrapper", value()),
                ]),
            ),
        ]),
    )]);
    assert_eq!(
        plan_migration(doc),
        Some(MigrationPlan {
            ssh_key: SshKeyStep::Keep,
            table: TableStep::Move,
        })
    );
}

#[test]
fn the_old_ssh_key_is_renamed() {
    let doc = root(vec![(
        "warpify",
        table(vec![("ssh", table(vec![("enable_ssh_warpification", value())]))]),
    )]);
    assert_eq!(
        plan_migration(doc),
        Some(MigrationPlan {
            ssh_key: SshKeyStep::Rename,
            table: TableStep::Move,
        })
    );
}

#[test]
fn both_tables_merge_with_the_new_one_winning() {
    let doc = root(vec![
        (
            "warpify",
            table(vec![
                (
                    "ssh",
                    table(vec![
                        ("ssh_hosts_denylist", value()),
                        ("use_ssh_tmux_wrapper", value()),
                    ]),
                ),
                ("subshells", table(vec![("added_subshell_commands", value())])),
            ]),
        ),
        (
            "heddlify",
            table(vec![("ssh", table(vec![("ssh_hosts_denylist", value())]))]),
        ),
    ]);
    assert_eq!(
        plan_migration(doc),
        Some(MigrationPlan {
            ssh_key: SshKeyStep::Keep,
            table: TableStep::Merge {
                copies: vec![path(&["ssh", "use_ssh_tmux_wrapper"]), path(&["subshells"])],
            },
        })
    );
}

#[test]
fn a_new_style_ssh_key_wins_over_the_renamed_old_one() {
    let doc = root(vec![
        (
            "warpify",
            table(vec![(
                "ssh",
                table(vec![
                    ("enable_ssh_warpification", value()),
                    ("enable_ssh_heddlification", value()),
                ]),
            )]),
        ),
        (
            "heddlify",
            table(vec![("ssh", table(vec![("enable_ssh_heddlification", value())]))]),
        ),
    ]);
    assert_eq!(
        plan_migration(doc),
        Some(MigrationPlan {
            ssh_key: SshKeyStep::DropOld,
            table: TableStep::Merge { copies: vec![] },
        })
    );
}

#[test]
fn the_renamed_key_is_merged_when_the_new_table_lacks_it() {
    let doc = root(vec![
        (
            "warpify",
            table(vec![("ssh", table(vec![("enable_ssh_warpification", value())]))]),
        ),
        ("heddlify", table(vec![("ssh", table(vec![]))])),
    ]);
    assert_eq!(
        plan_migration(doc),
        Some(MigrationPlan {
            ssh_key: SshKeyStep::Rename,
            table: TableStep::Merge {
                copies: vec![path(&["ssh", "enable_ssh_heddlification"])],
            },
        })
    );
}

#[test]
fn a_plain_value_on_either_side_blocks_descent() {
    let doc = root(vec![
        (
            "warpify",
            table(vec![
                ("ssh", table(vec![("a", value())])),
                ("subshells", value()),
            ]),
        ),
        (
            "heddlify",
            table(vec![("ssh", value()), ("subshells", table(vec![]))]),
        ),
    ]);
    assert_eq!(
        plan_migration(doc),
        Some(MigrationPlan {
            ssh_key: SshKeyStep::Keep,
            table: TableStep::Merge { copies: vec![] },
        })
    );
}

#[test]
fn a_new_table_that_is_not_a_table_takes_nothing() {
    let doc = root(vec![
        ("warpify", table(vec![("ssh", table(vec![]))])),
        ("heddlify", value()),
    ]);
    assert_eq!(
        plan_migration(doc),
        Some(MigrationPlan {
            ssh_key: SshKeyStep::Keep,
            table: TableStep::Merge { copies: vec![] },
        })
    );
}

#[test]
fn a_migrated_file_is_not_migrated_again() {
    let migrated = root(vec![(
        "heddlify",
        table(vec![("ssh", table(vec![("ssh_hosts_denylist", value())]))]),
    )]);
    assert_eq!(plan_migration(migrated), None);
}
