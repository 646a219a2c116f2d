use extension_version_watcher::config::{
    assemble_extensions, builtin_extensions, default_true, Config, Extension,
};
use extension_version_watcher::ledger::VersionLedger;
use extension_version_watcher::paths::{
    artifact_file_path, artifact_relative_path, release_dir_arg, release_dir_path,
};
use extension_version_watcher::pipeline::{effective_generate_diff, plan_update, UpdatePlan};
use extension_version_watcher::resolve::uses_manifest_strategy;

#[test]
fn same_version_twice_plans_no_change() {
    let mut ledger = VersionLedger::new();
    // First run: the package resolves to 1.0 and is fetched.
    let prev = ledger.reconcile(&"classroom".to_string(), &"1.0".to_string());
    let plan = plan_update(&prev, &"1.0".to_string(), &None, true);
    assert_eq!(plan, UpdatePlan::Fetch { format: true, diff: false });
    // Second run: 1.0 again; nothing further runs.
    let prev = ledger.reconcile(&"classroom".to_string(), &"1.0".to_string());
    assert_eq!(prev, "1.0");
    let plan = plan_update(&prev, &"1.0".to_string(), &None, true);
    assert_eq!(plan, UpdatePlan::NoChange);
}

#[test]
fn changed_version_with_prior_release_plans_format_and_diff() {
    let plan = plan_update(&"1.0".to_string(), &"2.0".to_string(), &None, true);
    assert_eq!(plan, UpdatePlan::Fetch { format: true, diff: true });
}

#[test]
fn diff_disabled_for_package_skips_format_and_diff() {
    let plan = plan_update(&"1.0".to_string(), &"2.0".to_string(), &None, false);
    assert_eq!(plan, UpdatePlan::Fetch { format: false, diff: false });
}

#[test]
fn global_override_wins_over_package_setting() {
    assert!(effective_generate_diff(&Some(true), false));
    assert!(!effective_generate_diff(&Some(false), true));
    assert!(effective_generate_diff(&None, true));
    assert!(!effective_generate_diff(&None, false));
    let plan = plan_update(&"1.0".to_string(), &"2.0".to_string(), &Some(false), true);
    assert_eq!(plan, UpdatePlan::Fetch { format: false, diff: false });
}

#[test]
fn builtin_extensions_hold_fifteen_packages() {
    let list = builtin_extensions();
    assert_eq!(list.len(), 15);
    assert_eq!(list[0].name, "classroom");
    assert_eq!(list[0].display_name, "Securly Classroom");
    assert_eq!(
        list[0].url.as_deref(),
        Some("https://deviceconsole.securly.com/dist/chrome/n.xml")
    );
    assert_eq!(list[1].name, "chromebooks");
    assert_eq!(list[1].url, None);
    assert_eq!(list[14].name, "lanschool");
    assert!(list.iter().all(|e| e.generate_diff));
}

#[test]
fn default_for_use_builtin_extensions_is_true() {
    assert!(default_true());
}

#[test]
fn assemble_extensions_appends_extras_after_builtins() {
    let extra = Extension {
        name: "custom".to_string(),
        display_name: "Custom".to_string(),
        id: "aaaabbbbccccddddeeeeffffgggghhhh".to_string(),
        url: None,
        generate_diff: false,
    };
    let config = Config {
        use_builtin_extensions: true,
        force_generate_diffs: None,
        extra_extensions: Some(vec![extra]),
        discord: None,
    };
    let list = assemble_extensions(&config);
    assert_eq!(list.len(), 16);
    assert_eq!(list[15].name, "custom");
}

#[test]
fn assemble_extensions_without_builtins_keeps_only_extras() {
    let config = Config {
        use_builtin_extensions: false,
        force_generate_diffs: None,
        extra_extensions: None,
        discord: None,
    };
    let list = assemble_extensions(&config);
    assert!(list.is_empty());
}

#[test]
fn strategy_follows_presence_of_manifest_url() {
    let list = builtin_extensions();
    assert!(uses_manifest_strategy(&list[0]));
    assert!(!uses_manifest_strategy(&list[1]));
}

#[test]
fn release_paths_are_keyed_by_name_and_version() {
    let name = "classroom".to_string();
    let version = "1.2.3".to_string();
    assert_eq!(artifact_file_path(&name, &version), "./crx/classroom-1.2.3.crx");
    assert_eq!(release_dir_path(&name, &version), "./crx/classroom-1.2.3");
    assert_eq!(artifact_relative_path(&name, &version), "../classroom-1.2.3.crx");
    assert_eq!(release_dir_arg(&name, &version), "./classroom-1.2.3");
}
