use synsyu_core::config::SpacePolicy;
use synsyu_core::plan::{
    assemble_plan, plan_exit_code, plan_sources, PlanCommand, PlanUpdate,
};
use synsyu_core::space::{check_capacity, SpaceReport};

fn command() -> PlanCommand {
    PlanCommand {
        config: None,
        manifest: None,
        plan: None,
        json: false,
        strict: false,
        offline: false,
        no_repo: false,
        no_aur: false,
        with_flatpak: false,
        with_fwupd: false,
    }
}

fn update(name: &str) -> PlanUpdate {
    PlanUpdate {
        name: name.to_string(),
        installed: "1.0".to_string(),
        available: "2.0".to_string(),
    }
}

#[test]
fn sources_follow_the_switches() {
    let mut cmd = command();
    cmd.with_flatpak = true;
    cmd.with_fwupd = true;
    assert_eq!(plan_sources(&cmd), vec!["pacman", "aur", "flatpak", "fwupd"]);

    let mut offline = command();
    offline.offline = true;
    offline.no_repo = true;
    assert_eq!(plan_sources(&offline), Vec::<String>::new());
}

#[test]
fn errors_merge_in_source_order() {
    let cmd = command();
    let doc = assemble_plan(
        &cmd,
        "t".to_string(),
        "/tmp/plan.json".to_string(),
        vec![update("zsh")],
        vec!["pacman: boom".to_string()],
        vec![],
        vec!["AUR: no helper available".to_string()],
        vec![],
        vec![],
        vec![],
        vec![],
        SpacePolicy::Warn,
        0,
        None,
    );
    assert_eq!(doc.errors, vec!["pacman: boom", "AUR: no helper available"]);
    assert!(!doc.blocked);
    assert!(doc.space.is_none());
    assert_eq!(doc.pacman_updates.len(), 1);
    assert_eq!(doc.generated_by, "synsyu_core plan");
}

#[test]
fn enforced_shortfall_blocks_and_records_an_error() {
    let cmd = command();
    let report = SpaceReport {
        checked_path: "/var/tmp".to_string(),
        available_bytes: 900,
    };
    let check = check_capacity(SpacePolicy::Enforce, false, &report, 1000, 0, 0, 0, 0, 0);
    let doc = assemble_plan(
        &cmd,
        "t".to_string(),
        "p".to_string(),
        vec![],
        vec![],
        vec![],
        vec![],
        vec![],
        vec![],
        vec![],
        vec![],
        SpacePolicy::Enforce,
        0,
        Some((check, "/var/tmp".to_string(), 900)),
    );
    assert!(doc.blocked);
    assert_eq!(doc.errors.len(), 1);
    assert!(doc.errors[0].contains("Insufficient space"));
    let space = doc.space.unwrap();
    assert!(!space.ok);
    assert!(space.warning.is_none());
    assert_eq!(space.policy, "enforce");
}

#[test]
fn warned_shortfall_stays_advisory() {
    let cmd = command();
    let report = SpaceReport {
        checked_path: "/var/tmp".to_string(),
        available_bytes: 900,
    };
    let check = check_capacity(SpacePolicy::Warn, false, &report, 1000, 0, 0, 0, 0, 0);
    let doc = assemble_plan(
        &cmd,
        "t".to_string(),
        "p".to_string(),
        vec![],
        vec![],
        vec![],
        vec![],
        vec![],
        vec![],
        vec![],
        vec![],
        SpacePolicy::Warn,
        0,
        Some((check, "/var/tmp".to_string(), 900)),
    );
    assert!(!doc.blocked);
    assert!(doc.errors.is_empty());
    let space = doc.space.unwrap();
    assert!(!space.ok);
    assert!(space.warning.unwrap().contains("Insufficient space"));
}

#[test]
fn exit_codes_reflect_strictness_and_blocking() {
    assert_eq!(plan_exit_code(false, 0, false), 0);
    assert_eq!(plan_exit_code(false, 3, false), 0);
    assert_eq!(plan_exit_code(true, 3, false), 1);
    assert_eq!(plan_exit_code(true, 0, false), 0);
    assert_eq!(plan_exit_code(false, 0, true), 1);
}

#[test]
fn error_messages_and_exit_codes() {
    let err = synsyu_core::error::SynsyuError::Network("down".to_string());
    assert_eq!(err.message(), "Network error: down");
    assert_ne!(err.exit_code(), 0);
    let missing = synsyu_core::error::SynsyuError::CommandMissing {
        command: "pacman".to_string(),
    };
    assert_eq!(missing.message(), "Required command not found: pacman");
    let spawn = synsyu_core::error::map_spawn_error(true, "vercmp", "gone");
    assert!(matches!(
        spawn,
        synsyu_core::error::SynsyuError::CommandMissing { .. }
    ));
}
