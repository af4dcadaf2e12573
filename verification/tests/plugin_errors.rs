use dsh_desktop::plugin_registry::{
    check_rendered_size, clear_in, current_timestamp, format_timestamp, insert_record,
    record_in, registry_file_fits, registry_from_entries, PluginError, PluginErrorMap,
    MAX_PLUGIN_ERROR_ENTRIES,
};
use dsh_desktop::plugin_validation::{
    is_package_name, validate_action, validate_message, validate_plugin_id,
    validate_record_input, MAX_PLUGIN_ERROR_MESSAGE_CHARS,
};
use dsh_desktop::rate_limit::{admit_runtime_report, RuntimeRateLimiter, MAX_RUNTIME_REPORTS_GLOBAL};
use dsh_desktop::text::{is_whitespace, same_text, trim};

#[test]
fn record_input_is_bounded_and_typed() {
    assert!(validate_record_input("dshmarket", "runtime", "failure").is_ok());
    assert!(validate_record_input("not a package", "runtime", "failure").is_err());
    assert!(validate_record_input("dshmarket", "unknown", "failure").is_err());
    assert!(validate_record_input(
        "dshmarket",
        "runtime",
        &"x".repeat(MAX_PLUGIN_ERROR_MESSAGE_CHARS + 1)
    )
    .is_err());
}

#[test]
fn registry_entry_limit_is_enforced() {
    let mut map = PluginErrorMap::new();
    for index in 0..MAX_PLUGIN_ERROR_ENTRIES {
        let id = format!("dsh-test-plugin-{index}");
        insert_record(
            &mut map,
            &id,
            "runtime",
            "failure",
            "1700000000".to_string(),
        )
        .unwrap();
    }
    assert!(insert_record(
        &mut map,
        "dsh-test-plugin-overflow",
        "runtime",
        "failure",
        "1700000000".to_string(),
    )
    .is_err());
    insert_record(
        &mut map,
        "dsh-test-plugin-0",
        "runtime",
        "updated",
        "1700000001".to_string(),
    )
    .unwrap();
}

#[test]
fn runtime_reports_have_a_global_window_limit() {
    let mut limiter = RuntimeRateLimiter::new();
    let prefix = format!("dsh-test-runtime-{}", 7);
    for index in 0..MAX_RUNTIME_REPORTS_GLOBAL {
        limiter
            .allow_runtime_report(&format!("{prefix}-{index}"))
            .unwrap();
    }
    assert!(limiter
        .allow_runtime_report(&format!("{prefix}-overflow"))
        .is_err());
}

#[test]
fn runtime_reports_have_a_per_plugin_limit() {
    let mut limiter = RuntimeRateLimiter::new();
    for _ in 0..8 {
        limiter.allow_at("dshmarket", 0).unwrap();
    }
    assert_eq!(
        limiter.allow_at("dshmarket", 1).unwrap_err(),
        "PLUGIN_ERROR_RATE_LIMITED: too many runtime reports"
    );
    limiter.allow_at("other-plugin", 1).unwrap();
    // The window closes after ten seconds.
    limiter.allow_at("dshmarket", 10_000_000_000).unwrap();
}

#[test]
fn runtime_reporters_are_bounded() {
    let mut limiter = RuntimeRateLimiter::new();
    for index in 0..64u32 {
        limiter.allow_at(&format!("p{index}"), 0).unwrap();
    }
    assert_eq!(
        limiter.allow_at("late", 1).unwrap_err(),
        "PLUGIN_ERROR_RATE_LIMITED: too many runtime reports"
    );
    limiter.allow_at("late", 10_000_000_000).unwrap();
}

#[test]
fn package_names() {
    assert!(is_package_name("dshmarket"));
    assert!(is_package_name("dsh-test-plugin-0"));
    assert!(is_package_name("@dsh/market"));
    assert!(is_package_name("a.b_c~d"));
    assert!(!is_package_name(""));
    assert!(!is_package_name("not a package"));
    assert!(!is_package_name("Upper"));
    assert!(!is_package_name(".hidden"));
    assert!(!is_package_name("_private"));
    assert!(!is_package_name("@scope"));
    assert!(!is_package_name("@scope/"));
    assert!(!is_package_name("@/name"));
    assert!(!is_package_name("@a/b/c"));
    assert!(!is_package_name("a/b"));
}

#[test]
fn plugin_id_rules() {
    assert!(validate_plugin_id("dshmarket").is_ok());
    assert_eq!(
        validate_plugin_id(" dshmarket").unwrap_err(),
        "PLUGIN_ERROR_INVALID_ID: invalid plugin id"
    );
    assert!(validate_plugin_id("dshmarket\n").is_err());
    assert!(validate_plugin_id("").is_err());
    assert!(validate_plugin_id(&"a".repeat(214)).is_ok());
    assert!(validate_plugin_id(&"a".repeat(215)).is_err());
}

#[test]
fn action_and_message_rules() {
    for action in ["install", "update", "remove", "runtime"] {
        assert!(validate_action(action).is_ok());
    }
    assert_eq!(
        validate_action("Install").unwrap_err(),
        "PLUGIN_ERROR_INVALID_ACTION: unsupported action"
    );
    assert!(validate_message(&"x".repeat(2000)).is_ok());
    assert_eq!(
        validate_message(&"x".repeat(2001)).unwrap_err(),
        "PLUGIN_ERROR_TOO_LARGE: error message exceeds the limit"
    );
    // 2000 characters of four bytes each stay under the byte limit
    assert!(validate_message(&"😀".repeat(2000)).is_ok());
    assert!(validate_message(&"😀".repeat(2048)).is_err());
    assert!(validate_message(&"é".repeat(2000)).is_ok());
}

#[test]
fn whitespace_matches_std() {
    for code in 0u32..=0x3100 {
        if let Some(c) = char::from_u32(code) {
            assert_eq!(is_whitespace(c), c.is_whitespace(), "{code:#x}");
        }
    }
}

#[test]
fn trim_matches_std() {
    for s in ["", "  ", " a ", "\u{3000}x y\u{2029}", "abc", "\tfailure\n", "é "] {
        assert_eq!(trim(s), s.trim());
    }
}

#[test]
fn same_text_compares_characters() {
    assert!(same_text("runtime", "runtime"));
    assert!(!same_text("runtime", "runtim"));
    assert!(!same_text("é", "e"));
}

#[test]
fn record_then_get_then_clear() {
    let mut map = PluginErrorMap::new();
    record_in(&mut map, "dshmarket", "install", "  ERR_PNPM_IGNORED_BUILDS \n", "1700000000".to_string())
        .unwrap();
    let error = map.get("dshmarket").unwrap();
    assert_eq!(error.message, "ERR_PNPM_IGNORED_BUILDS");
    assert_eq!(error.action, "install");
    assert_eq!(error.at, "1700000000");
    assert_eq!(map.len(), 1);
    assert!(map.contains_key("dshmarket"));

    record_in(&mut map, "dshmarket", "update", "again", "1700000001".to_string()).unwrap();
    assert_eq!(map.len(), 1);
    assert_eq!(map.get("dshmarket").unwrap().message, "again");

    assert_eq!(clear_in(&mut map, "dshmarket"), Ok(true));
    assert!(map.get("dshmarket").is_none());
    assert_eq!(clear_in(&mut map, "dshmarket"), Ok(false));
    assert_eq!(
        clear_in(&mut map, "bad id").unwrap_err(),
        "PLUGIN_ERROR_INVALID_ID: invalid plugin id"
    );
}

#[test]
fn refused_record_changes_nothing() {
    let mut map = PluginErrorMap::new();
    assert_eq!(
        record_in(&mut map, "dshmarket", "explode", "x", String::new()).unwrap_err(),
        "PLUGIN_ERROR_INVALID_ACTION: unsupported action"
    );
    assert_eq!(map.len(), 0);
}

fn error(message: &str, action: &str) -> PluginError {
    PluginError {
        message: message.to_string(),
        action: action.to_string(),
        at: "1".to_string(),
    }
}

#[test]
fn loaded_registry_is_filtered_and_bounded() {
    let mut entries = vec![
        ("good".to_string(), error("m", "install")),
        ("Bad Id".to_string(), error("m", "install")),
        ("other".to_string(), error("m", "dance")),
        ("good".to_string(), error("second", "remove")),
    ];
    for index in 0..200 {
        entries.push((format!("p{index}"), error("m", "runtime")));
    }
    let map = registry_from_entries(entries);
    assert_eq!(map.len(), MAX_PLUGIN_ERROR_ENTRIES);
    assert_eq!(map.get("good").unwrap().message, "m");
    assert!(map.get("Bad Id").is_none());
    assert!(map.get("other").is_none());
    assert!(map.get("p126").is_some());
    assert!(map.get("p127").is_none());
    assert_eq!(map.entries().len(), MAX_PLUGIN_ERROR_ENTRIES);
}

#[test]
fn registry_size_limits() {
    assert!(registry_file_fits(2 * 1024 * 1024));
    assert!(!registry_file_fits(2 * 1024 * 1024 + 1));
    assert!(check_rendered_size(2 * 1024 * 1024 - 1).is_ok());
    assert_eq!(
        check_rendered_size(2 * 1024 * 1024).unwrap_err(),
        "PLUGIN_ERRORS_LIMIT: registry exceeds the size limit"
    );
}

#[test]
fn timestamps_render_in_decimal() {
    assert_eq!(format_timestamp(Some(1700000000)), "1700000000");
    assert_eq!(format_timestamp(None), "");
    let now = current_timestamp();
    assert!(now.parse::<u64>().unwrap() > 1_600_000_000);
}

#[test]
fn runtime_report_admission_order() {
    let mut limiter = RuntimeRateLimiter::new();
    assert_eq!(
        admit_runtime_report(&mut limiter, "bad id", "x", true).unwrap_err(),
        "PLUGIN_ERROR_INVALID_ID: invalid plugin id"
    );
    assert_eq!(
        admit_runtime_report(&mut limiter, "dshmarket", "x", false).unwrap_err(),
        "PLUGIN_ERROR_UNKNOWN_ID: plugin is not installed"
    );
    for _ in 0..8 {
        admit_runtime_report(&mut limiter, "dshmarket", "x", true).unwrap();
    }
    assert_eq!(
        admit_runtime_report(&mut limiter, "dshmarket", "x", true).unwrap_err(),
        "PLUGIN_ERROR_RATE_LIMITED: too many runtime reports"
    );
}
