use server_dash_api::services::{
    action_err, action_method, action_ok, action_outcome, check_service_request, journal_args, logs_response,
    reboot_gate, reboot_outcome, service_allowed, service_status, status_text, systemd_method, unit_name,
};
use server_dash_api::stats::{disk_stats, memory_stats, no_disk_stats, uptime_stats};

const ALLOWED: &[&str] = &["nginx", "cloudflare-dyndns.timer"];

#[test]
fn unit_names() {
    assert_eq!(unit_name("nginx"), "nginx.service");
    assert_eq!(unit_name("cloudflare-dyndns.timer"), "cloudflare-dyndns.timer");
    assert_eq!(unit_name(""), ".service");
}

#[test]
fn systemd_methods() {
    assert_eq!(systemd_method("restart"), Some("RestartUnit"));
    assert_eq!(systemd_method("start"), Some("StartUnit"));
    assert_eq!(systemd_method("stop"), Some("StopUnit"));
    assert_eq!(systemd_method("reload"), None);
    assert_eq!(systemd_method("Stop"), None);
}

#[test]
fn allow_list() {
    assert!(service_allowed(ALLOWED, "nginx"));
    assert!(service_allowed(ALLOWED, "cloudflare-dyndns.timer"));
    assert!(!service_allowed(ALLOWED, "nginx.service"));
    assert!(!service_allowed(&[], "nginx"));
}

#[test]
fn request_gate() {
    let (code, body) = check_service_request(false, ALLOWED, "nginx").unwrap();
    assert_eq!((code, body.success, body.message.as_str()), (401, false, "Unauthorized"));
    let (code, body) = check_service_request(false, ALLOWED, "sshd").unwrap();
    assert_eq!((code, body.message.as_str()), (401, "Unauthorized"));
    let (code, body) = check_service_request(true, ALLOWED, "sshd").unwrap();
    assert_eq!((code, body.success, body.message.as_str()), (400, false, "Service not allowed"));
    assert!(check_service_request(true, ALLOWED, "nginx").is_none());
}

#[test]
fn action_answers() {
    let (code, body) = action_outcome("nginx", "restart", Ok(()));
    assert_eq!((code, body.success, body.message.as_str()), (200, true, "nginx restarted successfully"));
    assert_eq!((body.stdout.as_str(), body.stderr.as_str()), ("", ""));
    let (code, body) = action_outcome("nginx", "stop", Err("boom".to_string()));
    assert_eq!((code, body.success, body.message.as_str()), (500, false, "boom"));
    let (code, body) = action_ok("Rebooting...".to_string());
    assert_eq!((code, body.success, body.message.as_str()), (200, true, "Rebooting..."));
    let (code, body) = action_err(400, "Invalid action");
    assert_eq!((code, body.success, body.message.as_str()), (400, false, "Invalid action"));
}

#[test]
fn journal_command() {
    assert_eq!(journal_args("nginx"), vec!["-u", "nginx", "-n", "100", "--no-pager"]);
}

#[test]
fn logs_are_decoded_lossily() {
    let (code, body) = logs_response(b"line one\nline two\n", b"warn\xff");
    assert_eq!(code, 200);
    assert!(body.success);
    assert_eq!(body.message, "");
    assert_eq!(body.stdout, "line one\nline two\n");
    assert_eq!(body.stderr, "warn\u{fffd}");
}

#[test]
fn service_status_text() {
    assert_eq!(service_status(Some(b"active\n")), "active");
    assert_eq!(service_status(Some(b"  inactive \n")), "inactive");
    assert_eq!(service_status(Some(b"")), "");
    assert_eq!(service_status(None), "unknown");
}

#[test]
fn uptime_breakdown() {
    let u = uptime_stats(90061);
    assert_eq!((u.seconds, u.days, u.hours, u.minutes), (90061, 1, 1, 1));
    let u = uptime_stats(86399);
    assert_eq!((u.days, u.hours, u.minutes), (0, 23, 59));
    let u = uptime_stats(0);
    assert_eq!((u.days, u.hours, u.minutes), (0, 0, 0));
}

#[test]
fn memory_figures() {
    let m = memory_stats(16_000_000_000, 4_500_000_000, 11_499_999_999, 28);
    assert_eq!((m.total, m.used, m.available, m.percent), (16000, 4500, 11499, 28));
}

#[test]
fn disk_figures() {
    let d = disk_stats(500 * 1048576, 120 * 1048576 + 5, 76);
    assert_eq!((d.total, d.used, d.available, d.percent), (500, 379, 120, 76));
    let d = no_disk_stats();
    assert_eq!((d.total, d.used, d.available, d.percent), (0, 0, 0, 0));
}

#[test]
fn invalid_action_answer() {
    assert_eq!(action_method("stop").ok(), Some("StopUnit"));
    let (code, body) = action_method("reload").err().unwrap();
    assert_eq!((code, body.success, body.message.as_str()), (400, false, "Invalid action"));
}

#[test]
fn disk_figures_when_free_exceeds_size() {
    let d = disk_stats(1048576, 2 * 1048576, 0);
    assert_eq!(d.used, 1048576u64.wrapping_sub(2 * 1048576) / 1048576);
}

#[test]
fn status_text_is_trimmed() {
    assert_eq!(status_text("  active\n"), "active");
    assert_eq!(status_text("\t\n"), "");
    assert_eq!(status_text("in active"), "in active");
}

#[test]
fn reboot_refused_without_session() {
    let (status, body) = reboot_gate(false).unwrap();
    assert_eq!(status, 401);
    assert!(!body.success);
    assert_eq!(body.message, "Unauthorized");
    assert!(reboot_gate(true).is_none());
}

#[test]
fn reboot_outcomes() {
    let (status, body) = reboot_outcome(Ok(()));
    assert_eq!(status, 200);
    assert!(body.success);
    assert_eq!(body.message, "Rebooting...");
    let (status, body) = reboot_outcome(Err("Access denied".to_string()));
    assert_eq!(status, 500);
    assert!(!body.success);
    assert_eq!(body.message, "Access denied");
}
