use codex_accounts::error::AppError;
use codex_accounts::model::AccountView;
use codex_accounts::request_log::{record, visible_logs, QuotaRequestLog, QuotaRequestReason};
use codex_accounts::widget::{
    check_widget_account, hex_prefix, restore, right_half, saved_screen, slot, slot_in_range, snap, widget_error, widget_label, widget_page,
    Screen,
};

fn view(id: &str, email: Option<&str>) -> AccountView {
    AccountView {
        id: id.into(),
        email: email.map(String::from),
        account_id: format!("acct-{id}"),
        plan_type: None,
        quota: None,
        created_at: 0,
        last_used_at: None,
    }
}

#[test]
fn request_log_keeps_one_day_newest_first() {
    let day = 86_400_000;
    let mut logs: Vec<QuotaRequestLog> = Vec::new();
    logs = record(&logs, 1_000, &view("a", Some("a@x")), QuotaRequestReason::default(), None);
    logs = record(&logs, 2_000, &view("b", None), QuotaRequestReason::ManualAll, Some(&AppError::new("QUOTA_HTTP", "m")));
    assert_eq!(logs.len(), 2);
    assert_eq!(logs[0].account_label, "a@x");
    assert!(logs[0].success && matches!(logs[0].reason, QuotaRequestReason::Manual));
    assert_eq!(logs[1].account_label, "acct-b");
    assert_eq!(logs[1].error_code.as_deref(), Some("QUOTA_HTTP"));
    assert!(!logs[1].success);
    let shown = visible_logs(&logs, 2_500);
    assert_eq!(shown[0].timestamp, 2_000);
    assert_eq!(shown[1].timestamp, 1_000);
    let later = record(&logs, 1_000 + day + 1, &view("c", None), QuotaRequestReason::Automatic, None);
    assert_eq!(later.len(), 2);
    assert_eq!(later[0].timestamp, 2_000);
    assert!(visible_logs(&logs, 2_000 + day + 1).is_empty());
}

#[test]
fn equal_times_keep_their_order() {
    let mut logs = Vec::new();
    logs = record(&logs, 5, &view("first", None), QuotaRequestReason::Import, None);
    logs = record(&logs, 5, &view("second", None), QuotaRequestReason::Import, None);
    logs = record(&logs, 9, &view("third", None), QuotaRequestReason::Import, None);
    let shown = visible_logs(&logs, 10);
    let ids: Vec<&str> = shown.iter().map(|l| l.account_id.as_str()).collect();
    assert_eq!(ids, ["third", "first", "second"]);
}

#[test]
fn widget_names_and_pages() {
    assert_eq!(hex_prefix(&[0x00, 0xab, 0x10, 1, 2, 3, 4, 5, 6, 7]), "00ab100102030405");
    assert_eq!(hex_prefix(&[0xff]), "ff");
    // SHA-256 of "abc" begins ba7816bf8f01cfea.
    assert_eq!(widget_label("abc"), "account-widget-ba7816bf8f01cfea");
    assert_eq!(widget_page("a b&c"), "index.html?widget=1&account=a+b%26c");
    assert_eq!(check_widget_account("  \t").err().unwrap().code, "WIDGET_ACCOUNT");
    assert!(check_widget_account(" x ").is_ok());
    let e = widget_error("WIDGET_CLOSE", "无法关闭悬浮窗", "gone");
    assert_eq!(e.message, "无法关闭悬浮窗: gone");
}

#[test]
fn widget_snapping_and_slots() {
    // A 180x36 widget on a 1000x800 screen at the origin, gap 8.
    assert_eq!(snap(700, 5, 180, 36, 0, 0, 1000, 800, 8, None), (812, 8));
    assert_eq!(snap(700, 900, 180, 36, 0, 0, 1000, 800, 8, Some("left")), (8, 756));
    assert_eq!(snap(10, 300, 180, 36, 0, 0, 1000, 800, 8, Some("right")), (812, 300));
    assert_eq!(slot(0, 0, 0, 1000, 800, 180, 36, 8), (812, 8));
    assert_eq!(slot(1, 0, 0, 1000, 800, 180, 36, 8), (812, 52));
    // (800 - 16) / 44 = 17 rows: the 18th widget starts a second column.
    assert_eq!(slot(17, 0, 0, 1000, 800, 180, 36, 8), (624, 8));
    assert_eq!(slot(3, 0, 0, 1000, 10, 180, 36, 8), (812 - 3 * 188, 8));
    // Far off screen, still within 32-bit coordinates.
    assert!(slot_in_range(5_000_000, 0, 0, 1000, 800, 180, 36, 8));
    assert_eq!(slot(5_000_000, 0, 0, 1000, 800, 180, 36, 8), (812 - 294_117 * 188, 8 + 11 * 44));
    // 11,500,000 columns of 188 px leave the 32-bit range.
    assert!(!slot_in_range(17 * 11_500_000, 0, 0, 1000, 800, 180, 36, 8));
    assert!(!slot_in_range(u64::MAX, 0, 0, 1000, 800, 180, 36, 8));
    assert!(slot_in_range(0, 0, 0, 1000, 800, 180, 36, 8));
}

#[test]
fn saved_widget_places_are_restored() {
    // Saved 900 px right of the corner of a 1000x800 screen: kept within it.
    assert_eq!(restore(900, 300, false, 180, 36, 0, 0, 1000, 800, 8), (812, 300));
    assert_eq!(restore(-50, -50, false, 180, 36, 100, 100, 1000, 800, 8), (108, 108));
    assert_eq!(restore(40, 50, false, 180, 36, 100, 100, 1000, 800, 8), (140, 150));
    // Saved on the right half: against the right edge whatever the offset.
    assert_eq!(restore(40, 50, true, 180, 36, 100, 100, 1000, 800, 8), (912, 150));
    assert!(right_half(600, 180, 0, 1000));
    assert!(!right_half(400, 180, 0, 1000));
}

fn screen(name: Option<&str>, x: i32) -> Screen {
    Screen { name: name.map(String::from), x, y: 0, width: 1920, height: 1080 }
}

#[test]
fn saved_monitor_found_by_name_then_by_rectangle() {
    let ms = vec![screen(Some("A"), 0), screen(Some("B"), 1920), screen(None, 3840)];
    assert_eq!(saved_screen(&ms, &screen(Some("B"), 0)), Some(1));
    // An unknown name falls back to the rectangle.
    assert_eq!(saved_screen(&ms, &screen(Some("C"), 3840)), Some(2));
    assert_eq!(saved_screen(&ms, &screen(None, 1920)), Some(1));
    assert_eq!(saved_screen(&ms, &screen(None, 5)), None);
}
