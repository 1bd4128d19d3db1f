use codex_keep_warm::account::{Account, WarmRecord};
use codex_keep_warm::labels::{
    account_status, activity_text, format_slot, identity_text, initials, last_activity,
    next_warmup_text, plan_label, plan_text, progress_class,
};
use codex_keep_warm::plan::WarmReason;
use codex_keep_warm::state::AccountView;
use codex_keep_warm::text::{
    contains_text, decimal_text, parse_integer, parse_unsigned, trim_text, two_digit_text,
};

fn account() -> Account {
    Account::new("one".into(), "One".into())
}

#[test]
fn initials_are_capitals_of_two_words() {
    assert_eq!(initials("ada lovelace byron"), "AL");
    assert_eq!(initials("  solo "), "S");
    assert_eq!(initials(""), "");
    assert_eq!(initials("ßeta 9x"), "SS9");
    assert_eq!(initials("Élan\u{a0}vital"), "ÉV");
}

#[test]
fn plans_are_shown_in_words() {
    assert_eq!(plan_label("pro"), "Pro");
    assert_eq!(plan_label("self_serve_team"), "Self Serve Team");
    assert_eq!(plan_label("_x"), " X");
    assert_eq!(plan_label(""), "");
    let mut account = account();
    assert_eq!(plan_text(&account), "Unknown plan");
    assert_eq!(identity_text(&account), "ChatGPT account");
    account.plan = Some("plus".into());
    account.email = Some("a@b.c".into());
    assert_eq!(plan_text(&account), "Plus");
    assert_eq!(identity_text(&account), "a@b.c");
}

#[test]
fn slots_are_shown_by_day_and_time() {
    assert_eq!(format_slot(Some(0)), "Thu 00:00");
    assert_eq!(format_slot(Some(1_788_181_500)), "Mon 13:05");
    assert_eq!(format_slot(Some(i64::MAX)), "Unknown");
    assert_eq!(format_slot(None), "Unknown");
    assert_eq!(next_warmup_text(&None), "No times set");
    assert_eq!(next_warmup_text(&Some("Mon 08:00".into())), "Mon 08:00");
}

#[test]
fn the_last_warmup_is_described() {
    let mut account = account();
    assert_eq!(last_activity(&account, None), "No warmup sent yet");
    account.record_manual_success(0);
    assert_eq!(
        last_activity(&account, Some(0)),
        "Last manual warmup · Jan 1, 00:00"
    );
    account.record_failure(WarmReason::WeeklyReset, 0);
    assert_eq!(
        last_activity(&account, None),
        "Last weekly reset failed · unknown time"
    );
    let record = Some(WarmRecord {
        at: 5,
        reason: WarmReason::SafeGap,
        success: true,
    });
    assert_eq!(
        activity_text(&record, Some("noon".into())),
        "Last safe gap · noon"
    );
}

#[test]
fn the_status_names_what_comes_first() {
    let mut view = AccountView::new(account());
    let next = Some("Mon 08:00".to_string());
    assert_eq!(account_status(&view, &next), "Sign in required");
    view.account.connected = true;
    assert_eq!(account_status(&view, &next), "Next scheduled Mon 08:00");
    assert_eq!(account_status(&view, &None), "Watching for reset windows");
    view.account.enabled = false;
    assert_eq!(account_status(&view, &next), "Automatic warmups paused");
    view.busy = Some("Refreshing limits".into());
    assert_eq!(account_status(&view, &next), "Refreshing limits");
}

#[test]
fn bars_warn_when_little_is_left() {
    assert_eq!(progress_class(10), "progress-fill critical");
    assert_eq!(progress_class(11), "progress-fill warning");
    assert_eq!(progress_class(30), "progress-fill warning");
    assert_eq!(progress_class(31), "progress-fill");
}

#[test]
fn numbers_are_read_back_as_written() {
    for n in [0, 7, -1, 10, -120, i64::MAX, i64::MIN] {
        assert_eq!(decimal_text(n), n.to_string());
        assert_eq!(parse_integer(&decimal_text(n)), Some(n));
    }
    assert_eq!(parse_integer("9223372036854775808"), None);
    assert_eq!(parse_integer("+5"), Some(5));
    assert_eq!(parse_integer("-"), None);
    assert_eq!(parse_unsigned("45", u64::MAX), Some(45));
    assert_eq!(parse_unsigned("46", 45), None);
    assert_eq!(parse_unsigned("", 45), None);
    assert_eq!(two_digit_text(7), "07");
    assert_eq!(trim_text("\u{3000} a b \t"), "a b");
    assert!(contains_text("xaby", "ab"));
    assert!(!contains_text("a", "ab"));
}
