//! The account and its QR login.
use course2md_desktop::account::{
    source_waits_for_login, AccountProfile, AccountStatus, AccountUi, BadgeKind, QrDialogState,
    QrPoll,
};
use course2md_desktop::workspace::Page;

#[test]
fn closing_and_refreshing_reject_late_qr_results() {
    let mut account = AccountUi {
        dialog: Some(QrDialogState::Generating),
        ..Default::default()
    };
    let first = account.generation;
    assert!(account.current(first));
    account.invalidate();
    assert!(!account.current(first));
    account.dialog = Some(QrDialogState::Generating);
    assert!(!account.current(first));
    assert!(account.current(account.generation));
}

#[test]
fn temporary_validation_failure_keeps_login_and_allows_repair() {
    let connected = AccountStatus::Connected(AccountProfile {
        name: "Fixture account".into(),
    });
    let mut account = AccountUi {
        status_generation: 7,
        status: Some(connected.clone()),
        has_saved_login: true,
        checking: true,
        ..Default::default()
    };
    assert!(account.apply_status(7, true, Err("Network unavailable".into())));
    assert_eq!(account.status, Some(connected.clone()));
    assert!(account.has_saved_login);
    assert!(!account.checking);
    assert_eq!(account.login_action(), Some("重新登录 Bilibili"));

    assert!(account.apply_status(7, true, Ok(connected)));
    assert!(account.status_error.is_none());
    assert_eq!(account.login_action(), None);

    assert!(account.apply_status(7, true, Ok(AccountStatus::Expired)));
    assert_eq!(account.login_action(), Some("重新登录 Bilibili"));
    assert!(account.apply_status(7, true, Ok(AccountStatus::Disconnected)));
    assert!(!account.has_saved_login);
    assert_eq!(account.login_action(), Some("登录 Bilibili"));
}

#[test]
fn late_account_check_cannot_replace_a_newly_authenticated_account() {
    let connected = AccountStatus::Connected(AccountProfile {
        name: "New account".into(),
    });
    let mut account = AccountUi {
        status_generation: 4,
        status: Some(connected.clone()),
        has_saved_login: true,
        ..Default::default()
    };
    assert!(!account.apply_status(3, false, Ok(AccountStatus::Disconnected)));
    assert_eq!(account.status, Some(connected));
    assert!(account.has_saved_login);
    assert!(account.status_error.is_none());
}

#[test]
fn source_continuation_requires_the_same_input_and_origin_after_login() {
    let input = "https://www.bilibili.com/video/BVfixture";
    let mut account = AccountUi {
        retry_source: Some((5, input.into())),
        dialog: Some(QrDialogState::Waiting(120)),
        ..Default::default()
    };
    assert!(account.can_resume_source(5, input, true));
    assert!(!account.can_resume_source(6, input, true));
    assert!(!account.can_resume_source(5, "https://b23.tv/changed", true));
    // Settings and an active guide are not the originating source view.
    assert!(!account.can_resume_source(5, input, false));
    account.invalidate();
    account.dialog = Some(QrDialogState::Waiting(180));
    assert!(account.can_resume_source(5, input, true));
    account.close();
    assert!(!account.can_resume_source(5, input, true));
}

#[test]
fn a_login_goes_through_its_states() {
    let mut account = AccountUi::default();
    assert!(account.open_account_dialog(true, 3, "link"));
    assert!(!account.open_account_dialog(true, 4, "other"));
    let generation = account.generation;
    assert!(account.qr_ready(generation, vec![vec![true]], 180));
    assert!(account.apply_poll(generation, QrPoll::Waiting, 178));
    assert!(account.apply_poll(generation, QrPoll::AwaitingConfirmation, 170));
    assert_eq!(account.dialog, Some(QrDialogState::Confirming(170)));
    let before = account.status_generation;
    assert!(!account.apply_poll(
        generation,
        QrPoll::Saved(AccountProfile { name: "名".into() }),
        160
    ));
    assert_ne!(account.status_generation, before);
    assert!(account.modules.is_none());
    assert_eq!(account.login_action(), None);
    assert_eq!(account.account_status_text(), "Bilibili：已登录 · 名");
    assert_eq!(account.badge(), (BadgeKind::Success, "已登录"));
    assert_eq!(account.account_detail().as_deref(), Some("名"));
    assert_eq!(account.close_label(true), "继续转换");
    assert!(!account.apply_poll(generation + 1, QrPoll::Expired, 0));
    assert!(account.can_resume_source(3, "link", true));
}

#[test]
fn failed_logins_are_told_and_can_be_tried_again() {
    let mut account = AccountUi::default();
    let generation = account.start_account_qr();
    assert!(account.qr_unavailable(generation));
    let state = account.dialog.clone().unwrap();
    assert!(state.can_retry());
    assert_eq!(state.message(), "登录未完成");
    assert_eq!(state.hint(), "获取二维码失败，请检查网络后重试。");
    let generation = account.start_account_qr();
    assert!(!account.apply_poll(generation, QrPoll::NotSaved, 9));
    assert_eq!(
        account.dialog.clone().unwrap().hint(),
        "账号已确认，但保存登录状态失败。请检查本地权限后重新扫码。"
    );
    let generation = account.start_account_qr();
    assert!(!account.apply_poll(generation, QrPoll::Failed, 9));
    assert_eq!(account.dialog.clone().unwrap().phase(), 4);
    let generation = account.start_account_qr();
    assert!(!account.apply_poll(generation, QrPoll::Expired, 9));
    assert_eq!(account.dialog.clone().unwrap().message(), "二维码已过期");
    assert_eq!(QrDialogState::Waiting(42).hint(), "二维码约 42 秒后过期");
    assert_eq!(QrDialogState::Confirming(7).hint(), "请在约 7 秒内确认");
    assert_eq!(
        QrDialogState::Success(AccountProfile { name: " ".into() }).hint(),
        "登录状态已保存。"
    );
}

#[test]
fn signing_out_keeps_the_login_where_it_cannot_be_removed() {
    let mut account = AccountUi {
        has_saved_login: true,
        ..Default::default()
    };
    account.clear_account(false);
    assert!(account.has_saved_login);
    assert_eq!(
        account.account_status_text(),
        "Bilibili：退出登录尚未完成，原登录状态已保留"
    );
    account.clear_account(true);
    assert!(!account.has_saved_login);
    assert_eq!(account.account_status_text(), "Bilibili：未登录");
    assert_eq!(account.account_detail(), None);
}

#[test]
fn a_check_is_not_begun_twice() {
    let mut account = AccountUi::default();
    assert_eq!(account.refresh_account(), Some(1));
    assert_eq!(account.refresh_account(), None);
    assert_eq!(account.badge(), (BadgeKind::Progress, "验证中"));
    assert!(account.apply_status(1, false, Err("x".into())));
    assert_eq!(
        account.account_status_text(),
        "Bilibili：暂时无法检查登录状态"
    );
}

#[test]
fn only_a_link_on_the_workbench_waits_for_a_login() {
    assert!(source_waits_for_login(false, Page::New, true, true, false));
    assert!(source_waits_for_login(false, Page::New, true, false, true));
    assert!(!source_waits_for_login(true, Page::New, true, true, true));
    assert!(!source_waits_for_login(false, Page::Settings, true, true, true));
    assert!(!source_waits_for_login(false, Page::New, false, true, true));
    assert!(!source_waits_for_login(false, Page::New, true, false, false));
}
