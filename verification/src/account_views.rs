//! What is shown of the account: a summary, and the dialog in which a person logs in.
use crate::account::{AccountUi, BadgeKind, QrDialogState};
use crate::workspace::text_of;
use vstd::prelude::*;
use vstd::string::*;

verus! {

/// A summary of the account.
pub struct AccountSummary {
    pub heading: &'static str,
    pub badge: (BadgeKind, &'static str),
    pub detail: Option<String>,
    pub checking: bool,
    pub policy: &'static str,
    pub login: Option<&'static str>,
    pub can_log_out: bool,
}

/// What a login is good for.
pub open spec fn policy_text(saved: bool, onboarding: bool) -> Seq<char> {
    if saved {
        "读取字幕和视频时使用此账号的权限。退出登录不会删除课程和笔记。"@
    } else if onboarding {
        "登录后可读取账号有权访问的视频与字幕，也可以跳过，之后在设置中登录。"@
    } else {
        "公开内容可以先尝试读取；遇到账号权限限制时，登录后继续。"@
    }
}

/// The account beside a source.
pub struct SourceAccountRow {
    pub status: String,
    pub checking: bool,
    pub login: Option<&'static str>,
}

impl AccountUi {
    /// A summary of the account, in the guide or in the settings.
    pub fn account_summary(&self, onboarding: bool) -> (result: AccountSummary)
        ensures
            result.heading@ == (if onboarding {
                "账号状态"@
            } else {
                "Bilibili 账号"@
            }),
            (result.badge.0, result.badge.1@) == self.badge_of(),
            text_of(result.detail) == (if !self.checking && self.detail_line() != self.badge_of().1 {
                Some(self.detail_line())
            } else {
                None
            }),
            result.checking == self.checking,
            result.policy@ == policy_text(self.has_saved_login, onboarding),
            match result.login {
                Some(label) => self.offered_login() == Some(label@),
                None => self.offered_login() is None,
            },
            result.can_log_out == self.has_saved_login,
    {
        AccountSummary {
            heading: if onboarding {
                "账号状态"
            } else {
                "Bilibili 账号"
            },
            badge: self.badge(),
            detail: self.account_detail(),
            checking: self.checking,
            policy: if self.has_saved_login {
                "读取字幕和视频时使用此账号的权限。退出登录不会删除课程和笔记。"
            } else if onboarding {
                "登录后可读取账号有权访问的视频与字幕，也可以跳过，之后在设置中登录。"
            } else {
                "公开内容可以先尝试读取；遇到账号权限限制时，登录后继续。"
            },
            login: self.login_action(),
            can_log_out: self.has_saved_login,
        }
    }

    /// The account beside a source that it may help to read.
    pub fn source_account_row(&self) -> (result: SourceAccountRow)
        ensures
            result.status@ == self.status_line(),
            result.checking == self.checking,
            match result.login {
                Some(label) => self.offered_login() == Some(label@),
                None => self.offered_login() is None,
            },
    {
        SourceAccountRow {
            status: self.account_status_text(),
            checking: self.checking,
            login: self.login_action(),
        }
    }
}

// -------------------------------------------------------------------------- dialog

/// What stands where the code is.
#[derive(Clone, Copy, Debug, PartialEq, Eq, Structural)]
pub enum QrVisual {
    Code,
    Success,
    Warning,
    Spinner,
}

/// The dialog in which a person logs in.
pub struct AccountDialogView {
    pub visual: QrVisual,
    pub message: &'static str,
    pub hint: Option<String>,
    /// The phone has to confirm.
    pub waits_for_phone: bool,
    pub phase: u8,
    pub close_label: &'static str,
    /// Closing is what is suggested.
    pub close_first: bool,
    pub offers_new_code: bool,
}

impl AccountUi {
    /// The state of the dialog; a dialog that has none is getting its code.
    pub open spec fn dialog_state(self) -> QrDialogState {
        match self.dialog {
            Some(state) => state,
            None => QrDialogState::Generating,
        }
    }

    /// The dialog: the code while there is one, else how it ended.
    pub fn account_dialog_content(&self, resumable: bool) -> (result: AccountDialogView)
        ensures
            ({
                let state = self.dialog_state();
                let retry = state is Expired || state is Error;
                let success = state is Success;
                &&& result.visual == (if self.modules is Some {
                    QrVisual::Code
                } else if success {
                    QrVisual::Success
                } else if retry {
                    QrVisual::Warning
                } else {
                    QrVisual::Spinner
                })
                &&& result.message@ == state.step()
                &&& text_of(result.hint) == (if state.hint_text().len() > 0 {
                    Some(state.hint_text())
                } else {
                    None
                })
                &&& result.waits_for_phone == state is Confirming
                &&& result.phase == state.phase_number()
                &&& result.close_label@ == (if success {
                    if resumable {
                        "继续转换"@
                    } else {
                        "完成"@
                    }
                } else {
                    "取消"@
                })
                &&& result.close_first == success
                &&& result.offers_new_code == retry
            }),
    {
        let getting = QrDialogState::Generating;
        let state = match &self.dialog {
            Some(state) => state,
            None => &getting,
        };
        let retry = state.can_retry();
        let success = matches!(state, QrDialogState::Success(_));
        let hint = state.hint();
        AccountDialogView {
            visual: if self.modules.is_some() {
                QrVisual::Code
            } else if success {
                QrVisual::Success
            } else if retry {
                QrVisual::Warning
            } else {
                QrVisual::Spinner
            },
            message: state.message(),
            hint: if hint.as_str().is_empty() {
                None
            } else {
                Some(hint)
            },
            waits_for_phone: matches!(state, QrDialogState::Confirming(_)),
            phase: state.phase(),
            close_label: self.close_label(resumable),
            close_first: success,
            offers_new_code: retry,
        }
    }

    /// Closes the dialog. Says whether the source that waited for the login is read
    /// again: the login has succeeded, and the source is still there.
    pub fn close_account_dialog(&mut self, resumable: bool) -> (result: bool)
        ensures
            result == (old(self).dialog is Some && old(self).dialog->0 is Success && resumable),
            *final(self) == (AccountUi { retry_source: None, ..old(self).invalidated() }),
    {
        let retry = matches!(self.dialog, Some(QrDialogState::Success(_))) && resumable;
        self.close();
        retry
    }
}

/// The summary of an account says what its parts say: logging out is offered exactly where a
/// login is kept, logging in exactly where it is offered at all.
pub proof fn a_summary_says_what_is_known(
    ui: AccountUi,
    onboarding: bool,
    summary: AccountSummary,
    row: SourceAccountRow,
    offered: Option<&'static str>,
    badge: (BadgeKind, &'static str),
)
    requires
        call_ensures(AccountUi::account_summary, (&ui, onboarding), summary),
        call_ensures(AccountUi::source_account_row, (&ui,), row),
        call_ensures(AccountUi::login_action, (&ui,), offered),
        call_ensures(AccountUi::badge, (&ui,), badge),
    ensures
        summary.can_log_out <==> ui.has_saved_login,
        summary.login is Some <==> offered is Some,
        row.login is Some <==> offered is Some,
        summary.login is Some ==> summary.login->0@ == offered->0@ && row.login->0@ == offered->0@,
        summary.badge.0 == badge.0 && summary.badge.1@ == badge.1@,
        summary.checking == ui.checking && row.checking == ui.checking,
        ui.checking ==> summary.detail is None,
{
}

/// The dialog shows the code while there is one; a new one is offered exactly where the code
/// came to an end without a login; and a login that succeeded lets what waited go on.
pub proof fn the_dialog_shows_how_far_it_is(
    ui: AccountUi,
    resumable: bool,
    view: AccountDialogView,
    closing: &mut AccountUi,
    goes_on: bool,
)
    requires
        call_ensures(AccountUi::account_dialog_content, (&ui, resumable), view),
        *old(closing) == ui,
        call_ensures(AccountUi::close_account_dialog, (closing, resumable), goes_on),
    ensures
        ui.modules is Some <==> view.visual is Code,
        ui.dialog is Some ==> (view.offers_new_code <==> ui.dialog->0 is Expired || ui.dialog->0
            is Error),
        ui.dialog is None ==> !view.offers_new_code,
        ui.dialog is Some ==> (view.waits_for_phone <==> ui.dialog->0 is Confirming),
        goes_on <==> ui.dialog is Some && ui.dialog->0 is Success && resumable,
        goes_on ==> view.close_label@ == "继续转换"@,
        final(closing).dialog is None,
        final(closing).retry_source is None,
        final(closing).status == ui.status,
        final(closing).has_saved_login == ui.has_saved_login,
{
}

/// Policy and login are told by whether a login is kept.
pub proof fn the_policy_is_told_by_the_login(ui: AccountUi, onboarding: bool, summary: AccountSummary)
    requires
        call_ensures(AccountUi::account_summary, (&ui, onboarding), summary),
    ensures
        ui.has_saved_login ==> summary.policy@
            == "读取字幕和视频时使用此账号的权限。退出登录不会删除课程和笔记。"@,
        !ui.has_saved_login && onboarding ==> summary.policy@
            == "登录后可读取账号有权访问的视频与字幕，也可以跳过，之后在设置中登录。"@,
        !ui.has_saved_login && !onboarding ==> summary.policy@
            == "公开内容可以先尝试读取；遇到账号权限限制时，登录后继续。"@,
        onboarding ==> summary.heading@ == "账号状态"@,
        !onboarding ==> summary.heading@ == "Bilibili 账号"@,
{
}

} // verus!
