//! The Bilibili account: its state, and a QR login that can be cancelled.
use crate::text::{
    blank, decimal, is_blank, join2, join3, number, same, strip_front, without_front,
};
use crate::workbench::{following_generation, next_generation};
use crate::workspace::{is_text, text_of, Page};
use vstd::prelude::*;

verus! {

#[derive(Clone, Debug, PartialEq, Eq)]
pub struct AccountProfile {
    pub name: String,
}

/// What the service says of the saved login.
#[derive(Clone, Debug, PartialEq, Eq)]
pub enum AccountStatus {
    Connected(AccountProfile),
    Expired,
    Disconnected,
}

impl AccountProfile {
    /// The same profile again.
    pub fn copy(&self) -> (result: AccountProfile)
        ensures
            result == *self,
    {
        AccountProfile { name: self.name.clone() }
    }
}

/// What the login dialog shows. The numbers are the seconds that remain.
#[derive(Clone, Debug, PartialEq, Eq)]
pub enum QrDialogState {
    Generating,
    Waiting(u64),
    Confirming(u64),
    Expired,
    Error(String),
    Success(AccountProfile),
}

/// What a question to the login service came to. A login that was confirmed has
/// also been saved, or not.
pub enum QrPoll {
    Waiting,
    AwaitingConfirmation,
    Expired,
    Saved(AccountProfile),
    NotSaved,
    Failed,
}

/// The account as the application knows it. `generation` counts the QR dialogs,
/// `status_generation` the checks of the saved login.
pub struct AccountUi {
    pub generation: u64,
    pub status_generation: u64,
    pub dialog: Option<QrDialogState>,
    pub modules: Option<Vec<Vec<bool>>>,
    pub status: Option<AccountStatus>,
    pub checking: bool,
    pub has_saved_login: bool,
    pub status_error: Option<String>,
    pub retry_source: Option<(u64, String)>,
}

impl Default for AccountUi {
    fn default() -> (result: AccountUi)
        ensures
            result == (AccountUi {
                generation: 0,
                status_generation: 0,
                dialog: None,
                modules: None,
                status: None,
                checking: false,
                has_saved_login: false,
                status_error: None,
                retry_source: None,
            }),
    {
        AccountUi {
            generation: 0,
            status_generation: 0,
            dialog: None,
            modules: None,
            status: None,
            checking: false,
            has_saved_login: false,
            status_error: None,
            retry_source: None,
        }
    }
}

/// How a status is marked.
#[derive(Clone, Copy, Debug, PartialEq, Eq, Structural)]
pub enum BadgeKind {
    Neutral,
    Progress,
    Success,
    Warning,
}

impl AccountUi {
    /// A dialog of this generation is open.
    pub open spec fn is_current(self, generation: u64) -> bool {
        self.generation == generation && self.dialog is Some
    }

    pub fn current(&self, generation: u64) -> (result: bool)
        ensures
            result == self.is_current(generation),
    {
        self.generation == generation && self.dialog.is_some()
    }

    /// The state without a dialog; nothing that an earlier one asked for counts.
    pub open spec fn invalidated(self) -> AccountUi {
        AccountUi {
            generation: next_generation(self.generation),
            dialog: None,
            modules: None,
            ..self
        }
    }

    pub fn invalidate(&mut self)
        ensures
            *final(self) == old(self).invalidated(),
    {
        self.generation = following_generation(self.generation);
        self.dialog = None;
        self.modules = None;
    }

    /// Closes the dialog; the source that waited for a login waits no longer.
    pub fn close(&mut self)
        ensures
            *final(self) == (AccountUi { retry_source: None, ..old(self).invalidated() }),
    {
        self.invalidate();
        self.retry_source = None;
    }

    /// The state after a check of the saved login that still counts. A failed check
    /// keeps what was known.
    pub open spec fn checked(self, saved: bool, outcome: Result<AccountStatus, String>) -> AccountUi {
        match outcome {
            Ok(status) => AccountUi {
                checking: false,
                has_saved_login: !(status is Disconnected),
                status: Some(status),
                status_error: None,
                ..self
            },
            Err(error) => AccountUi {
                checking: false,
                has_saved_login: saved,
                status_error: Some(error),
                ..self
            },
        }
    }

    /// Begins a check of the saved login, unless one is under way.
    pub fn refresh_account(&mut self) -> (result: Option<u64>)
        ensures
            old(self).checking ==> result is None && *final(self) == *old(self),
            !old(self).checking ==> {
                let generation = next_generation(old(self).status_generation);
                &&& result == Some(generation)
                &&& *final(self) == (AccountUi {
                    status_generation: generation,
                    checking: true,
                    status_error: None,
                    ..*old(self)
                })
            },
    {
        if self.checking {
            return None;
        }
        self.status_generation = following_generation(self.status_generation);
        self.checking = true;
        self.status_error = None;
        Some(self.status_generation)
    }

    /// Takes the outcome of a check. Says whether it counted.
    pub fn apply_status(
        &mut self,
        generation: u64,
        has_saved_login: bool,
        outcome: Result<AccountStatus, String>,
    ) -> (result: bool)
        ensures
            result == (old(self).status_generation == generation),
            *final(self) == (if result {
                old(self).checked(has_saved_login, outcome)
            } else {
                *old(self)
            }),
    {
        if self.status_generation != generation {
            return false;
        }
        self.checking = false;
        self.has_saved_login = has_saved_login;
        match outcome {
            Ok(status) => {
                self.has_saved_login = !matches!(status, AccountStatus::Disconnected);
                self.status = Some(status);
                self.status_error = None;
            },
            Err(error) => {
                self.status_error = Some(error);
            },
        }
        true
    }

    /// The login is known to work.
    pub open spec fn is_connected(self) -> bool {
        self.status matches Some(AccountStatus::Connected(_))
    }

    /// The label of the login button; none where no login is needed.
    pub open spec fn offered_login(self) -> Option<Seq<char>> {
        if self.is_connected() && self.has_saved_login && self.status_error is None {
            None
        } else if self.has_saved_login || self.status == Some(AccountStatus::Expired) {
            Some("重新登录 Bilibili"@)
        } else {
            Some("登录 Bilibili"@)
        }
    }

    pub fn login_action(&self) -> (result: Option<&'static str>)
        ensures
            result is Some == self.offered_login() is Some,
            result matches Some(label) ==> Some(label@) == self.offered_login(),
    {
        if matches!(self.status, Some(AccountStatus::Connected(_))) && self.has_saved_login
            && self.status_error.is_none() {
            None
        } else if self.has_saved_login || matches!(self.status, Some(AccountStatus::Expired)) {
            Some("重新登录 Bilibili")
        } else {
            Some("登录 Bilibili")
        }
    }

    /// The source that waited for a login is still the one on the workbench.
    pub open spec fn resumes(self, generation: u64, input: Seq<char>, in_source: bool) -> bool {
        in_source && (self.retry_source matches Some((saved, own)) && saved == generation && own@
            == input)
    }

    pub fn can_resume_source(&self, generation: u64, input: &str, in_source: bool) -> (result: bool)
        ensures
            result == self.resumes(generation, input@, in_source),
    {
        in_source && match &self.retry_source {
            Some((saved, own)) => *saved == generation && same(own.as_str(), input),
            None => false,
        }
    }

    /// Signs out. Where the login could not be removed it stays, and so does what
    /// was known of it.
    pub fn clear_account(&mut self, removed: bool)
        ensures
            ({
                let idle = AccountUi {
                    status_generation: next_generation(old(self).status_generation),
                    checking: false,
                    ..old(self).invalidated()
                };
                if removed {
                    *final(self) == (AccountUi {
                        has_saved_login: false,
                        status: Some(AccountStatus::Disconnected),
                        status_error: None,
                        ..idle
                    })
                } else {
                    &&& final(self).status_error matches Some(message) && message@
                        == "退出登录尚未完成，原登录状态已保留。"@
                    &&& *final(self) == (AccountUi {
                        status_error: final(self).status_error,
                        ..idle
                    })
                }
            }),
    {
        self.invalidate();
        self.status_generation = following_generation(self.status_generation);
        self.checking = false;
        if removed {
            self.has_saved_login = false;
            self.status = Some(AccountStatus::Disconnected);
            self.status_error = None;
        } else {
            self.status_error = Some("退出登录尚未完成，原登录状态已保留。".to_owned());
        }
    }

    /// Opens the dialog, unless it is open. A source that needs the login is
    /// remembered, so that it can go on afterwards.
    pub fn open_account_dialog(&mut self, waiting: bool, generation: u64, input: &str) -> (result: bool)
        ensures
            result == (old(self).dialog is None),
            !result ==> *final(self) == *old(self),
            result ==> {
                &&& final(self).retry_source is Some == waiting
                &&& final(self).retry_source matches Some((saved, own)) ==> saved == generation
                    && own@ == input@
                &&& *final(self) == (AccountUi {
                    retry_source: final(self).retry_source,
                    dialog: Some(QrDialogState::Generating),
                    ..old(self).invalidated()
                })
            },
    {
        if self.dialog.is_some() {
            return false;
        }
        self.retry_source = if waiting {
            Some((generation, input.to_owned()))
        } else {
            None
        };
        let _ = self.start_account_qr();
        true
    }

    /// Asks for a new QR code. What comes back must carry this generation.
    pub fn start_account_qr(&mut self) -> (result: u64)
        ensures
            result == next_generation(old(self).generation),
            *final(self) == (AccountUi {
                dialog: Some(QrDialogState::Generating),
                ..old(self).invalidated()
            }),
    {
        self.invalidate();
        self.dialog = Some(QrDialogState::Generating);
        self.generation
    }

    /// No QR code came back.
    pub fn qr_unavailable(&mut self, generation: u64) -> (result: bool)
        ensures
            result == old(self).is_current(generation),
            !result ==> *final(self) == *old(self),
            result ==> {
                &&& final(self).dialog matches Some(QrDialogState::Error(message)) && message@
                    == "获取二维码失败，请检查网络后重试。"@
                &&& *final(self) == (AccountUi { dialog: final(self).dialog, ..*old(self) })
            },
    {
        if !self.current(generation) {
            return false;
        }
        self.dialog = Some(QrDialogState::Error("获取二维码失败，请检查网络后重试。".to_owned()));
        true
    }

    /// A QR code came back.
    pub fn qr_ready(&mut self, generation: u64, modules: Vec<Vec<bool>>, remaining: u64) -> (result:
        bool)
        ensures
            result == old(self).is_current(generation),
            *final(self) == (if result {
                AccountUi {
                    modules: Some(modules),
                    dialog: Some(QrDialogState::Waiting(remaining)),
                    ..*old(self)
                }
            } else {
                *old(self)
            }),
    {
        if !self.current(generation) {
            return false;
        }
        self.modules = Some(modules);
        self.dialog = Some(QrDialogState::Waiting(remaining));
        true
    }

    /// The state after the login service answered, while the dialog was current.
    pub open spec fn is_polled(self, after: AccountUi, poll: QrPoll, remaining: u64) -> bool {
        match poll {
            QrPoll::Waiting => after == (AccountUi {
                dialog: Some(QrDialogState::Waiting(remaining)),
                ..self
            }),
            QrPoll::AwaitingConfirmation => after == (AccountUi {
                dialog: Some(QrDialogState::Confirming(remaining)),
                ..self
            }),
            QrPoll::Expired => after == (AccountUi {
                dialog: Some(QrDialogState::Expired),
                modules: None,
                ..self
            }),
            QrPoll::Saved(profile) => after == (AccountUi {
                status_generation: next_generation(self.status_generation),
                checking: false,
                has_saved_login: true,
                status: Some(AccountStatus::Connected(profile)),
                status_error: None,
                dialog: Some(QrDialogState::Success(profile)),
                modules: None,
                ..self
            }),
            QrPoll::NotSaved => {
                &&& after.dialog matches Some(QrDialogState::Error(message)) && message@
                    == "账号已确认，但保存登录状态失败。请检查本地权限后重新扫码。"@
                &&& after == (AccountUi { dialog: after.dialog, modules: None, ..self })
            },
            QrPoll::Failed => {
                &&& after.dialog matches Some(QrDialogState::Error(message)) && message@
                    == "登录请求失败，请检查网络后重新获取二维码。"@
                &&& after == (AccountUi { dialog: after.dialog, modules: None, ..self })
            },
        }
    }

    /// Takes an answer of the login service. Says whether to ask again.
    pub fn apply_poll(&mut self, generation: u64, poll: QrPoll, remaining: u64) -> (result: bool)
        ensures
            result == (old(self).is_current(generation) && (poll is Waiting
                || poll is AwaitingConfirmation)),
            !old(self).is_current(generation) ==> *final(self) == *old(self),
            old(self).is_current(generation) ==> old(self).is_polled(*final(self), poll, remaining),
    {
        if !self.current(generation) {
            return false;
        }
        match poll {
            QrPoll::Waiting => {
                self.dialog = Some(QrDialogState::Waiting(remaining));
                true
            },
            QrPoll::AwaitingConfirmation => {
                self.dialog = Some(QrDialogState::Confirming(remaining));
                true
            },
            QrPoll::Expired => {
                self.modules = None;
                self.dialog = Some(QrDialogState::Expired);
                false
            },
            QrPoll::Saved(profile) => {
                self.status_generation = following_generation(self.status_generation);
                self.checking = false;
                self.has_saved_login = true;
                self.status = Some(AccountStatus::Connected(profile.copy()));
                self.status_error = None;
                self.modules = None;
                self.dialog = Some(QrDialogState::Success(profile));
                false
            },
            QrPoll::NotSaved => {
                self.modules = None;
                self.dialog = Some(
                    QrDialogState::Error(
                        "账号已确认，但保存登录状态失败。请检查本地权限后重新扫码。".to_owned(),
                    ),
                );
                false
            },
            QrPoll::Failed => {
                self.modules = None;
                self.dialog = Some(
                    QrDialogState::Error(
                        "登录请求失败，请检查网络后重新获取二维码。".to_owned(),
                    ),
                );
                false
            },
        }
    }

    // --------------------------------------------------------------- messages

    /// The badge of the account.
    pub open spec fn badge_of(self) -> (BadgeKind, Seq<char>) {
        if self.checking {
            (BadgeKind::Progress, "验证中"@)
        } else if self.status_error is Some {
            (BadgeKind::Warning, "暂时无法验证"@)
        } else if self.status == Some(AccountStatus::Expired) {
            (BadgeKind::Warning, "登录已失效"@)
        } else if self.is_connected() {
            (BadgeKind::Success, "已登录"@)
        } else if self.has_saved_login {
            (BadgeKind::Neutral, "已保留登录"@)
        } else {
            (BadgeKind::Neutral, "未登录"@)
        }
    }

    pub fn badge(&self) -> (result: (BadgeKind, &'static str))
        ensures
            (result.0, result.1@) == self.badge_of(),
    {
        if self.checking {
            (BadgeKind::Progress, "验证中")
        } else if self.status_error.is_some() {
            (BadgeKind::Warning, "暂时无法验证")
        } else if matches!(self.status, Some(AccountStatus::Expired)) {
            (BadgeKind::Warning, "登录已失效")
        } else if matches!(self.status, Some(AccountStatus::Connected(_))) {
            (BadgeKind::Success, "已登录")
        } else if self.has_saved_login {
            (BadgeKind::Neutral, "已保留登录")
        } else {
            (BadgeKind::Neutral, "未登录")
        }
    }

    /// One line on the account.
    pub open spec fn status_line(self) -> Seq<char> {
        if self.checking {
            "Bilibili：正在验证登录状态…"@
        } else if self.status_error is Some {
            if self.status_error->0@ == "退出登录尚未完成，原登录状态已保留。"@ {
                "Bilibili：退出登录尚未完成，原登录状态已保留"@
            } else if self.has_saved_login {
                "Bilibili：暂时无法验证，已保留登录"@
            } else {
                "Bilibili：暂时无法检查登录状态"@
            }
        } else {
            match self.status {
                Some(AccountStatus::Connected(profile)) => if is_blank(profile.name@) {
                    "Bilibili：已登录"@
                } else {
                    "Bilibili：已登录 · "@ + profile.name@
                },
                Some(AccountStatus::Expired) => "Bilibili：登录已失效"@,
                Some(AccountStatus::Disconnected) => "Bilibili：未登录"@,
                None => if self.has_saved_login {
                    "Bilibili：已保留登录，尚未验证"@
                } else {
                    "Bilibili：未登录"@
                },
            }
        }
    }

    pub fn account_status_text(&self) -> (result: String)
        ensures
            result@ == self.status_line(),
    {
        if self.checking {
            return "Bilibili：正在验证登录状态…".to_owned();
        }
        if is_text(&self.status_error, "退出登录尚未完成，原登录状态已保留。") {
            return "Bilibili：退出登录尚未完成，原登录状态已保留".to_owned();
        }
        if self.status_error.is_some() {
            return if self.has_saved_login {
                "Bilibili：暂时无法验证，已保留登录".to_owned()
            } else {
                "Bilibili：暂时无法检查登录状态".to_owned()
            };
        }
        match &self.status {
            Some(AccountStatus::Connected(profile)) => {
                if blank(profile.name.as_str()) {
                    "Bilibili：已登录".to_owned()
                } else {
                    join2("Bilibili：已登录 · ", profile.name.as_str())
                }
            },
            Some(AccountStatus::Expired) => "Bilibili：登录已失效".to_owned(),
            Some(AccountStatus::Disconnected) => "Bilibili：未登录".to_owned(),
            None => {
                if self.has_saved_login {
                    "Bilibili：已保留登录，尚未验证".to_owned()
                } else {
                    "Bilibili：未登录".to_owned()
                }
            },
        }
    }

    /// The detail beside the badge.
    pub open spec fn detail_line(self) -> Seq<char> {
        without_front(without_front(self.status_line(), "Bilibili："@), "已登录 · "@)
    }

    /// What stands beside the badge, where it says more than the badge.
    pub fn account_detail(&self) -> (result: Option<String>)
        ensures
            result is Some == (!self.checking && self.detail_line() != self.badge_of().1),
            result matches Some(detail) ==> detail@ == self.detail_line(),
    {
        let status = self.account_status_text();
        let rest = strip_front(status.as_str(), "Bilibili：");
        let detail = strip_front(rest.as_str(), "已登录 · ");
        let (_, label) = self.badge();
        if !self.checking && !same(detail.as_str(), label) {
            Some(detail)
        } else {
            None
        }
    }

    /// The label of the button that closes the dialog.
    pub fn close_label(&self, resumable: bool) -> (result: &'static str)
        ensures
            result@ == (if self.dialog is Some && self.dialog->0 is Success {
                if resumable {
                    "继续转换"@
                } else {
                    "完成"@
                }
            } else {
                "取消"@
            }),
    {
        if matches!(self.dialog, Some(QrDialogState::Success(_))) {
            if resumable {
                "继续转换"
            } else {
                "完成"
            }
        } else {
            "取消"
        }
    }
}

impl QrDialogState {
    /// The step of the login.
    pub open spec fn step(self) -> Seq<char> {
        match self {
            QrDialogState::Generating => "正在获取二维码"@,
            QrDialogState::Waiting(_) => "请使用哔哩哔哩 App 扫码"@,
            QrDialogState::Confirming(_) => "已扫码，请在手机上确认登录"@,
            QrDialogState::Expired => "二维码已过期"@,
            QrDialogState::Error(_) => "登录未完成"@,
            QrDialogState::Success(_) => "已登录 Bilibili"@,
        }
    }

    /// The hint under the step.
    pub open spec fn hint_text(self) -> Seq<char> {
        match self {
            QrDialogState::Generating => Seq::empty(),
            QrDialogState::Waiting(seconds) => "二维码约 "@ + decimal(seconds as nat) + " 秒后过期"@,
            QrDialogState::Confirming(seconds) => "请在约 "@ + decimal(seconds as nat) + " 秒内确认"@,
            QrDialogState::Expired => "请刷新二维码后重新扫码。"@,
            QrDialogState::Error(error) => error@,
            QrDialogState::Success(profile) => if is_blank(profile.name@) {
                "登录状态已保存。"@
            } else {
                profile.name@ + "，登录状态已保存。"@
            },
        }
    }

    pub fn message(&self) -> (result: &'static str)
        ensures
            result@ == self.step(),
    {
        match self {
            QrDialogState::Generating => "正在获取二维码",
            QrDialogState::Waiting(_) => "请使用哔哩哔哩 App 扫码",
            QrDialogState::Confirming(_) => "已扫码，请在手机上确认登录",
            QrDialogState::Expired => "二维码已过期",
            QrDialogState::Error(_) => "登录未完成",
            QrDialogState::Success(_) => "已登录 Bilibili",
        }
    }

    pub fn hint(&self) -> (result: String)
        ensures
            result@ == self.hint_text(),
    {
        match self {
            QrDialogState::Generating => String::new(),
            QrDialogState::Waiting(seconds) => join3(
                "二维码约 ",
                number(*seconds).as_str(),
                " 秒后过期",
            ),
            QrDialogState::Confirming(seconds) => join3(
                "请在约 ",
                number(*seconds).as_str(),
                " 秒内确认",
            ),
            QrDialogState::Expired => "请刷新二维码后重新扫码。".to_owned(),
            QrDialogState::Error(error) => error.clone(),
            QrDialogState::Success(profile) => {
                if blank(profile.name.as_str()) {
                    "登录状态已保存。".to_owned()
                } else {
                    join2(profile.name.as_str(), "，登录状态已保存。")
                }
            },
        }
    }

    /// Whether a new code is offered.
    pub fn can_retry(&self) -> (result: bool)
        ensures
            result == (self is Expired || self is Error),
    {
        matches!(self, QrDialogState::Expired | QrDialogState::Error(_))
    }

    /// The phase, for the motion between two states.
    pub open spec fn phase_number(self) -> u8 {
        match self {
            QrDialogState::Generating => 0,
            QrDialogState::Waiting(_) => 1,
            QrDialogState::Confirming(_) => 2,
            QrDialogState::Expired => 3,
            QrDialogState::Error(_) => 4,
            QrDialogState::Success(_) => 5,
        }
    }

    pub fn phase(&self) -> (result: u8)
        ensures
            result == self.phase_number(),
    {
        match self {
            QrDialogState::Generating => 0,
            QrDialogState::Waiting(_) => 1,
            QrDialogState::Confirming(_) => 2,
            QrDialogState::Expired => 3,
            QrDialogState::Error(_) => 4,
            QrDialogState::Success(_) => 5,
        }
    }
}

/// Whether the workbench shows a source that a login could help: the guide is not
/// active, and something about a link could not be read.
pub fn source_waits_for_login(
    onboarding: bool,
    page: Page,
    online: bool,
    preview_failed: bool,
    subtitle_attention: bool,
) -> (result: bool)
    ensures
        result == (!onboarding && page is New && online && (preview_failed || subtitle_attention)),
{
    !onboarding && matches!(page, Page::New) && online && (preview_failed || subtitle_attention)
}

// ----------------------------------------------------------------------- laws

/// Once a dialog was closed or asked for a new code, no answer to an earlier
/// question counts.
pub proof fn late_answers_do_not_count(before: AccountUi, generation: u64, after: AccountUi)
    requires
        before.is_current(generation),
        after.generation == next_generation(before.generation),
    ensures
        !after.is_current(generation),
{
}

/// A login that was just confirmed cannot be replaced by a check that was begun
/// before.
pub proof fn a_new_login_outlives_earlier_checks(
    before: AccountUi,
    after: AccountUi,
    profile: AccountProfile,
    remaining: u64,
)
    requires
        before.is_polled(after, QrPoll::Saved(profile), remaining),
    ensures
        after.status_generation != before.status_generation,
        after.is_connected(),
        after.offered_login() is None,
{
}

/// A check that failed loses neither the login nor what was known of it, and a
/// login is offered for repair.
pub proof fn a_failed_check_keeps_the_login(before: AccountUi, error: String)
    requires
        before.has_saved_login,
    ensures
        before.checked(true, Err(error)).has_saved_login,
        before.checked(true, Err(error)).status == before.status,
        before.checked(true, Err(error)).offered_login() is Some,
{
}

/// Asking for a new code keeps the source that waits; closing the dialog forgets it.
pub proof fn only_closing_forgets_the_source(
    before: AccountUi,
    generation: u64,
    input: Seq<char>,
    in_source: bool,
)
    ensures
        before.invalidated().resumes(generation, input, in_source) == before.resumes(
            generation,
            input,
            in_source,
        ),
        !(AccountUi { retry_source: None, ..before.invalidated() }).resumes(
            generation,
            input,
            in_source,
        ),
{
}

// ----------------------------------------------------------------- at the dialog

/// What a scan of the code led to is told, and a login that was saved is the account from
/// then on; nothing else than a saved login connects an account. An answer to an earlier
/// code counts for nothing.
pub proof fn a_saved_login_connects(
    ui: &mut AccountUi,
    generation: u64,
    poll: QrPoll,
    remaining: u64,
    goes_on: bool,
)
    requires
        call_ensures(AccountUi::apply_poll, (ui, generation, poll, remaining), goes_on),
    ensures
        old(ui).generation != generation || old(ui).dialog is None ==> *final(ui) == *old(ui)
            && !goes_on,
        old(ui).generation == generation && old(ui).dialog is Some ==> {
            &&& goes_on <==> poll is Waiting || poll is AwaitingConfirmation
            &&& poll matches QrPoll::Saved(profile) ==> {
                &&& final(ui).status == Some(AccountStatus::Connected(profile))
                &&& final(ui).has_saved_login
                &&& final(ui).status_error is None
                &&& !final(ui).checking
                &&& final(ui).status_generation != old(ui).status_generation
                &&& final(ui).dialog == Some(QrDialogState::Success(profile))
            }
            &&& !(poll is Saved) ==> {
                &&& final(ui).status == old(ui).status
                &&& final(ui).has_saved_login == old(ui).has_saved_login
                &&& final(ui).status_error == old(ui).status_error
            }
            &&& poll is Waiting ==> final(ui).dialog == Some(QrDialogState::Waiting(remaining))
            &&& poll is AwaitingConfirmation ==> final(ui).dialog == Some(
                QrDialogState::Confirming(remaining),
            )
            &&& poll is Expired ==> final(ui).dialog == Some(QrDialogState::Expired)
            &&& poll is NotSaved || poll is Failed ==> final(ui).dialog is Some && final(
                ui).dialog->0 is Error
            &&& poll is Waiting || poll is AwaitingConfirmation ==> final(ui).modules == old(
                ui).modules
            &&& !(poll is Waiting || poll is AwaitingConfirmation) ==> final(ui).modules is None
        },
        final(ui).retry_source == old(ui).retry_source,
{
}

/// A check counts only while it is the latest. One that succeeded says what the account
/// is; one that failed leaves what was known, and what is kept on disk.
pub proof fn a_check_says_what_the_account_is(
    ui: &mut AccountUi,
    generation: u64,
    saved: bool,
    outcome: Result<AccountStatus, String>,
    counted: bool,
)
    requires
        call_ensures(AccountUi::apply_status, (ui, generation, saved, outcome), counted),
    ensures
        counted <==> old(ui).status_generation == generation,
        !counted ==> *final(ui) == *old(ui),
        counted ==> !final(ui).checking,
        counted && outcome is Ok ==> final(ui).status == Some(outcome->Ok_0) && final(
            ui).status_error is None && (final(ui).has_saved_login <==> !(outcome->Ok_0
            is Disconnected)),
        counted && outcome is Err ==> final(ui).status == old(ui).status && text_of(
            final(ui).status_error) == Some(outcome->Err_0@) && final(ui).has_saved_login == saved,
        final(ui).dialog == old(ui).dialog,
        final(ui).retry_source == old(ui).retry_source,
{
}

/// One check at a time: while one is under way no other begins, and one that begins is the
/// latest.
pub proof fn one_check_at_a_time(ui: &mut AccountUi, begun: Option<u64>)
    requires
        call_ensures(AccountUi::refresh_account, (ui,), begun),
    ensures
        begun is Some <==> !old(ui).checking,
        begun is None ==> *final(ui) == *old(ui),
        begun is Some ==> final(ui).checking && final(ui).status_generation == begun->0 && begun->0
            != old(ui).status_generation && final(ui).status == old(ui).status && final(
            ui).has_saved_login == old(ui).has_saved_login,
{
}

/// A login that was taken away leaves nobody logged in; one that could not be taken away
/// stays, and the person is told. Earlier checks and codes count no more either way.
pub proof fn a_login_is_taken_away_or_stays(ui: &mut AccountUi, removed: bool)
    requires
        call_ensures(AccountUi::clear_account, (ui, removed), ()),
    ensures
        removed ==> final(ui).status == Some(AccountStatus::Disconnected) && !final(
            ui).has_saved_login && final(ui).status_error is None,
        !removed ==> final(ui).status == old(ui).status && final(ui).has_saved_login == old(
            ui).has_saved_login && final(ui).status_error is Some,
        final(ui).dialog is None,
        !final(ui).checking,
        final(ui).status_generation != old(ui).status_generation,
        final(ui).generation != old(ui).generation,
{
}

/// Logging in is offered unless a login is known to work, and it is offered as another try
/// where a login is kept or has expired.
pub proof fn a_login_is_offered_unless_it_works(ui: AccountUi, offered: Option<&'static str>)
    requires
        call_ensures(AccountUi::login_action, (&ui,), offered),
    ensures
        offered is None <==> ui.status is Some && ui.status->0 is Connected && ui.has_saved_login
            && ui.status_error is None,
        offered is Some && ui.has_saved_login ==> offered->0@ == "重新登录 Bilibili"@,
        offered is Some && ui.status == Some(AccountStatus::Expired) ==> offered->0@
            == "重新登录 Bilibili"@,
        offered is Some && !ui.has_saved_login && ui.status != Some(AccountStatus::Expired)
            ==> offered->0@ == "登录 Bilibili"@,
{
}

/// A conversion that waited for a login goes on exactly for the input that waited, in the
/// read that waited; closing the dialog forgets it, and another code does not.
pub proof fn the_input_that_waited_goes_on(
    ui: &mut AccountUi,
    waiting: bool,
    generation: u64,
    input: &str,
    opened: bool,
    later: u64,
    other: &str,
    in_source: bool,
    resumes: bool,
)
    requires
        call_ensures(AccountUi::open_account_dialog, (ui, waiting, generation, input), opened),
        call_ensures(AccountUi::can_resume_source, (&*final(ui), later, other, in_source), resumes),
    ensures
        opened <==> old(ui).dialog is None,
        opened ==> (resumes <==> waiting && in_source && later == generation && other@ == input@),
        opened ==> final(ui).dialog == Some(QrDialogState::Generating) && final(ui).generation
            != old(ui).generation,
        !opened ==> *final(ui) == *old(ui),
{
}

/// Closing the dialog ends its code and forgets the input that waited; the account stays.
pub proof fn closing_forgets_the_input(
    ui: &mut AccountUi,
    generation: u64,
    input: &str,
    in_source: bool,
    resumes: bool,
    current: bool,
    earlier: u64,
)
    requires
        call_ensures(AccountUi::close, (ui,), ()),
        call_ensures(
            AccountUi::can_resume_source,
            (&*final(ui), generation, input, in_source),
            resumes,
        ),
        call_ensures(AccountUi::current, (&*final(ui), earlier), current),
    ensures
        !resumes,
        !current,
        final(ui).status == old(ui).status,
        final(ui).has_saved_login == old(ui).has_saved_login,
        final(ui).status_error == old(ui).status_error,
{
}

/// A new code ends the one before: what was asked of the earlier one counts no more, the
/// input that waits stays.
pub proof fn a_new_code_ends_the_one_before(
    ui: &mut AccountUi,
    code: u64,
    now: bool,
    before: bool,
)
    requires
        call_ensures(AccountUi::start_account_qr, (ui,), code),
        call_ensures(AccountUi::current, (&*final(ui), code), now),
        call_ensures(AccountUi::current, (&*final(ui), old(ui).generation), before),
    ensures
        now,
        !before,
        final(ui).modules is None,
        final(ui).dialog == Some(QrDialogState::Generating),
        final(ui).retry_source == old(ui).retry_source,
        final(ui).status == old(ui).status,
{
}

/// A code that is ready is shown where it was asked for; one that could not be had is told.
pub proof fn a_code_is_shown_where_it_was_asked_for(
    ui: &mut AccountUi,
    generation: u64,
    modules: Vec<Vec<bool>>,
    remaining: u64,
    shown: bool,
)
    requires
        call_ensures(AccountUi::qr_ready, (ui, generation, modules, remaining), shown),
    ensures
        shown <==> old(ui).generation == generation && old(ui).dialog is Some,
        shown ==> final(ui).modules == Some(modules) && final(ui).dialog == Some(
            QrDialogState::Waiting(remaining),
        ),
        !shown ==> *final(ui) == *old(ui),
        final(ui).status == old(ui).status,
{
}

/// The badge says what is known of the account: nothing is called connected while it is
/// being checked or could not be checked.
pub proof fn the_badge_says_what_is_known(ui: AccountUi, badge: (BadgeKind, &'static str))
    requires
        call_ensures(AccountUi::badge, (&ui,), badge),
    ensures
        badge.0 is Progress <==> ui.checking,
        badge.0 is Success <==> !ui.checking && ui.status_error is None && ui.status is Some
            && ui.status->0 is Connected,
        badge.0 is Warning <==> !ui.checking && (ui.status_error is Some || ui.status == Some(
            AccountStatus::Expired,
        )),
        badge.0 is Success ==> badge.1@ == "已登录"@,
        badge.0 is Neutral && ui.has_saved_login ==> badge.1@ == "已保留登录"@,
        badge.0 is Neutral && !ui.has_saved_login ==> badge.1@ == "未登录"@,
{
}

/// A dialog can be tried again exactly where it came to an end without a login.
pub proof fn what_failed_can_be_tried_again(state: QrDialogState, retry: bool, phase: u8)
    requires
        call_ensures(QrDialogState::can_retry, (&state,), retry),
        call_ensures(QrDialogState::phase, (&state,), phase),
    ensures
        retry <==> state is Expired || state is Error,
        retry <==> phase == 3 || phase == 4,
        state is Success <==> phase == 5,
        state is Generating <==> phase == 0,
        state is Waiting <==> phase == 1,
{
}

/// A video waits for a login only on the workbench, with a link, and where something about
/// it could not be read.
pub proof fn only_a_failed_link_waits(
    onboarding: bool,
    page: Page,
    online: bool,
    failed: bool,
    attention: bool,
    waits: bool,
)
    requires
        call_ensures(source_waits_for_login, (onboarding, page, online, failed, attention), waits),
    ensures
        waits ==> page is New && online && !onboarding && (failed || attention),
        page is New && online && !onboarding && failed ==> waits,
        page is New && online && !onboarding && attention ==> waits,
{
}

/// The line about an account names the person who is logged in; while it is being checked nothing
/// is said of that.
pub proof fn the_line_names_who_is_logged_in(ui: AccountUi, line: String, detail: Option<String>)
    requires
        call_ensures(AccountUi::account_status_text, (&ui,), line),
        call_ensures(AccountUi::account_detail, (&ui,), detail),
    ensures
        ui.checking ==> line@ == "Bilibili：正在验证登录状态…"@ && detail is None,
        !ui.checking && ui.status_error is None && ui.status is Some && ui.status->0 is Connected
            && !is_blank(ui.status->0->Connected_0.name@) ==> line@ == "Bilibili：已登录 · "@
            + ui.status->0->Connected_0.name@,
        !ui.checking && ui.status_error is None && ui.status == Some(AccountStatus::Expired)
            ==> line@ == "Bilibili：登录已失效"@,
        !ui.checking && ui.status_error is None && ui.status == Some(AccountStatus::Disconnected)
            ==> line@ == "Bilibili：未登录"@,
{
}

/// The hint tells how much time is left, and an error is told whole.
pub proof fn the_hint_tells_the_time_left(seconds: u64, error: String, waiting: String, failed: String)
    requires
        call_ensures(QrDialogState::hint, (&QrDialogState::Waiting(seconds),), waiting),
        call_ensures(QrDialogState::hint, (&QrDialogState::Error(error),), failed),
    ensures
        waiting@ == "二维码约 "@ + decimal(seconds as nat) + " 秒后过期"@,
        failed@ == error@,
{
}

/// A code that could not be had is told where it was asked for, and nothing else changes.
pub proof fn a_missing_code_is_told(ui: &mut AccountUi, generation: u64, told: bool)
    requires
        call_ensures(AccountUi::qr_unavailable, (ui, generation), told),
    ensures
        told <==> old(ui).generation == generation && old(ui).dialog is Some,
        told ==> final(ui).dialog is Some && final(ui).dialog->0 is Error,
        !told ==> *final(ui) == *old(ui),
        final(ui).status == old(ui).status,
        final(ui).retry_source == old(ui).retry_source,
{
}

/// The button that closes the dialog says whether what waited goes on.
pub proof fn the_closing_button_says_what_follows(ui: AccountUi, resumable: bool, label: &'static str)
    requires
        call_ensures(AccountUi::close_label, (&ui, resumable), label),
    ensures
        ui.dialog is Some && ui.dialog->0 is Success && resumable ==> label@ == "继续转换"@,
        ui.dialog is Some && ui.dialog->0 is Success && !resumable ==> label@ == "完成"@,
        ui.dialog is None || !(ui.dialog->0 is Success) ==> label@ == "取消"@,
{
}

} // verus!
