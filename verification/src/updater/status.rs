//! The state of an update.

use crate::text::{
    chars_of, concat, concat3, decimal, decimal_string, find, find_from, find_from_is_first,
    occurs_at,
};
use vstd::prelude::*;

verus! {

broadcast use vstd::string::group_string_axioms;

/// How far an update is.
#[derive(Clone, Debug, PartialEq, Eq)]
pub enum UpdateStatus {
    Idle,
    Checking,
    Available { version: String, asset_url: String, asset_name: String },
    Downloading { version: String, progress: u8 },
    /// Downloaded to `path`.
    Ready { version: String, path: String },
    Installing { version: String },
    ReadyToRestart { version: String },
    /// To be installed with Homebrew.
    BrewUpdate { version: String },
    Failed { error: String },
}

impl UpdateStatus {
    /// Whether the user should see the status even after dismissing the last.
    pub open spec fn is_news(self) -> bool {
        !(self is Idle) && !(self is Checking)
    }
}

/// The state of an update, and who works on it.
#[derive(Debug)]
pub struct UpdateInfo {
    status: UpdateStatus,
    dismissed: bool,
    is_homebrew: bool,
    manual_check_active: bool,
    running: bool,
    cancel_token: u64,
    app_version: String,
}

/// An [`UpdateInfo`] with its fields in the open.
pub struct UpdateModel {
    pub status: UpdateStatus,
    pub dismissed: bool,
    pub is_homebrew: bool,
    pub manual: bool,
    pub running: bool,
    pub token: u64,
    pub app_version: Seq<char>,
}

/// The token after another.
pub open spec fn next_token(token: u64) -> u64 {
    if token == u64::MAX {
        0
    } else {
        (token + 1) as u64
    }
}

impl UpdateModel {
    /// With another status; news are shown again.
    pub open spec fn with_status(self, status: UpdateStatus) -> UpdateModel {
        UpdateModel { status, dismissed: self.dismissed && !status.is_news(), ..self }
    }

    /// Whether a check by hand may begin: there is none, and nothing is checked
    /// or downloaded.
    pub open spec fn manual_may_start(self) -> bool {
        !self.manual && !(self.status is Checking) && !(self.status is Downloading)
    }

    /// Whether the background check may begin.
    pub open spec fn may_start(self) -> bool {
        !self.manual && !self.running
    }

    /// With all work under the current token called off.
    pub open spec fn cancelled(self) -> UpdateModel {
        UpdateModel { token: next_token(self.token), running: false, ..self }
    }

    /// With the work under a token ended; work under another goes on.
    pub open spec fn stopped(self, token: u64) -> UpdateModel {
        UpdateModel { running: self.running && self.token != token, ..self }
    }
}

impl UpdateInfo {
    pub closed spec fn view(&self) -> UpdateModel {
        UpdateModel {
            status: self.status,
            dismissed: self.dismissed,
            is_homebrew: self.is_homebrew,
            manual: self.manual_check_active,
            running: self.running,
            token: self.cancel_token,
            app_version: self.app_version@,
        }
    }

    /// Nothing to update yet. `is_homebrew` says whether Homebrew installed
    /// this okena.
    pub fn new(app_version: String, is_homebrew: bool) -> (r: UpdateInfo)
        ensures
            r.view() == (UpdateModel {
                status: UpdateStatus::Idle,
                dismissed: false,
                is_homebrew,
                manual: false,
                running: false,
                token: 0,
                app_version: app_version@,
            }),
    {
        UpdateInfo {
            status: UpdateStatus::Idle,
            dismissed: false,
            is_homebrew,
            manual_check_active: false,
            running: false,
            cancel_token: 0,
            app_version,
        }
    }

    /// The version that runs.
    pub fn app_version(&self) -> (r: String)
        ensures
            r@ == self.view().app_version,
    {
        self.app_version.clone()
    }

    /// How far the update is.
    pub fn status(&self) -> (r: &UpdateStatus)
        ensures
            *r == self.view().status,
    {
        &self.status
    }

    /// Changes the status. News are shown even where the last were dismissed.
    pub fn set_status(&mut self, status: UpdateStatus)
        ensures
            final(self).view() == old(self).view().with_status(status),
    {
        match &status {
            UpdateStatus::Idle => {},
            UpdateStatus::Checking => {},
            _ => {
                self.dismissed = false;
            },
        }
        self.status = status;
    }

    /// Whether Homebrew installed this okena.
    pub fn is_homebrew(&self) -> (r: bool)
        ensures
            r == self.view().is_homebrew,
    {
        self.is_homebrew
    }

    /// Whether the user dismissed the status.
    pub fn is_dismissed(&self) -> (r: bool)
        ensures
            r == self.view().dismissed,
    {
        self.dismissed
    }

    /// Dismisses the status.
    pub fn dismiss(&mut self)
        ensures
            final(self).view() == (UpdateModel { dismissed: true, ..old(self).view() }),
    {
        self.dismissed = true;
    }

    /// Begins a check by hand, unless something is checked or downloaded.
    pub fn try_start_manual(&mut self) -> (r: bool)
        ensures
            r == old(self).view().manual_may_start(),
            final(self).view() == (if r {
                UpdateModel { manual: true, dismissed: false, ..old(self).view() }
            } else {
                old(self).view()
            }),
    {
        if self.manual_check_active {
            return false;
        }
        match &self.status {
            UpdateStatus::Checking => {
                return false;
            },
            UpdateStatus::Downloading { .. } => {
                return false;
            },
            _ => {},
        }
        self.manual_check_active = true;
        self.dismissed = false;
        true
    }

    /// Whether a check by hand is under way.
    pub fn is_manual_active(&self) -> (r: bool)
        ensures
            r == self.view().manual,
    {
        self.manual_check_active
    }

    /// Ends a check by hand.
    pub fn finish_manual(&mut self)
        ensures
            final(self).view() == (UpdateModel { manual: false, ..old(self).view() }),
    {
        self.manual_check_active = false;
    }

    /// Begins the background check, unless one runs or a check by hand is under
    /// way, and hands out the token that it works under.
    pub fn try_start(&mut self) -> (r: Option<u64>)
        ensures
            r == (if old(self).view().may_start() {
                Some(old(self).view().token)
            } else {
                None
            }),
            final(self).view() == (if r is Some {
                UpdateModel { running: true, ..old(self).view() }
            } else {
                old(self).view()
            }),
    {
        if self.manual_check_active || self.running {
            return None;
        }
        self.running = true;
        Some(self.cancel_token)
    }

    /// Calls off all work under the current token.
    pub fn cancel(&mut self)
        ensures
            final(self).view() == old(self).view().cancelled(),
    {
        self.cancel_token = if self.cancel_token == u64::MAX {
            0
        } else {
            self.cancel_token + 1
        };
        self.running = false;
    }

    /// Whether the work under a token was called off.
    pub fn is_cancelled(&self, token: u64) -> (r: bool)
        ensures
            r == (self.view().token != token),
    {
        self.cancel_token != token
    }

    /// The token that new work would get.
    pub fn current_token(&self) -> (r: u64)
        ensures
            r == self.view().token,
    {
        self.cancel_token
    }

    /// Ends the work under a token, unless it was called off before.
    pub fn mark_stopped(&mut self, token: u64)
        ensures
            final(self).view() == old(self).view().stopped(token),
    {
        if self.cancel_token == token {
            self.running = false;
        }
    }
}

/// A path with one of Homebrew's directories in it.
pub open spec fn is_homebrew_path_model(path: Seq<char>) -> bool {
    find_from(path, "/Caskroom/"@, 0) >= 0 || find_from(path, "/Cellar/"@, 0) >= 0
}

/// Whether a program at this path was installed by Homebrew.
pub fn is_homebrew_path(path: &str) -> (r: bool)
    ensures
        r == is_homebrew_path_model(path@),
{
    let chars: Vec<char> = chars_of(path);
    find(&chars, &chars_of("/Caskroom/"), 0).is_some() || find(
        &chars,
        &chars_of("/Cellar/"),
        0,
    ).is_some()
}

// ---------------------------------------------------------------------------
// The status bar
// ---------------------------------------------------------------------------

/// What a click on the status does.
#[derive(Clone, Copy, Debug, PartialEq, Eq, Structural)]
pub enum WidgetAction {
    Nothing,
    Install,
    Restart,
    Dismiss,
}

/// The colour of the status.
#[derive(Clone, Copy, Debug, PartialEq, Eq, Structural)]
pub enum Tone {
    Good,
    Busy,
    Quiet,
    Bad,
}

/// What the status bar shows of an update.
#[derive(Clone, Debug, PartialEq, Eq)]
pub struct Widget {
    pub text: String,
    pub tone: Tone,
    pub action: WidgetAction,
    /// The page that tells what is new.
    pub link: Option<String>,
}

/// A [`Widget`] with its texts as sequences.
pub struct WidgetModel {
    pub text: Seq<char>,
    pub tone: Tone,
    pub action: WidgetAction,
    pub link: Option<Seq<char>>,
}

impl DeepView for Widget {
    type V = WidgetModel;

    open spec fn deep_view(&self) -> WidgetModel {
        WidgetModel {
            text: self.text@,
            tone: self.tone,
            action: self.action,
            link: self.link.deep_view(),
        }
    }
}

/// What the status bar shows of a status.
pub open spec fn status_widget(status: UpdateStatus) -> Option<WidgetModel> {
    match status {
        UpdateStatus::Ready { version, .. } => Some(
            WidgetModel {
                text: "New version available"@,
                tone: Tone::Good,
                action: WidgetAction::Install,
                link: Some("https://github.com/contember/okena/releases/tag/v"@ + version@),
            },
        ),
        UpdateStatus::Installing { version } => Some(
            WidgetModel {
                text: "Installing v"@ + version@ + "..."@,
                tone: Tone::Busy,
                action: WidgetAction::Nothing,
                link: None,
            },
        ),
        UpdateStatus::ReadyToRestart { .. } => Some(
            WidgetModel {
                text: "Restart to update"@,
                tone: Tone::Good,
                action: WidgetAction::Restart,
                link: None,
            },
        ),
        UpdateStatus::Downloading { version, progress } => Some(
            WidgetModel {
                text: "Downloading v"@ + version@ + "... "@ + decimal(progress as nat) + "%"@,
                tone: Tone::Busy,
                action: WidgetAction::Nothing,
                link: None,
            },
        ),
        UpdateStatus::Checking => Some(
            WidgetModel {
                text: "Checking for updates..."@,
                tone: Tone::Quiet,
                action: WidgetAction::Nothing,
                link: None,
            },
        ),
        UpdateStatus::Failed { error } => Some(
            WidgetModel {
                text: "Update failed: "@ + error@,
                tone: Tone::Bad,
                action: WidgetAction::Dismiss,
                link: None,
            },
        ),
        UpdateStatus::BrewUpdate { version } => Some(
            WidgetModel {
                text: "v"@ + version@ + " \u{2014} brew upgrade okena"@,
                tone: Tone::Quiet,
                action: WidgetAction::Dismiss,
                link: None,
            },
        ),
        UpdateStatus::Idle => None,
        UpdateStatus::Available { .. } => None,
    }
}

fn plain_widget(text: String, tone: Tone, action: WidgetAction) -> (r: Option<Widget>)
    ensures
        r.deep_view() == Some(WidgetModel { text: text@, tone, action, link: None }),
{
    Some(Widget { text, tone, action, link: None })
}

/// What the status bar shows: nothing once the status was dismissed.
pub fn widget(info: &UpdateInfo) -> (r: Option<Widget>)
    ensures
        r.deep_view() == (if info.view().dismissed {
            None
        } else {
            status_widget(info.view().status)
        }),
{
    if info.dismissed {
        return None;
    }
    match &info.status {
        UpdateStatus::Ready { version, .. } => Some(
            Widget {
                text: "New version available".to_owned(),
                tone: Tone::Good,
                action: WidgetAction::Install,
                link: Some(
                    concat(
                        "https://github.com/contember/okena/releases/tag/v",
                        version.as_str(),
                    ),
                ),
            },
        ),
        UpdateStatus::Installing { version } => plain_widget(
            concat3("Installing v", version.as_str(), "..."),
            Tone::Busy,
            WidgetAction::Nothing,
        ),
        UpdateStatus::ReadyToRestart { .. } => plain_widget(
            "Restart to update".to_owned(),
            Tone::Good,
            WidgetAction::Restart,
        ),
        UpdateStatus::Downloading { version, progress } => {
            let mut text: String = concat3("Downloading v", version.as_str(), "... ");
            text.push_str(decimal_string(*progress as u64).as_str());
            text.push_str("%");
            plain_widget(text, Tone::Busy, WidgetAction::Nothing)
        },
        UpdateStatus::Checking => plain_widget(
            "Checking for updates...".to_owned(),
            Tone::Quiet,
            WidgetAction::Nothing,
        ),
        UpdateStatus::Failed { error } => plain_widget(
            concat("Update failed: ", error.as_str()),
            Tone::Bad,
            WidgetAction::Dismiss,
        ),
        UpdateStatus::BrewUpdate { version } => plain_widget(
            concat3("v", version.as_str(), " \u{2014} brew upgrade okena"),
            Tone::Quiet,
            WidgetAction::Dismiss,
        ),
        UpdateStatus::Idle => None,
        UpdateStatus::Available { .. } => None,
    }
}

// ---------------------------------------------------------------------------
// Laws
// ---------------------------------------------------------------------------

/// Calling work off reaches the work under the current token, and frees the
/// way for new work.
pub proof fn cancel_reaches_current_work(info: UpdateModel)
    ensures
        info.cancelled().token != info.token,
        !info.cancelled().running,
        !info.manual ==> info.cancelled().may_start(),
{
}

/// Work that was called off cannot stop the work that came after it.
pub proof fn stale_work_stops_nothing(info: UpdateModel)
    ensures
        info.cancelled().stopped(info.token) == info.cancelled(),
        ({
            let later = UpdateModel { running: true, ..info.cancelled() };
            later.stopped(info.token).running
        }),
{
}

/// Two checks never run at once: while one by hand is under way neither kind may
/// begin, and while the background check runs no second one may.
pub proof fn checks_exclude_each_other(info: UpdateModel)
    ensures
        info.manual ==> !info.manual_may_start() && !info.may_start(),
        info.running ==> !info.may_start(),
{
}

/// News are always shown: whatever was dismissed before, a status worth showing
/// appears.
pub proof fn news_are_shown(info: UpdateModel, status: UpdateStatus)
    requires
        status.is_news(),
    ensures
        !info.with_status(status).dismissed,
        !(status is Available) ==> status_widget(status) is Some,
{
}

/// What a click does fits the state: it installs just what is ready, restarts just
/// what is installed, and sends away just what is bad news or not for it to do.
pub proof fn clicks_fit_the_state(status: UpdateStatus)
    ensures
        (status_widget(status) matches Some(w) && w.action is Install) <==> status is Ready,
        (status_widget(status) matches Some(w) && w.action is Restart) <==> status is
            ReadyToRestart,
        (status_widget(status) matches Some(w) && w.action is Dismiss) <==> status is Failed
            || status is BrewUpdate,
        (status_widget(status) matches Some(w) && w.tone is Bad) <==> status is Failed,
        status_widget(status) is None <==> status is Idle || status is Available,
        status matches UpdateStatus::Ready { version, .. } ==> (status_widget(status)->0.link
            matches Some(link) && version@.is_suffix_of(link)),
        status matches UpdateStatus::Failed { error } ==> error@.is_suffix_of(
            status_widget(status)->0.text,
        ),
{
    if let UpdateStatus::Ready { version, .. } = status {
        let link = status_widget(status)->0.link->0;
        assert(link.skip(link.len() - version@.len()) == version@);
    }
    if let UpdateStatus::Failed { error } = status {
        let text = status_widget(status)->0.text;
        assert(text.skip(text.len() - error@.len()) == error@);
    }
}

/// A notice that was sent away stays away until there is news, and a change of state
/// changes nothing else.
pub proof fn notices_stay_away(info: UpdateModel, status: UpdateStatus)
    ensures
        info.dismissed && (status is Idle || status is Checking) ==> info.with_status(
            status,
        ).dismissed,
        info.with_status(status).status == status,
        info.with_status(status).running == info.running,
        info.with_status(status).manual == info.manual,
        info.with_status(status).token == info.token,
        info.with_status(status).app_version == info.app_version,
        !info.dismissed ==> !info.with_status(status).dismissed,
{
}

/// Work that ends on its own token leaves nothing running.
pub proof fn finished_work_stops(info: UpdateModel)
    ensures
        !info.stopped(info.token).running,
        !info.manual ==> info.stopped(info.token).may_start(),
        !info.manual && !(info.status is Checking) && !(info.status is Downloading)
            ==> info.manual_may_start(),
{
}

/// Whatever lies in one of Homebrew's directories is Homebrew's.
pub proof fn homebrew_is_recognised(before: Seq<char>, after: Seq<char>)
    ensures
        is_homebrew_path_model(before + "/Cellar/"@ + after),
        is_homebrew_path_model(before + "/Caskroom/"@ + after),
{
    let cellar = before + "/Cellar/"@ + after;
    let cask = before + "/Caskroom/"@ + after;
    find_from_is_first(cellar, "/Cellar/"@, 0);
    find_from_is_first(cask, "/Caskroom/"@, 0);
    let n = before.len() as int;
    assert(cellar.subrange(n, n + "/Cellar/"@.len()) == "/Cellar/"@);
    assert(cask.subrange(n, n + "/Caskroom/"@.len()) == "/Caskroom/"@);
    assert(occurs_at(cellar, "/Cellar/"@, n));
    assert(occurs_at(cask, "/Caskroom/"@, n));
}

/// A check that the user asks for never runs beside another one or beside a download.
pub proof fn manual_checks_run_alone(info: UpdateModel)
    ensures
        info.status is Downloading ==> !info.manual_may_start(),
        info.status is Checking ==> !info.manual_may_start(),
        info.manual ==> !info.manual_may_start(),
{
}

} // verus!
