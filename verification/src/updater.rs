//! The auto-updater's state machine: the status values a host UI
//! observes, the decision a check takes from the registry's answer, the
//! full status trace of one check, and the OS-specific install planning.
//! The host performs the network and filesystem work and feeds the
//! outcomes back; every decision here is pure and verified.

use vstd::prelude::*;
use vstd::string::StrSliceExecFns;
use vstd::string::StringExecFns;

use crate::platform::{platform_string, platform_string_spec, HostOs};
use crate::strutil::{ends_with_spec, str_contains, str_ends_with};
use crate::version::{parse_semver, semver_lt, semver_triple_of, SemVer};

verus! {

/// The client-local status a host UI observes. Exactly one instance is
/// live per running process; it is replaced wholesale on each transition.
#[derive(Debug, Clone, PartialEq, Eq)]
pub enum UpdateStatus {
    Idle,
    Checking,
    UpToDate { version: SemVer },
    Downloading { version: SemVer },
    Installing { version: SemVer },
    Updated { version: SemVer },
    Error(String),
}

impl UpdateStatus {
    /// A copy equal to `self`.
    pub fn clone_status(&self) -> (r: UpdateStatus)
        ensures
            r == *self,
    {
        match self {
            UpdateStatus::Idle => UpdateStatus::Idle,
            UpdateStatus::Checking => UpdateStatus::Checking,
            UpdateStatus::UpToDate { version } => UpdateStatus::UpToDate { version: *version },
            UpdateStatus::Downloading { version } => UpdateStatus::Downloading {
                version: *version,
            },
            UpdateStatus::Installing { version } => UpdateStatus::Installing { version: *version },
            UpdateStatus::Updated { version } => UpdateStatus::Updated { version: *version },
            UpdateStatus::Error(m) => UpdateStatus::Error(m.clone()),
        }
    }
}

/// The updater embedded in a running build: the version it was built as
/// and the platform identifier computed once from the host.
pub struct AutoUpdater {
    pub current_version: SemVer,
    pub platform: String,
}

impl AutoUpdater {
    /// An updater for a build of `current_version` running on the given
    /// host; the platform identifier is fixed here and reused for both
    /// the registry lookup and the asset name.
    pub fn new(current_version: SemVer, os: HostOs, aarch64: bool) -> (r: AutoUpdater)
        ensures
            r.current_version == current_version,
            r.platform@ == platform_string_spec(os, aarch64),
    {
        AutoUpdater { current_version, platform: platform_string(os, aarch64) }
    }
}

/// What polling the registry produced, as the transport hands it back:
/// a transport failure, an empty registry, or the latest version string.
#[derive(Debug, Clone, PartialEq, Eq)]
pub enum FetchOutcome {
    Transport(String),
    NoVersions,
    Found(String),
}

/// What performing the planned download and install produced.
#[derive(Debug, Clone, PartialEq, Eq)]
pub enum RunOutcome {
    DownloadFailed(String),
    InstallFailed(String),
    Installed,
}

/// The decision one check takes: report a terminal status without any
/// download, or proceed to download and install the named version.
#[derive(Debug, Clone, PartialEq, Eq)]
pub enum CheckDecision {
    Report(UpdateStatus),
    Proceed(SemVer),
}

/// Strict semantic-version ordering decides: equal-or-lower never
/// triggers a download.
pub open spec fn decision_spec(current: SemVer, latest: SemVer) -> CheckDecision {
    if semver_lt(current, latest) {
        CheckDecision::Proceed(latest)
    } else {
        CheckDecision::Report(UpdateStatus::UpToDate { version: latest })
    }
}

/// The decision against an already-parsed registry latest.
pub fn plan_with_latest(current: &SemVer, latest: &SemVer) -> (d: CheckDecision)
    ensures
        d == decision_spec(*current, *latest),
{
    if current.lt(latest) {
        CheckDecision::Proceed(*latest)
    } else {
        CheckDecision::Report(UpdateStatus::UpToDate { version: *latest })
    }
}

/// The decision against the raw poll outcome: failures and unparseable
/// version strings become an error report; otherwise the parsed latest is
/// compared with the running version.
pub fn plan_check(current: &SemVer, fetch: &FetchOutcome) -> (d: CheckDecision)
    ensures
        fetch matches FetchOutcome::Transport(m) ==> (d matches CheckDecision::Report(s)
            && s matches UpdateStatus::Error(e) && e@ == m@),
        *fetch is NoVersions ==> (d matches CheckDecision::Report(s)
            && s matches UpdateStatus::Error(e) && e@ == "No versions available"@),
        fetch matches FetchOutcome::Found(vs) ==> (match semver_triple_of(vs@) {
            None => d matches CheckDecision::Report(s) && s matches UpdateStatus::Error(e) && e@
                == "Invalid version format"@,
            Some(t) => d == decision_spec(
                *current,
                SemVer { major: t.0, minor: t.1, patch: t.2 },
            ),
        }),
{
    match fetch {
        FetchOutcome::Transport(m) => CheckDecision::Report(UpdateStatus::Error(m.clone())),
        FetchOutcome::NoVersions => CheckDecision::Report(
            UpdateStatus::Error(String::from_str("No versions available")),
        ),
        FetchOutcome::Found(vs) => match parse_semver(vs.as_str()) {
            None => CheckDecision::Report(
                UpdateStatus::Error(String::from_str("Invalid version format")),
            ),
            Some(latest) => plan_with_latest(current, &latest),
        },
    }
}

/// The statuses one check emits, in order, given its decision and the
/// outcome of the work: a report ends the check at once; a proceed moves
/// through Downloading, then Installing, then Updated, stopping at the
/// step that failed.
pub open spec fn trace_for(tr: Seq<UpdateStatus>, d: CheckDecision, run: RunOutcome) -> bool {
    match d {
        CheckDecision::Report(st) => tr.len() == 2 && tr[0] is Checking && tr[1] == st,
        CheckDecision::Proceed(v) => {
            &&& tr.len() >= 2
            &&& tr[0] is Checking
            &&& tr[1] == (UpdateStatus::Downloading { version: v })
            &&& match run {
                RunOutcome::DownloadFailed(m) => tr.len() == 3 && (
                tr[2] matches UpdateStatus::Error(e) && e@ == m@),
                RunOutcome::InstallFailed(m) => tr.len() == 4 && tr[2] == (UpdateStatus::Installing {
                    version: v,
                }) && (tr[3] matches UpdateStatus::Error(e) && e@ == m@),
                RunOutcome::Installed => tr.len() == 4 && tr[2] == (UpdateStatus::Installing {
                    version: v,
                }) && tr[3] == (UpdateStatus::Updated { version: v }),
            }
        },
    }
}

/// Assembles the status trace of one check.
pub fn check_status_sequence(d: &CheckDecision, run: &RunOutcome) -> (tr: Vec<UpdateStatus>)
    ensures
        trace_for(tr@, *d, *run),
{
    let mut tr: Vec<UpdateStatus> = Vec::new();
    tr.push(UpdateStatus::Checking);
    match d {
        CheckDecision::Report(st) => {
            tr.push(st.clone_status());
        },
        CheckDecision::Proceed(v) => {
            tr.push(UpdateStatus::Downloading { version: *v });
            match run {
                RunOutcome::DownloadFailed(m) => {
                    tr.push(UpdateStatus::Error(m.clone()));
                },
                RunOutcome::InstallFailed(m) => {
                    tr.push(UpdateStatus::Installing { version: *v });
                    tr.push(UpdateStatus::Error(m.clone()));
                },
                RunOutcome::Installed => {
                    tr.push(UpdateStatus::Installing { version: *v });
                    tr.push(UpdateStatus::Updated { version: *v });
                },
            }
        },
    }
    tr
}

/// An UpToDate or Error status is held briefly for observability and then
/// reset to Idle, so a future periodic check can proceed; the system
/// never sticks in a terminal error state. Updated is terminal for the
/// process instance.
pub fn reset_after_display(st: &UpdateStatus) -> (r: Option<UpdateStatus>)
    ensures
        (*st is UpToDate || *st is Error) <==> r == Some(UpdateStatus::Idle),
        !(*st is UpToDate || *st is Error) ==> r is None,
{
    match st {
        UpdateStatus::UpToDate { .. } => Some(UpdateStatus::Idle),
        UpdateStatus::Error(_) => Some(UpdateStatus::Idle),
        _ => None,
    }
}

/// What a user-initiated trigger does in each status.
#[derive(Debug, Clone, Copy, PartialEq, Eq, Structural)]
pub enum TriggerAction {
    Restart,
    StartCheck,
    Ignore,
}

/// Both the periodic timer and the user serialize through the status
/// value: a trigger while a check, download or install is in flight is a
/// no-op observed by re-reading the status, never a second attempt; after
/// Updated the only action left is the restart.
pub fn trigger_action(st: &UpdateStatus) -> (a: TriggerAction)
    ensures
        *st is Updated <==> a == TriggerAction::Restart,
        (*st is Idle || *st is UpToDate || *st is Error) <==> a == TriggerAction::StartCheck,
        (*st is Checking || *st is Downloading || *st is Installing) <==> a
            == TriggerAction::Ignore,
{
    match st {
        UpdateStatus::Updated { .. } => TriggerAction::Restart,
        UpdateStatus::Idle => TriggerAction::StartCheck,
        UpdateStatus::UpToDate { .. } => TriggerAction::StartCheck,
        UpdateStatus::Error(_) => TriggerAction::StartCheck,
        _ => TriggerAction::Ignore,
    }
}

/// The closed set of install strategies, dispatched on the runtime
/// platform tag: Windows swaps the binary behind a backup copy, macOS
/// mirror-copies the new bundle over the old one's parent.
#[derive(Debug, Clone, Copy, PartialEq, Eq, Structural)]
pub enum InstallStrategy {
    WindowsBinarySwap,
    MacosBundleMirror,
    Unsupported,
}

pub fn install_strategy(os: HostOs) -> (s: InstallStrategy)
    ensures
        os is Windows <==> s == InstallStrategy::WindowsBinarySwap,
        os is Macos <==> s == InstallStrategy::MacosBundleMirror,
        os is Other <==> s == InstallStrategy::Unsupported,
{
    match os {
        HostOs::Windows => InstallStrategy::WindowsBinarySwap,
        HostOs::Macos => InstallStrategy::MacosBundleMirror,
        HostOs::Other => InstallStrategy::Unsupported,
    }
}

/// The `.backup` sibling the running executable is copied to before the
/// new one is copied over it, so a failed copy leaves the original intact
/// and a backup exists even on success.
pub fn windows_backup_name(exe_name: &str) -> (r: String)
    ensures
        r@ == exe_name@ + ".backup"@,
{
    let mut s = String::from_str(exe_name);
    s.append(".backup");
    s
}

/// What extracting one archive entry must do on disk.
#[derive(Debug, Clone, Copy, PartialEq, Eq)]
pub enum EntryAction {
    MakeDir,
    WriteFile { mode: Option<u32> },
}

/// Plans one archive entry: names ending in `/` are directories; files
/// take the permission bits recorded in the archive, and the main binary
/// defaults to an executable mode when the archive carries none.
pub fn extract_entry_action(name: &str, unix_mode: Option<u32>, exe_hint: &str) -> (a: EntryAction)
    ensures
        ends_with_spec(name@, "/"@) ==> a == EntryAction::MakeDir,
        !ends_with_spec(name@, "/"@) ==> a == (EntryAction::WriteFile {
            mode: match unix_mode {
                Some(m) => Some(m),
                None => if crate::strutil::contains_spec(name@, exe_hint@) {
                    Some(0o755)
                } else {
                    None
                },
            },
        }),
{
    if str_ends_with(name, "/") {
        EntryAction::MakeDir
    } else {
        let mode = match unix_mode {
            Some(m) => Some(m),
            None => if str_contains(name, exe_hint) {
                Some(0o755)
            } else {
                None
            },
        };
        EntryAction::WriteFile { mode }
    }
}

/// Walks up from the executable's path looking for the enclosing `.app`
/// bundle, at most three levels; returns the length of the path prefix
/// that names the bundle.
pub fn find_app_bundle(components: &Vec<String>) -> (r: Option<usize>)
    ensures
        r matches Some(k) ==> 1 <= k < components@.len() && ends_with_spec(
            (#[trigger] components@[k - 1])@,
            ".app"@,
        ),
        r matches Some(k) ==> components@.len() - 3 <= k,
        // Nearest match: no closer ancestor is a bundle.
        r matches Some(k) ==> forall|j: int|
            k < j < components@.len() ==> !ends_with_spec(
                (#[trigger] components@[j - 1])@,
                ".app"@,
            ),
        r is None ==> forall|k: int|
            1 <= k < components@.len() && components@.len() - 3 <= k ==> !ends_with_spec(
                (#[trigger] components@[k - 1])@,
                ".app"@,
            ),
{
    let n = components.len();
    let mut level: usize = 0;
    while level < 3
        invariant
            0 <= level <= 3,
            n == components@.len(),
            forall|k: int|
                1 <= k < n && n - 1 - k < level ==> !ends_with_spec(
                    (#[trigger] components@[k - 1])@,
                    ".app"@,
                ),
        decreases 3 - level,
    {
        if n >= level + 2 {
            let k = n - level - 1;
            if str_ends_with(components[k - 1].as_str(), ".app") {
                return Some(k);
            }
        }
        level = level + 1;
    }
    None
}

/// The law of the check decision: a latest no newer than the running
/// build ends the trace in UpToDate with no download or install status at
/// all; a strictly newer latest with a successful run yields exactly
/// Checking, Downloading, Installing, Updated — one download, one
/// install.
pub proof fn lemma_update_decision(
    current: SemVer,
    latest: SemVer,
    tr: Seq<UpdateStatus>,
    run: RunOutcome,
)
    requires
        trace_for(tr, decision_spec(current, latest), run),
    ensures
        !semver_lt(current, latest) ==> {
            &&& tr.len() == 2
            &&& tr[0] is Checking
            &&& tr[1] == (UpdateStatus::UpToDate { version: latest })
            &&& forall|i: int|
                0 <= i < tr.len() ==> !((#[trigger] tr[i]) is Downloading) && !(tr[i] is Installing)
        },
        (semver_lt(current, latest) && run is Installed) ==> {
            &&& tr.len() == 4
            &&& tr[0] is Checking
            &&& tr[1] == (UpdateStatus::Downloading { version: latest })
            &&& tr[2] == (UpdateStatus::Installing { version: latest })
            &&& tr[3] == (UpdateStatus::Updated { version: latest })
            &&& forall|i: int| 0 <= i < tr.len() && i != 1 ==> !((#[trigger] tr[i]) is Downloading)
            &&& forall|i: int| 0 <= i < tr.len() && i != 2 ==> !((#[trigger] tr[i]) is Installing)
        },
{
}

} // verus!
