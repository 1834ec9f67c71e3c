//! The update check as the window sees it: what a manual request or a status
//! report leads to, and what the banner and the about box say.
use vstd::prelude::*;
use crate::layout::Palette;
use crate::text::{persian_digits, to_persian_digits};

verus! {

/// Where the check for a new version stands.
#[derive(Clone, Copy, Debug, PartialEq, Eq, Structural)]
pub enum UpdateStatus {
    /// No check has run yet.
    Idle,
    /// A check is under way.
    Checking,
    /// The running version is the newest.
    UpToDate,
    /// A newer version can be downloaded.
    Available,
    /// A newer version is being downloaded and installed.
    Downloading,
    /// The last check or download failed.
    Failed,
}

/// The first step of an update that the user asked for.
#[derive(Clone, Copy, Debug, PartialEq, Eq, Structural)]
pub enum ManualStep {
    /// Start downloading the new version.
    Download,
    /// Something is under way already; wait for its report.
    Wait,
    /// Look for a new version first.
    Check,
}

/// A manual request downloads what is known to be there (or what failed
/// before), waits for work under way, and checks otherwise.
pub open spec fn spec_manual_step(status: UpdateStatus) -> ManualStep {
    match status {
        UpdateStatus::Available | UpdateStatus::Failed => ManualStep::Download,
        UpdateStatus::Checking | UpdateStatus::Downloading => ManualStep::Wait,
        _ => ManualStep::Check,
    }
}

pub fn manual_step(status: UpdateStatus) -> (r: ManualStep)
    ensures
        r == spec_manual_step(status),
{
    match status {
        UpdateStatus::Available | UpdateStatus::Failed => ManualStep::Download,
        UpdateStatus::Checking | UpdateStatus::Downloading => ManualStep::Wait,
        _ => ManualStep::Check,
    }
}

/// Whether a status report starts a download: a new version is there and
/// either updates are automatic or the user asked for one.
pub open spec fn spec_download_on_report(status: UpdateStatus, auto_update: bool, manual: bool) -> bool {
    status == UpdateStatus::Available && (auto_update || manual)
}

pub fn download_on_report(status: UpdateStatus, auto_update: bool, manual: bool) -> (r: bool)
    ensures
        r == spec_download_on_report(status, auto_update, manual),
{
    status == UpdateStatus::Available && (auto_update || manual)
}

/// Whether the user's request is still pending after a status report: it is
/// settled by a download that started, or by a report that ends the check
/// (up to date, idle or failed).
pub open spec fn spec_request_pending(status: UpdateStatus, manual: bool, started: bool) -> bool {
    if started {
        false
    } else {
        match status {
            UpdateStatus::UpToDate | UpdateStatus::Idle | UpdateStatus::Failed => false,
            _ => manual,
        }
    }
}

/// `started` says whether the download that `download_on_report` asked for
/// did start.
pub fn request_pending(status: UpdateStatus, manual: bool, started: bool) -> (r: bool)
    ensures
        r == spec_request_pending(status, manual, started),
{
    if started {
        false
    } else {
        match status {
            UpdateStatus::UpToDate | UpdateStatus::Idle | UpdateStatus::Failed => false,
            _ => manual,
        }
    }
}

/// The label of the about box's update button.
pub open spec fn spec_about_update_label(status: UpdateStatus) -> Seq<char> {
    match status {
        UpdateStatus::Checking => "در حال بررسی…"@,
        UpdateStatus::Downloading => "در حال بروزرسانی…"@,
        UpdateStatus::UpToDate => "برنامه بروز است"@,
        UpdateStatus::Available => "دریافت نسخه جدید"@,
        UpdateStatus::Failed => "تلاش دوباره برای بروزرسانی"@,
        UpdateStatus::Idle => "بررسی بروزرسانی"@,
    }
}

pub fn about_update_label(status: UpdateStatus) -> (r: &'static str)
    ensures
        r@ == spec_about_update_label(status),
{
    match status {
        UpdateStatus::Checking => "در حال بررسی…",
        UpdateStatus::Downloading => "در حال بروزرسانی…",
        UpdateStatus::UpToDate => "برنامه بروز است",
        UpdateStatus::Available => "دریافت نسخه جدید",
        UpdateStatus::Failed => "تلاش دوباره برای بروزرسانی",
        UpdateStatus::Idle => "بررسی بروزرسانی",
    }
}

/// The banner above the footer, with its text colour: shown only when
/// updates are not automatic, for a new version (named by `version`), a
/// download under way, or a failure.
pub open spec fn spec_banner_line(auto_update: bool, status: UpdateStatus, version: Seq<char>, palette: Palette) -> Option<(Seq<char>, u32)> {
    if auto_update {
        None
    } else {
        match status {
            UpdateStatus::Available => Some((
                "نسخه جدید "@ + to_persian_digits(version) + " منتشر شده — برای بروزرسانی کلیک کنید"@,
                palette.accent,
            )),
            UpdateStatus::Downloading => Some(("در حال دریافت و نصب نسخه جدید…"@, palette.event)),
            UpdateStatus::Failed => Some(("بروزرسانی خودکار ناموفق بود — دانلود دستی"@, palette.holiday)),
            _ => None,
        }
    }
}

pub fn banner_line(auto_update: bool, status: UpdateStatus, version: &str, palette: &Palette) -> (r: Option<(String, u32)>)
    ensures
        match (r, spec_banner_line(auto_update, status, version@, *palette)) {
            (Some((text, color)), Some((t, c))) => text@ == t && color == c,
            (None, None) => true,
            _ => false,
        },
{
    if auto_update {
        return None;
    }
    match status {
        UpdateStatus::Available => {
            let mut text = String::from_str("نسخه جدید ");
            let digits = persian_digits(version);
            text.append(digits.as_str());
            text.append(" منتشر شده — برای بروزرسانی کلیک کنید");
            Some((text, palette.accent))
        },
        UpdateStatus::Downloading => Some((String::from_str("در حال دریافت و نصب نسخه جدید…"), palette.event)),
        UpdateStatus::Failed => Some((String::from_str("بروزرسانی خودکار ناموفق بود — دانلود دستی"), palette.holiday)),
        _ => None,
    }
}

} // verus!
