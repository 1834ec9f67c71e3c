//! What the install button asks before copying the program into Program
//! Files, for each state of the installed copy.
use vstd::prelude::*;
use crate::clicks::InstallationState;

verus! {

/// The install button's dialogue.
#[derive(Clone, Copy, Debug)]
pub enum InstallPrompt {
    /// Nothing to install; the message says why.
    Refuse(&'static str),
    /// A confirmation before installing or updating, and the message shown
    /// if the installer does not start.
    Confirm {
        title: &'static str,
        message: &'static str,
        reminder: Option<&'static str>,
        accept: &'static str,
        failure: &'static str,
    },
}

/// The texts of the install button's dialogue.
pub open spec fn prompt_text(p: InstallPrompt) -> (Seq<char>, Seq<char>, Option<Seq<char>>, Seq<char>, Seq<char>) {
    match p {
        InstallPrompt::Refuse(m) => (Seq::empty(), m@, None, Seq::empty(), Seq::empty()),
        InstallPrompt::Confirm { title, message, reminder, accept, failure } => (
            title@,
            message@,
            match reminder {
                Some(r) => Some(r@),
                None => None,
            },
            accept@,
            failure@,
        ),
    }
}

/// An installed copy that is this one, or at least as new, is left alone
/// with a message; otherwise the user confirms a new install (reminded that
/// the program also runs where it is) or an update of the installed copy.
pub open spec fn prompt_is(p: InstallPrompt, state: InstallationState) -> bool {
    match state {
        InstallationState::InstalledCurrent => p is Refuse && prompt_text(p).1
            == "گاه‌یار هم‌اکنون در Program Files نصب شده است."@,
        InstallationState::InstalledOtherUpToDate => p is Refuse && prompt_text(p).1
            == "نسخهٔ نصب‌شده با نسخهٔ فعلی یکسان یا از آن جدیدتر است و نیازی به بروزرسانی ندارد."@,
        InstallationState::UpdateAvailable => p is Confirm && prompt_text(p) == (
            "بروزرسانی گاه‌یار"@,
            "نسخه‌ای که اکنون اجرا کرده‌اید با نسخهٔ داخل Program Files متفاوت است.\n\nآیا فایل نصب‌شده با فایل فعلی جایگزین شود؟\n\nبرنامه بسته می‌شود و پس از بروزرسانی دوباره از مسیر نصب‌شده اجرا خواهد شد."@,
            None::<Seq<char>>,
            "بروزرسانی برنامه"@,
            "بروزرسانی آغاز نشد یا اجازه دسترسی صادر نشد."@,
        ),
        InstallationState::NotInstalled => p is Confirm && prompt_text(p) == (
            "نصب گاه‌یار"@,
            "آیا گاه‌یار در Program Files نصب شود؟\n\nبرنامه بسته می‌شود و پس از نصب دوباره اجرا خواهد شد.\n\nاگر مایل بودید، خوشحال می‌شویم گاه‌یار را به دوستانتان و در شبکه‌های اجتماعی پیشنهاد دهید."@,
            Some("یادآوری: گاه‌یار یک برنامهٔ پورتابل است و برای کارکردن نیازی به نصب در Program Files ندارد. انتقال آن به این پوشه فقط کمک می‌کند فایل برنامه اتفاقی حذف نشود و محل نگهداری مطمئن‌تری داشته باشد."@),
            "نصب برنامه"@,
            "نصب آغاز نشد یا اجازه دسترسی صادر نشد."@,
        ),
    }
}

pub fn install_prompt(state: InstallationState) -> (r: InstallPrompt)
    ensures
        prompt_is(r, state),
{
    match state {
        InstallationState::InstalledCurrent => InstallPrompt::Refuse(
            "گاه‌یار هم‌اکنون در Program Files نصب شده است.",
        ),
        InstallationState::InstalledOtherUpToDate => InstallPrompt::Refuse(
            "نسخهٔ نصب‌شده با نسخهٔ فعلی یکسان یا از آن جدیدتر است و نیازی به بروزرسانی ندارد.",
        ),
        InstallationState::UpdateAvailable => InstallPrompt::Confirm {
            title: "بروزرسانی گاه‌یار",
            message: "نسخه‌ای که اکنون اجرا کرده‌اید با نسخهٔ داخل Program Files متفاوت است.\n\nآیا فایل نصب‌شده با فایل فعلی جایگزین شود؟\n\nبرنامه بسته می‌شود و پس از بروزرسانی دوباره از مسیر نصب‌شده اجرا خواهد شد.",
            reminder: None,
            accept: "بروزرسانی برنامه",
            failure: "بروزرسانی آغاز نشد یا اجازه دسترسی صادر نشد.",
        },
        InstallationState::NotInstalled => InstallPrompt::Confirm {
            title: "نصب گاه‌یار",
            message: "آیا گاه‌یار در Program Files نصب شود؟\n\nبرنامه بسته می‌شود و پس از نصب دوباره اجرا خواهد شد.\n\nاگر مایل بودید، خوشحال می‌شویم گاه‌یار را به دوستانتان و در شبکه‌های اجتماعی پیشنهاد دهید.",
            reminder: Some(
                "یادآوری: گاه‌یار یک برنامهٔ پورتابل است و برای کارکردن نیازی به نصب در Program Files ندارد. انتقال آن به این پوشه فقط کمک می‌کند فایل برنامه اتفاقی حذف نشود و محل نگهداری مطمئن‌تری داشته باشد.",
            ),
            accept: "نصب برنامه",
            failure: "نصب آغاز نشد یا اجازه دسترسی صادر نشد.",
        },
    }
}

} // verus!
