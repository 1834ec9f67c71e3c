use gahyar::clicks::InstallationState;
use gahyar::install::{install_prompt, InstallPrompt};

#[test]
fn installed_copies_are_left_alone() {
    match install_prompt(InstallationState::InstalledCurrent) {
        InstallPrompt::Refuse(message) => {
            assert_eq!(message, "گاه‌یار هم‌اکنون در Program Files نصب شده است.")
        }
        _ => panic!("an installed copy needs no install"),
    }
    assert!(matches!(
        install_prompt(InstallationState::InstalledOtherUpToDate),
        InstallPrompt::Refuse(_)
    ));
}

#[test]
fn new_installs_remind_and_updates_do_not() {
    match install_prompt(InstallationState::NotInstalled) {
        InstallPrompt::Confirm { title, reminder, accept, .. } => {
            assert_eq!(title, "نصب گاه‌یار");
            assert!(reminder.unwrap().starts_with("یادآوری"));
            assert_eq!(accept, "نصب برنامه");
        }
        _ => panic!("installing asks first"),
    }
    match install_prompt(InstallationState::UpdateAvailable) {
        InstallPrompt::Confirm { title, reminder, accept, failure, .. } => {
            assert_eq!(title, "بروزرسانی گاه‌یار");
            assert!(reminder.is_none());
            assert_eq!(accept, "بروزرسانی برنامه");
            assert_eq!(failure, "بروزرسانی آغاز نشد یا اجازه دسترسی صادر نشد.");
        }
        _ => panic!("updating asks first"),
    }
}
