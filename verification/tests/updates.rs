use gahyar::layout::Palette;
use gahyar::settings::Theme;
use gahyar::updates::{
    about_update_label, banner_line, download_on_report, manual_step, request_pending,
    ManualStep, UpdateStatus,
};

#[test]
fn manual_request_downloads_waits_or_checks() {
    assert_eq!(manual_step(UpdateStatus::Available), ManualStep::Download);
    assert_eq!(manual_step(UpdateStatus::Failed), ManualStep::Download);
    assert_eq!(manual_step(UpdateStatus::Checking), ManualStep::Wait);
    assert_eq!(manual_step(UpdateStatus::Downloading), ManualStep::Wait);
    assert_eq!(manual_step(UpdateStatus::Idle), ManualStep::Check);
    assert_eq!(manual_step(UpdateStatus::UpToDate), ManualStep::Check);
}

#[test]
fn reports_download_only_when_wanted() {
    assert!(download_on_report(UpdateStatus::Available, true, false));
    assert!(download_on_report(UpdateStatus::Available, false, true));
    assert!(!download_on_report(UpdateStatus::Available, false, false));
    assert!(!download_on_report(UpdateStatus::Failed, true, true));
}

#[test]
fn requests_settle_on_final_reports() {
    assert!(!request_pending(UpdateStatus::Available, true, true));
    assert!(request_pending(UpdateStatus::Available, true, false));
    assert!(request_pending(UpdateStatus::Checking, true, false));
    assert!(!request_pending(UpdateStatus::UpToDate, true, false));
    assert!(!request_pending(UpdateStatus::Idle, true, false));
    assert!(!request_pending(UpdateStatus::Failed, true, false));
    assert!(!request_pending(UpdateStatus::Checking, false, false));
}

#[test]
fn about_box_update_labels() {
    assert_eq!(about_update_label(UpdateStatus::Idle), "بررسی بروزرسانی");
    assert_eq!(about_update_label(UpdateStatus::UpToDate), "برنامه بروز است");
    assert_eq!(about_update_label(UpdateStatus::Available), "دریافت نسخه جدید");
}

#[test]
fn banner_names_the_new_version_in_persian_digits() {
    let p = Palette::from_theme(Theme::Dark);
    let (text, color) = banner_line(false, UpdateStatus::Available, "1.2.10", &p).unwrap();
    assert_eq!(text, "نسخه جدید ۱.۲.۱۰ منتشر شده — برای بروزرسانی کلیک کنید");
    assert_eq!(color, p.accent);
    let (_, color) = banner_line(false, UpdateStatus::Failed, "", &p).unwrap();
    assert_eq!(color, p.holiday);
    let (text, color) = banner_line(false, UpdateStatus::Downloading, "", &p).unwrap();
    assert_eq!(text, "در حال دریافت و نصب نسخه جدید…");
    assert_eq!(color, p.event);
    assert!(banner_line(true, UpdateStatus::Available, "1.2.10", &p).is_none());
    assert!(banner_line(false, UpdateStatus::UpToDate, "", &p).is_none());
}
