use clipsync::classify::PathStatus;
use clipsync::history::SavedClipboardItem;
use clipsync::locate::{first_path, locate, LocateError};
use clipsync::settings::{settings_or_default, AppSettings};

#[test]
fn the_first_path_is_selected() {
    assert_eq!(first_path("C:\\a.txt\nC:\\b.txt"), Some("C:\\a.txt".to_string()));
    assert_eq!(first_path("C:\\a.txt\r\n"), Some("C:\\a.txt".to_string()));
    assert_eq!(first_path("one"), Some("one".to_string()));
    assert_eq!(first_path("\nsecond"), Some(String::new()));
    assert_eq!(first_path(""), None);
}

#[test]
fn locate_needs_a_path_that_exists() {
    assert_eq!(locate("C:\\a.txt\nC:\\b.txt", PathStatus::File), Ok("C:\\a.txt".to_string()));
    assert_eq!(locate("C:\\dir", PathStatus::Directory), Ok("C:\\dir".to_string()));
    assert_eq!(locate("C:\\gone", PathStatus::Missing), Err(LocateError::NotFound));
    assert_eq!(locate("", PathStatus::File), Err(LocateError::NotFound));
    assert_eq!(LocateError::NotFound.message(), "文件不存在");
}

#[test]
fn default_settings() {
    let settings = AppSettings::default();
    assert_eq!(settings.theme, "system");
    assert!(settings.close_to_tray);
}

#[test]
fn settings_that_were_read_are_kept() {
    let read = AppSettings { theme: "dark".to_string(), close_to_tray: false };
    let settings = settings_or_default(Some(read));
    assert_eq!(settings.theme, "dark");
    assert!(!settings.close_to_tray);
    let settings = settings_or_default(None);
    assert_eq!(settings.theme, "system");
    assert!(settings.close_to_tray);
}

#[test]
fn a_history_entry_holds_three_strings() {
    let item = SavedClipboardItem { id: "1".to_string(), kind: "text".to_string(), content: "hi".to_string() };
    let copy = item.clone();
    assert_eq!((copy.id, copy.kind, copy.content), ("1".to_string(), "text".to_string(), "hi".to_string()));
}
