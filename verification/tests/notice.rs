use apk_backup::notice::{
    backing_up, extracted, extracting, failed, install_failed, install_not_run, installed,
    invalid_argument, item, no_apks, not_created, not_extracted, note, note_list, only, say,
    silence, usage, warn, Notice, Stream, BRIDGE_MISSING, CHOOSE_BASE, CHOOSE_INSTALL,
    DISCONNECTED, ENTER_NUMBER, FOLDER_EXISTS, INVALID_BASE, INVALID_MODE, INVALID_PICK,
    MENU_DIFFERENTIAL, MENU_HEAD, MENU_NEW, MENU_PROMPT, NAME_HEAD, NAME_PROMPT, NO_BACKUPS,
    NO_DIFFERENCES, NO_TIME, SUCCESSFUL,
};
use std::path::Path;

#[test]
fn say_and_warn_pick_the_stream() {
    assert_eq!(say("a".to_string()), Notice { stream: Stream::Output, text: "a".to_string() });
    assert_eq!(warn("b".to_string()), Notice { stream: Stream::Error, text: "b".to_string() });
}

#[test]
fn notices_are_gathered_in_order() {
    assert_eq!(silence(), Vec::<Notice>::new());
    let mut notices = only(say("one".to_string()));
    note(&mut notices, warn("two".to_string()));
    assert_eq!(notices, vec![say("one".to_string()), warn("two".to_string())]);
}

#[test]
fn a_list_is_numbered_from_one() {
    let mut notices = only(say("Pick:".to_string()));
    note_list(&mut notices, &vec!["jan".to_string(), "feb".to_string(), "mar".to_string()]);
    assert_eq!(
        notices,
        vec![
            say("Pick:".to_string()),
            say("1: jan".to_string()),
            say("2: feb".to_string()),
            say("3: mar".to_string()),
        ]
    );
    let mut notices = silence();
    note_list(&mut notices, &Vec::new());
    assert_eq!(notices, Vec::<Notice>::new());
}

#[test]
fn a_long_list_keeps_counting() {
    let names: Vec<String> = (0..12).map(|i| format!("b{}", i)).collect();
    let mut notices = silence();
    note_list(&mut notices, &names);
    assert_eq!(notices.len(), 12);
    assert_eq!(notices[9].text, "10: b9");
    assert_eq!(notices[11].text, "12: b11");
}

#[test]
fn the_fixed_words() {
    assert_eq!(BRIDGE_MISSING, "Error: ADB command not found.");
    assert_eq!(DISCONNECTED, "Error : Device is disconnected. Please check device connection.");
    assert_eq!(NO_BACKUPS, "No backups found.");
    assert_eq!(CHOOSE_INSTALL, "Select backup to install:");
    assert_eq!(CHOOSE_BASE, "Select base backup:");
    assert_eq!(ENTER_NUMBER, "Enter number: ");
    assert_eq!(INVALID_PICK, "Invalid selection. Please enter a valid number.");
    assert_eq!(INVALID_BASE, "Invalid selection.");
    assert_eq!(MENU_HEAD, "Select backup mode:");
    assert_eq!(MENU_NEW, "1. New Backup");
    assert_eq!(MENU_DIFFERENTIAL, "2. Differential Backup");
    assert_eq!(MENU_PROMPT, ": ");
    assert_eq!(INVALID_MODE, "Invalid choice. Please enter 1 or 2.");
    assert_eq!(NAME_HEAD, "Enter backup name (or leave empty for timestamp):");
    assert_eq!(NAME_PROMPT, "> ");
    assert_eq!(FOLDER_EXISTS, "Folder already exists. Try another name.");
    assert_eq!(NO_DIFFERENCES, "No package differences found for device.");
    assert_eq!(NO_TIME, "There is no time to name the backup by.");
    assert_eq!(SUCCESSFUL, "  \u{2713} Successful");
}

#[test]
fn words_about_the_command_line() {
    assert_eq!(usage("apkbackup"), "Usage: apkbackup <backup|install>");
    assert_eq!(usage(""), "Usage:  <backup|install>");
    assert_eq!(invalid_argument("restore"), "Invalid argument: restore");
}

#[test]
fn words_about_a_list() {
    assert_eq!(item(1, "jan"), "1: jan");
    assert_eq!(item(120, ""), "120: ");
}

#[test]
fn words_about_an_installation() {
    assert_eq!(no_apks("backup/b/com.a"), "No APKs found in \"backup/b/com.a\"");
    assert_eq!(installed("com.a"), "\u{2713} Installed package from \"com.a\"");
    assert_eq!(install_not_run("No such file"), "\u{2717} Failed to execute adb install: No such file");
    assert_eq!(
        install_failed("com.a", &b"  out \n".to_vec(), &b"\nerr\n\n".to_vec()),
        "\u{2717} Failed to install from \"com.a\"\nstdout: out\nstderr: err"
    );
    assert_eq!(
        install_failed("c", &Vec::new(), &vec![0x61, 0xff]),
        "\u{2717} Failed to install from \"c\"\nstdout: \nstderr: a\u{fffd}"
    );
}

#[test]
fn quoting_is_that_of_paths() {
    for name in [
        "plain", "with space", "quo\"te", "it's", "back\\slash", "tab\there", "new\nline", "é", "\u{7f}",
        "\u{200b}", "",
    ] {
        let quoted = format!("{:?}", Path::new(name));
        assert_eq!(installed(name), format!("\u{2713} Installed package from {}", quoted));
        assert_eq!(no_apks(name), format!("No APKs found in {}", quoted));
    }
}

#[test]
fn quoting_puts_quotes_around_and_escapes() {
    assert_eq!(no_apks("a\"b\\c"), "No APKs found in \"a\\\"b\\\\c\"");
    assert_eq!(installed("com.a"), "\u{2713} Installed package from \"com.a\"");
    assert_eq!(installed("it's"), format!("\u{2713} Installed package from {:?}", Path::new("it's").as_os_str()));
}

#[test]
fn words_about_a_backup() {
    assert_eq!(backing_up(1, 12, "com.a"), "Backing up 1 of 12 (com.a)");
    assert_eq!(failed("Package path not found"), "  \u{2717} Failed: Package path not found");
    assert_eq!(extracting(3), "    Extracting 3 APK file...");
    assert_eq!(extracting(0), "    Extracting 0 APK file...");
    assert_eq!(
        not_extracted("base.apk", &b"adb: error\n".to_vec()),
        "    Warning: Failed to extract base.apk : adb: error\n"
    );
    assert_eq!(not_created("base.apk"), "    Warning: base.apk was not created");
    assert_eq!(extracted(2, 10, "split.apk"), "      [2/10] split.apk");
}
