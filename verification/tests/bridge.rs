use apk_backup::bridge::{
    device_connected, device_listed, devices_arguments, install_arguments, list_arguments,
    package_paths, parse_entries, path_arguments, pull_arguments, third_party_packages,
    version_arguments, Output,
};
use apk_backup::failure::{Failure, FailureKind};

fn owned(items: &[&str]) -> Vec<String> {
    items.iter().map(|s| s.to_string()).collect()
}

fn ran(success: bool, stdout: &[u8], stderr: &[u8]) -> Output {
    Output { success, stdout: stdout.to_vec(), stderr: stderr.to_vec() }
}

fn failure_of(r: Result<Vec<String>, Failure>) -> (FailureKind, String) {
    match r {
        Ok(names) => panic!("no failure: {:?}", names),
        Err(f) => (f.kind, f.detail),
    }
}

#[test]
fn arguments_of_the_fixed_commands() {
    assert_eq!(version_arguments(), owned(&["version"]));
    assert_eq!(devices_arguments(), owned(&["devices"]));
    assert_eq!(list_arguments(), owned(&["shell", "pm", "list", "packages", "-3"]));
}

#[test]
fn arguments_that_name_something() {
    assert_eq!(path_arguments("com.example"), owned(&["shell", "pm", "path", "com.example"]));
    assert_eq!(
        pull_arguments("/data/app/x/base.apk", "backup/b/com.example/base.apk"),
        owned(&["pull", "/data/app/x/base.apk", "backup/b/com.example/base.apk"])
    );
}

#[test]
fn one_file_is_installed_alone() {
    assert_eq!(install_arguments(&owned(&["backup/b/p/base.apk"])), owned(&["install", "backup/b/p/base.apk"]));
}

#[test]
fn several_files_are_installed_together() {
    assert_eq!(
        install_arguments(&owned(&["p/base.apk", "p/split_config.en.apk"])),
        owned(&["install-multiple", "p/base.apk", "p/split_config.en.apk"])
    );
    assert_eq!(install_arguments(&Vec::new()), owned(&["install-multiple"]));
}

#[test]
fn a_ready_device_is_listed() {
    assert!(device_listed("List of devices attached\nemulator-5554\tdevice\n\n"));
    assert!(device_listed("List of devices attached\r\nR58M123\tdevice\r\n"));
    assert!(device_listed("a\tdevice\nb"));
}

#[test]
fn no_device_is_listed() {
    assert!(!device_listed("List of devices attached\n\n"));
    assert!(!device_listed("List of devices attached\nemulator-5554\toffline\n"));
    assert!(!device_listed("List of devices attached\nemulator-5554 device\n"));
    assert!(!device_listed(""));
}

#[test]
fn a_single_line_lists_no_device() {
    assert!(!device_listed("emulator-5554\tdevice"));
    assert!(!device_listed("emulator-5554\tdevice\n"));
}

#[test]
fn an_unauthorized_device_still_bears_the_mark() {
    assert!(device_listed("List of devices attached\nX\tdevice unauthorized\n"));
}

#[test]
fn device_connected_reads_the_output_whatever_the_status() {
    let listing = b"List of devices attached\nemulator-5554\tdevice\n";
    assert!(device_connected(Some(&ran(true, listing, b""))));
    assert!(device_connected(Some(&ran(false, listing, b"warning"))));
    assert!(!device_connected(Some(&ran(true, b"List of devices attached\n", b""))));
    assert!(!device_connected(None));
}

#[test]
fn device_connected_bears_with_ill_formed_bytes() {
    let listing = b"List \xff of devices\n\xfe\tdevice\n";
    assert!(device_connected(Some(&ran(true, listing, b""))));
}

#[test]
fn entries_are_the_marked_lines() {
    let text = "package:com.a\npackage:com.b\r\nnoise\n  package:com.c\npackage: com.d \n";
    assert_eq!(parse_entries(text), owned(&["com.a", "com.b", "com.d"]));
}

#[test]
fn entries_lose_the_leading_mark_only() {
    assert_eq!(
        parse_entries("package:/data/app/package:x/base.apk"),
        owned(&["/data/app/package:x/base.apk"])
    );
    assert_eq!(parse_entries("package:package:com.a\n"), owned(&["package:com.a"]));
    assert_eq!(parse_entries("package:  com.a\t\npackage:\u{3000}com.b"), owned(&["com.a", "com.b"]));
    assert_eq!(parse_entries("package:"), owned(&[""]));
    assert_eq!(parse_entries(""), Vec::<String>::new());
    assert_eq!(parse_entries("Package:com.a\n"), Vec::<String>::new());
}

#[test]
fn packages_of_a_good_run() {
    let r = third_party_packages(ran(true, b"package:com.a\npackage:com.b\n", b""));
    assert_eq!(r.ok(), Some(owned(&["com.a", "com.b"])));
    let r = third_party_packages(ran(true, b"", b"ignored"));
    assert_eq!(r.ok(), Some(Vec::new()));
}

#[test]
fn packages_of_a_failed_run() {
    let r = third_party_packages(ran(false, b"package:com.a\n", b"error: no devices/emulators found\n"));
    let (kind, detail) = failure_of(r);
    assert_eq!(kind, FailureKind::ListingFailed);
    assert_eq!(detail, "error: no devices/emulators found\n");
}

#[test]
fn packages_of_a_failed_run_with_ill_formed_words() {
    let r = third_party_packages(ran(false, b"", b"bad \xff byte"));
    let (kind, detail) = failure_of(r);
    assert_eq!(kind, FailureKind::ListingFailed);
    assert_eq!(detail, "bad \u{fffd} byte");
}

#[test]
fn packages_of_unreadable_output() {
    let r = third_party_packages(ran(true, b"package:com.\xff\n", b""));
    let (kind, detail) = failure_of(r);
    assert_eq!(kind, FailureKind::UnreadableOutput);
    assert_eq!(detail, "invalid utf-8 sequence of 1 bytes from index 12");
}

#[test]
fn unreadable_output_is_told_in_the_words_of_std() {
    for bytes in [&b"\xff"[..], b"ab\xc3", b"ok\xe2\x82", b"\xf0\x9f\x98x", b"a\xc0\x80", b"\xed\xa0\x80"] {
        let expected = String::from_utf8(bytes.to_vec()).unwrap_err().to_string();
        let (kind, detail) = failure_of(third_party_packages(ran(true, bytes, b"")));
        assert_eq!(kind, FailureKind::UnreadableOutput);
        assert_eq!(detail, expected);
        let (kind, detail) = failure_of(package_paths(ran(true, bytes, b"")));
        assert_eq!(kind, FailureKind::UnreadableOutput);
        assert_eq!(detail, expected);
    }
}

#[test]
fn paths_of_a_good_run() {
    let r = package_paths(ran(true, b"package:/data/app/x/base.apk\npackage:/data/app/x/split_config.en.apk\n", b""));
    assert_eq!(r.ok(), Some(owned(&["/data/app/x/base.apk", "/data/app/x/split_config.en.apk"])));
}

#[test]
fn paths_keep_a_mark_that_does_not_lead() {
    let r = package_paths(ran(true, b"package:/data/app/package:x/base.apk\n", b""));
    assert_eq!(r.ok(), Some(owned(&["/data/app/package:x/base.apk"])));
}

#[test]
fn paths_of_a_failed_run() {
    let (kind, detail) = failure_of(package_paths(ran(false, b"", b"Exception occurred")));
    assert_eq!(kind, FailureKind::PathQueryFailed);
    assert_eq!(detail, "Exception occurred");
}

#[test]
fn paths_that_are_missing() {
    let (kind, _) = failure_of(package_paths(ran(true, b"", b"")));
    assert_eq!(kind, FailureKind::PathNotFound);
    let (kind, _) = failure_of(package_paths(ran(true, b"nothing here\n", b"")));
    assert_eq!(kind, FailureKind::PathNotFound);
}

#[test]
fn paths_of_unreadable_output() {
    let (kind, detail) = failure_of(package_paths(ran(true, b"\xc3\x28", b"")));
    assert_eq!(kind, FailureKind::UnreadableOutput);
    assert_eq!(detail, "invalid utf-8 sequence of 1 bytes from index 0");
}

#[test]
fn multibyte_output_is_decoded() {
    let r = third_party_packages(ran(true, "package:com.é.ü\n".as_bytes(), b""));
    assert_eq!(r.ok(), Some(owned(&["com.é.ü"])));
}
