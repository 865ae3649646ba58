use apk_backup::choice::{backup_mode, invocation, selection, BackupMode, Invocation};
use apk_backup::failure::{Failure, FailureKind};
use apk_backup::plan::{folder_name, packages_to_backup};

fn owned(items: &[&str]) -> Vec<String> {
    items.iter().map(|s| s.to_string()).collect()
}

#[test]
fn invocation_reads_the_first_argument() {
    assert_eq!(invocation(&owned(&["tool", "backup"])), Invocation::Backup);
    assert_eq!(invocation(&owned(&["tool", "install"])), Invocation::Install);
    assert_eq!(invocation(&owned(&["tool", "install", "extra"])), Invocation::Install);
}

#[test]
fn invocation_without_an_argument() {
    assert_eq!(invocation(&owned(&["tool"])), Invocation::Missing);
    assert_eq!(invocation(&Vec::new()), Invocation::Missing);
}

#[test]
fn invocation_with_another_argument() {
    assert_eq!(invocation(&owned(&["tool", "restore"])), Invocation::Unknown);
    assert_eq!(invocation(&owned(&["tool", "Backup"])), Invocation::Unknown);
    assert_eq!(invocation(&owned(&["tool", " backup"])), Invocation::Unknown);
    assert_eq!(invocation(&owned(&["tool", ""])), Invocation::Unknown);
}

#[test]
fn backup_mode_reads_one_or_two() {
    assert_eq!(backup_mode("1\n"), Some(BackupMode::New));
    assert_eq!(backup_mode(" 2 \r\n"), Some(BackupMode::Differential));
    assert_eq!(backup_mode("1"), Some(BackupMode::New));
}

#[test]
fn backup_mode_takes_nothing_else() {
    assert_eq!(backup_mode(""), None);
    assert_eq!(backup_mode("\n"), None);
    assert_eq!(backup_mode("3\n"), None);
    assert_eq!(backup_mode("01\n"), None);
    assert_eq!(backup_mode("+1\n"), None);
    assert_eq!(backup_mode("1 2\n"), None);
    assert_eq!(backup_mode("new\n"), None);
}

#[test]
fn selection_counts_from_one() {
    assert_eq!(selection("1\n", 3), Some(0));
    assert_eq!(selection("3\n", 3), Some(2));
    assert_eq!(selection("  2  \n", 3), Some(1));
    assert_eq!(selection("+2\n", 3), Some(1));
    assert_eq!(selection("002\n", 3), Some(1));
}

#[test]
fn selection_stays_within_the_list() {
    assert_eq!(selection("0\n", 3), None);
    assert_eq!(selection("4\n", 3), None);
    assert_eq!(selection("1\n", 0), None);
    assert_eq!(selection("99999999999999999999999999\n", 3), None);
}

#[test]
fn selection_takes_numbers_only() {
    assert_eq!(selection("\n", 3), None);
    assert_eq!(selection("", 3), None);
    assert_eq!(selection("one\n", 3), None);
    assert_eq!(selection("-1\n", 3), None);
    assert_eq!(selection("1.0\n", 3), None);
    assert_eq!(selection("1 2\n", 3), None);
}

#[test]
fn selection_reaches_the_largest_count() {
    let line = format!("{}\n", usize::MAX);
    assert_eq!(selection(&line, usize::MAX), Some(usize::MAX - 1));
}

#[test]
fn packages_to_backup_is_the_difference() {
    let device = owned(&["com.a", "com.b", "com.c", "com.d"]);
    let base = owned(&["com.b", "com.d", "com.z"]);
    assert_eq!(packages_to_backup(&device, &base), owned(&["com.a", "com.c"]));
}

#[test]
fn packages_to_backup_without_a_base() {
    let device = owned(&["com.b", "com.a"]);
    assert_eq!(packages_to_backup(&device, &Vec::new()), device);
    assert_eq!(packages_to_backup(&Vec::new(), &device), Vec::<String>::new());
    assert_eq!(packages_to_backup(&device, &device), Vec::<String>::new());
}

#[test]
fn packages_to_backup_keeps_order_and_repeats() {
    let device = owned(&["com.c", "com.a", "com.c", "com.b"]);
    let base = owned(&["com.a"]);
    assert_eq!(packages_to_backup(&device, &base), owned(&["com.c", "com.c", "com.b"]));
}

#[test]
fn packages_to_backup_as_sets() {
    let device = owned(&["p1", "p2", "p3", "p4", "p5"]);
    let base = owned(&["p2", "p4", "q"]);
    let result = packages_to_backup(&device, &base);
    for p in &device {
        assert_eq!(result.contains(p), !base.contains(p));
    }
    for p in &result {
        assert!(device.contains(p) && !base.contains(p));
    }
}

#[test]
fn packages_to_backup_compares_whole_names() {
    let device = owned(&["com.a", "com.a.b", "COM.A"]);
    let base = owned(&["com.a.b.c", "com", "com.a "]);
    assert_eq!(packages_to_backup(&device, &base), device);
}

#[test]
fn folder_name_defaults_to_the_time() {
    assert_eq!(folder_name("\n", "20240102030405"), ("20240102030405".to_string(), false));
    assert_eq!(folder_name("", "20240102030405"), ("20240102030405".to_string(), false));
    assert_eq!(folder_name("  \t\r\n", "20240102030405"), ("20240102030405".to_string(), false));
}

#[test]
fn folder_name_takes_the_answer() {
    assert_eq!(folder_name("phone\n", "20240102030405"), ("phone".to_string(), true));
    assert_eq!(folder_name("  my phone \n", "20240102030405"), ("my phone".to_string(), true));
}

#[test]
fn folder_name_puts_the_time_in() {
    assert_eq!(folder_name("pixel-$date\n", "20240102030405"), ("pixel-20240102030405".to_string(), true));
    assert_eq!(folder_name("$date$date\n", "7"), ("77".to_string(), true));
    assert_eq!(folder_name("$date\n", "20240102030405"), ("20240102030405".to_string(), true));
    assert_eq!(folder_name("$Date $dat\n", "7"), ("$Date $dat".to_string(), true));
}

#[test]
fn messages_of_failures() {
    assert_eq!(Failure::with(FailureKind::ListingFailed, "no device".to_string()).message(), "adb command failed: no device");
    assert_eq!(Failure::with(FailureKind::PathQueryFailed, "boom".to_string()).message(), "Failed to get package path: boom");
    assert_eq!(Failure::of(FailureKind::PathNotFound).message(), "Package path not found");
    assert_eq!(Failure::of(FailureKind::NoFileName).message(), "Failed to get APK file name.");
    assert_eq!(Failure::of(FailureKind::RootMissing).message(), "Backup directory not found. Please run with 'backup' first.");
    assert_eq!(Failure::with(FailureKind::Host, "Permission denied (os error 13)".to_string()).message(), "Permission denied (os error 13)");
    assert_eq!(
        Failure::with(FailureKind::UnreadableOutput, "invalid utf-8 sequence of 1 bytes from index 3".to_string())
            .message(),
        "invalid utf-8 sequence of 1 bytes from index 3"
    );
    assert_eq!(Failure::of(FailureKind::NoFreeName).message(), "No free name for the APK file.");
    assert_eq!(Failure::of(FailureKind::InsideBase).message(), "The base backup must stay as it is.");
    assert_eq!(Failure::of(FailureKind::Unexpected).message(), "The host gave a reply that was not asked for.");
}

#[test]
fn failures_keep_their_parts() {
    let f = Failure::with(FailureKind::Host, "x".to_string());
    assert_eq!(f.kind, FailureKind::Host);
    assert_eq!(f.detail, "x");
    let f = Failure::of(FailureKind::NoFileName);
    assert_eq!(f.kind, FailureKind::NoFileName);
    assert_eq!(f.detail, "");
}
