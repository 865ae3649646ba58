use apk_backup::names::{
    apk_paths, available_name, file_name, is_apk, is_within, join, numbered_name,
};
use std::path::Path;

fn owned(items: &[&str]) -> Vec<String> {
    items.iter().map(|s| s.to_string()).collect()
}

#[test]
fn file_name_is_the_last_component() {
    assert_eq!(file_name("/data/app/~~Zq==/com.example-1a==/base.apk"), Some("base.apk".to_string()));
    assert_eq!(file_name("base.apk"), Some("base.apk".to_string()));
    assert_eq!(file_name("/data/app/split_config.en.apk"), Some("split_config.en.apk".to_string()));
}

#[test]
fn file_name_skips_empty_components_and_dots() {
    assert_eq!(file_name("a/b/"), Some("b".to_string()));
    assert_eq!(file_name("a/b//"), Some("b".to_string()));
    assert_eq!(file_name("a/b/."), Some("b".to_string()));
    assert_eq!(file_name("a/./"), Some("a".to_string()));
    assert_eq!(file_name("./a"), Some("a".to_string()));
    assert_eq!(file_name("a/.../"), Some("...".to_string()));
    assert_eq!(file_name(".hidden"), Some(".hidden".to_string()));
}

#[test]
fn file_name_is_missing_without_a_component() {
    assert_eq!(file_name(""), None);
    assert_eq!(file_name("/"), None);
    assert_eq!(file_name("//"), None);
    assert_eq!(file_name("."), None);
    assert_eq!(file_name("./"), None);
    assert_eq!(file_name("/."), None);
    assert_eq!(file_name("./."), None);
}

#[test]
fn file_name_is_missing_after_two_dots() {
    assert_eq!(file_name(".."), None);
    assert_eq!(file_name("a/.."), None);
    assert_eq!(file_name("a/../"), None);
    assert_eq!(file_name("a/../."), None);
    assert_eq!(file_name("/.."), None);
}

#[test]
fn file_name_agrees_with_std_paths() {
    let cases = [
        "", "/", ".", "..", "a", "a/", "/a", "a/b", "a//b", "a/./b", "a/b/.", "a/b/..", "./.",
        "../a", "a/..b", "a/b..", "a/.b/", "/data/app/é/ü.apk", "a\\b", "C:\\x\\y.apk", "a/b/./.",
        "a/b/././/", ".../..", "../...",
    ];
    for p in cases {
        let expected = Path::new(p).file_name().map(|f| f.to_string_lossy().into_owned());
        assert_eq!(file_name(p), expected, "{:?}", p);
    }
}

#[test]
fn is_apk_reads_the_extension() {
    assert!(is_apk("base.apk"));
    assert!(is_apk("split_config.arm64_v8a.apk"));
    assert!(is_apk("a.apk"));
    assert!(is_apk("..apk"));
    assert!(!is_apk(".apk"));
    assert!(!is_apk("apk"));
    assert!(!is_apk("base.APK"));
    assert!(!is_apk("base.apk "));
    assert!(!is_apk("base.apk.bak"));
    assert!(!is_apk("base.apks"));
    assert!(!is_apk("base."));
    assert!(!is_apk(""));
    assert!(!is_apk(".."));
}

#[test]
fn is_apk_agrees_with_std_paths() {
    for name in ["base.apk", ".apk", "x.apk", "apk", "a.b.apk", "a.apk.", "..apk", "...apk", "a.ap", "a.apkk", "é.apk"] {
        let expected = Path::new(name).extension().map(|e| e == "apk").unwrap_or(false);
        assert_eq!(is_apk(name), expected, "{:?}", name);
    }
}

#[test]
fn numbered_name_puts_the_number_before_the_extension() {
    assert_eq!(numbered_name("base.apk", 1), "base_1.apk");
    assert_eq!(numbered_name("split_config.en.apk", 12), "split_config.en_12.apk");
    assert_eq!(numbered_name("base", 3), "base_3");
    assert_eq!(numbered_name(".hidden", 2), ".hidden_2");
    assert_eq!(numbered_name("base.", 4), "base_4.");
    assert_eq!(numbered_name("", 0), "_0");
    assert_eq!(numbered_name("..", 5), ".._5");
    assert_eq!(numbered_name("a.b", usize::MAX), format!("a_{}.b", usize::MAX));
}

#[test]
fn numbered_name_agrees_with_std_paths() {
    for name in ["base.apk", "a.b.c", "noext", ".hidden", "trail.", "é.ü", "..x", "..."] {
        for n in [1usize, 2, 10, 123] {
            let path = Path::new(name);
            let stem = path.file_stem().unwrap().to_string_lossy();
            let extension = path
                .extension()
                .map(|ext| format!(".{}", ext.to_string_lossy()))
                .unwrap_or_default();
            assert_eq!(numbered_name(name, n), format!("{}_{}{}", stem, n, extension), "{:?}", name);
        }
    }
}

#[test]
fn numbered_name_keeps_the_extension() {
    for name in ["base.apk", "a.b.c", "noext", ".hidden", "trail."] {
        let made = numbered_name(name, 7);
        assert_ne!(made, name);
        assert_eq!(Path::new(&made).extension(), Path::new(name).extension(), "{:?}", name);
    }
}

#[test]
fn available_name_keeps_a_free_name() {
    assert_eq!(available_name("base.apk", 1, &owned(&[])), Some("base.apk".to_string()));
    assert_eq!(available_name("base.apk", 1, &owned(&["other.apk", "base_1.apk"])), Some("base.apk".to_string()));
}

#[test]
fn available_name_numbers_a_taken_name() {
    assert_eq!(available_name("base.apk", 1, &owned(&["base.apk"])), Some("base_1.apk".to_string()));
    assert_eq!(available_name("base.apk", 3, &owned(&["base.apk"])), Some("base_3.apk".to_string()));
    assert_eq!(available_name("base", 2, &owned(&["base"])), Some("base_2".to_string()));
}

#[test]
fn available_name_passes_over_taken_numbers() {
    let taken = owned(&["base.apk", "base_1.apk", "base_2.apk", "base_4.apk"]);
    assert_eq!(available_name("base.apk", 1, &taken), Some("base_3.apk".to_string()));
    assert_eq!(available_name("base.apk", 2, &taken), Some("base_3.apk".to_string()));
    assert_eq!(available_name("base.apk", 4, &taken), Some("base_5.apk".to_string()));
}

#[test]
fn available_name_never_collides() {
    let mut taken: Vec<String> = Vec::new();
    for _ in 0..20 {
        let name = available_name("split.apk", 1, &taken).unwrap();
        assert!(!taken.contains(&name));
        taken.push(name);
    }
    assert_eq!(taken[0], "split.apk");
    assert_eq!(taken[1], "split_1.apk");
    assert_eq!(taken[19], "split_19.apk");
}

#[test]
fn available_name_runs_out_of_numbers() {
    let last = format!("base_{}.apk", usize::MAX);
    let taken = vec!["base.apk".to_string(), last];
    assert_eq!(available_name("base.apk", usize::MAX, &taken), None);
    let before = format!("base_{}.apk", usize::MAX - 1);
    let taken = vec!["base.apk".to_string(), before];
    assert_eq!(available_name("base.apk", usize::MAX - 1, &taken), Some(format!("base_{}.apk", usize::MAX)));
}

#[test]
fn join_puts_a_slash_between() {
    assert_eq!(join("backup", "20240102030405"), "backup/20240102030405");
    assert_eq!(join("backup/x", "com.a"), "backup/x/com.a");
    assert_eq!(join("backup/", "x"), "backup/x");
    assert_eq!(join("", "x"), "x");
    assert_eq!(join("backup", ""), "backup/");
    assert_eq!(join("backup", "/abs/x"), "/abs/x");
    assert_eq!(join("backup", "a/b"), "backup/a/b");
}

#[test]
fn join_agrees_with_std_paths() {
    for (base, name) in [("backup", "x"), ("backup/", "x"), ("", "x"), ("backup", ""), ("backup", "/x"), ("a/b", "c/d"), ("/", "x"), ("a", "../b"), ("", "")] {
        let expected = Path::new(base).join(name).to_string_lossy().into_owned();
        assert_eq!(join(base, name), expected, "{:?} {:?}", base, name);
    }
}

#[test]
fn apk_paths_keeps_installer_files_in_order() {
    let names = owned(&["split.apk", "notes.txt", "base.apk", ".apk", "x.APK"]);
    assert_eq!(apk_paths("backup/b/com.a", &names), owned(&["backup/b/com.a/split.apk", "backup/b/com.a/base.apk"]));
    assert_eq!(apk_paths("backup/b/com.a", &owned(&["readme"])), Vec::<String>::new());
    assert_eq!(apk_paths("d", &Vec::new()), Vec::<String>::new());
}

#[test]
fn is_within_takes_the_folder_and_what_lies_below() {
    assert!(is_within("backup/feb", "backup/feb"));
    assert!(is_within("backup/feb/com.a", "backup/feb"));
    assert!(is_within("backup/feb/com.a/base.apk", "backup/feb"));
    assert!(is_within("backup/feb/", "backup/feb"));
    assert!(is_within("", ""));
    assert!(is_within("/x", ""));
}

#[test]
fn is_within_leaves_out_what_lies_beside() {
    assert!(!is_within("backup/february", "backup/feb"));
    assert!(!is_within("backup/fe", "backup/feb"));
    assert!(!is_within("backup", "backup/feb"));
    assert!(!is_within("backup/mar/feb", "backup/feb"));
    assert!(!is_within("/backup/feb", "backup/feb"));
    assert!(!is_within("x", ""));
}

#[test]
fn file_names_and_free_names_hold_no_slash() {
    for path in ["/data/app/a/base.apk", "a//b/./", "x", "/a/b.c.d"] {
        let name = file_name(path).unwrap();
        assert!(!name.is_empty() && !name.contains('/'), "{:?}", name);
        let taken = vec![name.clone(), numbered_name(&name, 1)];
        let free = available_name(&name, 1, &taken).unwrap();
        assert!(!free.is_empty() && !free.contains('/'), "{:?}", free);
    }
}
