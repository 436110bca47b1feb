use koharu::cleanup::{
    cleanup_app_temp_files, cleanup_cleaner_temp_files, is_app_temp, is_cleaner_temp, DirEntry,
};

#[test]
fn marks_of_cleaner_tools() {
    for name in [
        "cudart64_12.dll_IObitDel",
        "a.dll_IObitDel_IObitDel_IObitDel",
        "x_IOBITDEL.tmp",
        "lib_rbu.dll",
        "LIB_RBU.DLL",
        "lib.dll_rbu",
        "a.$$$",
        "a.$$",
        "a.$",
        "~setup.dll",
        "~",
    ] {
        assert!(is_cleaner_temp(name), "{name}");
    }
}

#[test]
fn ordinary_names_are_kept() {
    for name in ["cudart64_12.dll", "a.dll", "rbu.dll", "lib_rbux.dll", "a$", "a~", "", "iobit"] {
        assert!(!is_cleaner_temp(name), "{name}");
    }
}

#[test]
fn iobit_may_come_by_many_times() {
    let mut name = "onnx.dll".to_string();
    for _ in 0..5 {
        name.push_str("_IObitDel");
        assert!(is_cleaner_temp(&name));
    }
}

#[test]
fn case_is_of_no_account() {
    for name in ["A_IobitDel", "x_RbU.y", "y.TmP", "z.JSON.tmp", "plain", "~q"] {
        let (low, high) = (name.to_ascii_lowercase(), name.to_ascii_uppercase());
        assert_eq!(is_cleaner_temp(&low), is_cleaner_temp(&high));
        assert_eq!(is_app_temp(true, &low), is_app_temp(true, &high));
    }
}

/// The marks after full Unicode lower-casing.
fn marked(name: &str) -> bool {
    let lower = name.to_lowercase();
    lower.contains("iobitdel")
        || lower.contains("_rbu.")
        || lower.ends_with("_rbu")
        || lower.ends_with(".$$$")
        || lower.ends_with(".$$")
        || lower.ends_with(".$")
        || name.starts_with('~')
}

#[test]
fn folding_ascii_letters_is_enough() {
    let letters = ['\u{130}', '\u{131}', '\u{212a}', '\u{3a3}', '\u{c5}', '\u{1e9e}', 'ไ', 'I', 'K'];
    let marks = ["iobitdel", "_rbu.x", "a_rbu", "a.$$$", "~a", "x.json.tmp", "x.tmp"];
    for mark in marks {
        let chars: Vec<char> = mark.chars().collect();
        for i in 0..=chars.len() {
            for letter in letters {
                let mut inserted = chars.clone();
                inserted.insert(i, letter);
                let mut replaced = chars.clone();
                if i < replaced.len() {
                    replaced[i] = letter;
                }
                for variant in [inserted, replaced] {
                    let name: String = variant.into_iter().collect();
                    assert_eq!(is_cleaner_temp(&name), marked(&name), "{name}");
                    let lower = name.to_lowercase();
                    let temp = lower.ends_with(".json.tmp") || lower.ends_with(".tmp");
                    assert_eq!(is_app_temp(true, &name), temp, "{name}");
                }
            }
        }
    }
}

#[test]
fn temporary_files_of_the_program() {
    assert!(is_app_temp(true, "ml-device.json.tmp"));
    assert!(is_app_temp(true, "X.TMP"));
    assert!(is_app_temp(true, ".tmp"));
    assert!(!is_app_temp(false, "dir.tmp"));
    assert!(!is_app_temp(true, "a.tmp.bak"));
    assert!(!is_app_temp(true, "tmp"));
}

#[test]
fn swept_names_are_listed_in_order() {
    let names: Vec<String> = ["a.dll", "b_IObitDel", "~c", "d.dll", "e.$"]
        .iter()
        .map(|name| name.to_string())
        .collect();
    assert_eq!(cleanup_cleaner_temp_files(&names), vec![1, 2, 4]);
    assert_eq!(cleanup_cleaner_temp_files(&Vec::new()), Vec::<usize>::new());
}

/// Sweeps a directory in memory; `true` marks a directory, which no removal of a file takes away.
fn sweep(dir: &[(String, bool)], stuck: &str) -> Vec<(String, bool)> {
    let names: Vec<String> = dir.iter().map(|(name, _)| name.clone()).collect();
    let picked = cleanup_cleaner_temp_files(&names);
    let mut left = Vec::new();
    for (i, (name, is_dir)) in dir.iter().enumerate() {
        let goes = picked.contains(&i) && !is_dir && name != stuck;
        if !goes {
            left.push((name.clone(), *is_dir));
        }
    }
    left
}

#[test]
fn directories_stay_and_a_second_sweep_finds_nothing() {
    let dir: Vec<(String, bool)> = [
        ("~x", true),
        ("~y", false),
        ("a.$$$", false),
        ("b_IObitDel", false),
        ("c.dll", false),
    ]
    .iter()
    .map(|(name, is_dir)| (name.to_string(), *is_dir))
    .collect();
    let left = sweep(&dir, "a.$$$");
    let names: Vec<&str> = left.iter().map(|(name, _)| name.as_str()).collect();
    assert_eq!(names, vec!["~x", "a.$$$", "c.dll"]);
    assert_eq!(sweep(&left, "a.$$$"), left);
}

#[test]
fn swept_entries_are_files() {
    let entry = |is_file: bool, name: &str| DirEntry { is_file, name: name.to_string() };
    let entries = vec![
        entry(true, "a.tmp"),
        entry(false, "b.tmp"),
        entry(true, "c.json"),
        entry(true, "d.json.TMP"),
    ];
    assert_eq!(cleanup_app_temp_files(&entries), vec![0, 3]);
    assert_eq!(cleanup_app_temp_files(&Vec::new()), Vec::<usize>::new());
}
