use koharu::device::{
    enumerate_cuda_devices, get_ml_device_selection, is_cpu_selection, requested_device,
    save_error, selection_in, selection_or_auto, set_ml_device_config, SaveFault, CONFIG_FILE,
};
use koharu::text::is_white_space;

#[test]
fn stored_choice_is_read() {
    assert_eq!(CONFIG_FILE, "ml-device.json");
    assert_eq!(get_ml_device_selection(Some(r#"{"selection":"CUDA:1"}"#)), "CUDA:1");
    assert_eq!(get_ml_device_selection(Some(r#" { "x": 1, "selection": "CPU" } "#)), "CPU");
    assert_eq!(get_ml_device_selection(Some(r#"{"selection":""}"#)), "");
    assert_eq!(get_ml_device_selection(Some(r#"{"selection":"ไ\n"}"#)), "ไ\n");
}

#[test]
fn anything_else_means_auto() {
    assert_eq!(get_ml_device_selection(None), "AUTO");
    for content in ["", "{", "[]", "\"CPU\"", "{}", "null", r#"{"selection":1}"#, r#"{"Selection":"CPU"}"#] {
        assert_eq!(get_ml_device_selection(Some(content)), "AUTO", "{content}");
    }
}

#[test]
fn a_stored_choice_reads_back() {
    for choice in ["AUTO", "CPU", "CUDA:0", "", "a\"b\\c\n", "การ์ดจอ", "\u{0}\u{1f}\u{7f}"] {
        let content = set_ml_device_config(choice);
        assert_eq!(get_ml_device_selection(Some(&content)), choice);
    }
}

#[test]
fn the_file_is_pretty() {
    assert_eq!(set_ml_device_config("CPU"), "{\n  \"selection\": \"CPU\"\n}");
}

#[test]
fn the_choice_in_a_value() {
    let value: serde_json::Value = serde_json::from_str(r#"{"selection":"CPU"}"#).unwrap();
    assert_eq!(selection_in(&value), Some("CPU".to_string()));
    assert_eq!(selection_in(&serde_json::Value::Null), None);
    let inner: serde_json::Value = serde_json::from_str(r#"{"selection":{"selection":"x"}}"#).unwrap();
    assert_eq!(selection_in(&inner), None);
    assert_eq!(selection_or_auto(None), "AUTO");
    assert_eq!(selection_or_auto(Some("x".to_string())), "x");
}

#[test]
fn faults_of_storing() {
    assert_eq!(
        save_error(SaveFault::MakeDir, "denied"),
        "Failed to create APP_ROOT directory: denied"
    );
    assert_eq!(save_error(SaveFault::Write, "full"), "Failed to write ml-device.json: full");
}

#[test]
fn the_command_line_wins() {
    assert_eq!(requested_device(true, Some(r#"{"selection":"CUDA:0"}"#)), "CPU");
    assert_eq!(requested_device(false, Some(r#"{"selection":"CUDA:0"}"#)), "CUDA:0");
    assert_eq!(requested_device(false, None), "AUTO");
    assert!(is_cpu_selection("CPU"));
    assert!(!is_cpu_selection("cpu"));
    assert!(!is_cpu_selection("CPU "));
}

#[test]
fn gpus_are_numbered_in_order() {
    let output = b"NVIDIA GeForce RTX 3050\n\n  RTX 4090 \r\n".to_vec();
    assert_eq!(
        enumerate_cuda_devices(true, &output),
        vec![(0, "NVIDIA GeForce RTX 3050".to_string()), (1, "RTX 4090".to_string())]
    );
}

#[test]
fn no_gpus_without_a_good_answer() {
    assert!(enumerate_cuda_devices(false, &b"RTX\n".to_vec()).is_empty());
    assert!(enumerate_cuda_devices(true, &Vec::new()).is_empty());
    assert!(enumerate_cuda_devices(true, &b" \n\t\r\n\n".to_vec()).is_empty());
    assert!(enumerate_cuda_devices(true, &vec![b'R', 0xff, b'\n']).is_empty());
}

#[test]
fn lines_are_split_as_std_splits_them() {
    for text in ["a\nb", "a\r\nb\r\n", "\n\na\n", "a\rb\n c \u{3000}", "\u{85}x\u{2028}y\u{a0}", "ไทย\n"] {
        let expected: Vec<(usize, String)> = text
            .lines()
            .map(|line| line.trim())
            .filter(|line| !line.is_empty())
            .enumerate()
            .map(|(index, name)| (index, name.to_string()))
            .collect();
        assert_eq!(enumerate_cuda_devices(true, &text.as_bytes().to_vec()), expected, "{text:?}");
    }
}

#[test]
fn white_space_is_that_of_unicode() {
    for code in 0..=0x10ffffu32 {
        if let Some(c) = char::from_u32(code) {
            assert_eq!(is_white_space(c), c.is_whitespace(), "{code:x}");
        }
    }
}
