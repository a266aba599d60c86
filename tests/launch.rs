use vmi_pipeline::launch::{launch_environment, split_arguments, LAYER_NAME};
use vmi_pipeline::naming::{database_file_name, Timestamp};

#[test]
fn arguments_split_on_white_space() {
    assert_eq!(split_arguments("--width 800\t--height  600\n"), vec!["--width", "800", "--height", "600"]);
    assert_eq!(split_arguments("  single  "), vec!["single"]);
    assert_eq!(split_arguments("a\u{3000}b"), vec!["a", "b"]);
}

#[test]
fn empty_command_line_has_no_arguments() {
    assert!(split_arguments("").is_empty());
    assert!(split_arguments(" \t \n").is_empty());
}

#[test]
fn launch_environment_names_layer() {
    let env = launch_environment("/opt/vmi/VK_LAYER_vmi.json", false);
    let expected: Vec<(String, String)> = vec![
        ("VK_ADD_IMPLICIT_LAYER_PATH", "/opt/vmi/VK_LAYER_vmi.json"),
        ("VK_LAYERS_ALLOW_ENV_VAR", "1"),
        ("VK_INSTANCE_LAYERS", LAYER_NAME),
        ("VK_LOADER_LAYERS_ENABLE", LAYER_NAME),
        ("ENABLE_VMI_LAYER", "1"),
    ]
    .into_iter()
    .map(|(k, v)| (k.to_string(), v.to_string()))
    .collect();
    assert_eq!(env, expected);
    assert_eq!(LAYER_NAME, "VK_LAYER_AV_vmi");
}

#[test]
fn launch_environment_with_loader_debug() {
    let env = launch_environment("x", true);
    assert_eq!(env.len(), 6);
    assert_eq!(env[5], ("VK_LOADER_DEBUG".to_string(), "all".to_string()));
}

fn stamp(year: i32, month: u32, day: u32) -> Timestamp {
    Timestamp { year, month, day, hour: 7, minute: 8, second: 9, millisecond: 12 }
}

#[test]
fn store_name_from_timestamp() {
    let t = Timestamp { year: 2024, month: 3, day: 5, hour: 17, minute: 4, second: 59, millisecond: 987 };
    assert!(t.is_valid());
    assert_eq!(database_file_name(&t), "2024-03-05_17-04-59-987.vmi");
}

#[test]
fn store_name_pads_every_field() {
    let t = stamp(987, 1, 2);
    assert!(t.is_valid());
    assert_eq!(database_file_name(&t), "0987-01-02_07-08-09-012.vmi");
}

#[test]
fn timestamp_validity_follows_calendar() {
    assert!(stamp(2024, 2, 29).is_valid());
    assert!(!stamp(2023, 2, 29).is_valid());
    assert!(!stamp(1900, 2, 29).is_valid());
    assert!(stamp(2000, 2, 29).is_valid());
    assert!(!stamp(2024, 4, 31).is_valid());
    assert!(!stamp(2024, 13, 1).is_valid());
    assert!(!stamp(2024, 1, 0).is_valid());
    assert!(!stamp(10000, 1, 1).is_valid());
    let mut t = stamp(2024, 1, 1);
    t.millisecond = 1000;
    assert!(!t.is_valid());
}
