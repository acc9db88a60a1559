use textswitch::launch::{background_launch, config_setup, ConfigSetup};

fn args(list: &[&str]) -> Vec<String> {
    list.iter().map(|s| s.to_string()).collect()
}

#[test]
fn background_flags_after_program_name() {
    assert!(background_launch(&args(&["textswitch", "--startup"])));
    assert!(background_launch(&args(&["textswitch", "x", "--minimized"])));
    assert!(background_launch(&args(&["textswitch", "--background"])));
    assert!(!background_launch(&args(&["--background"])));
    assert!(!background_launch(&args(&["textswitch", "--Background"])));
    assert!(!background_launch(&args(&[])));
}

#[test]
fn config_setup_choices() {
    assert_eq!(config_setup(true, true), ConfigSetup::UseExisting);
    assert_eq!(config_setup(true, false), ConfigSetup::UseExisting);
    assert_eq!(config_setup(false, true), ConfigSetup::CopyLegacy);
    assert_eq!(config_setup(false, false), ConfigSetup::WriteExample);
}
