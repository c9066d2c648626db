use fileforge::shell::{launch_command, menu_action, starts_hidden, used_space, TrayCommand};

#[test]
fn hidden_flag_is_found_among_arguments() {
    let args = |v: &[&str]| v.iter().map(|s| s.to_string()).collect::<Vec<_>>();
    assert!(starts_hidden(&args(&["app", "--hidden"])));
    assert!(!starts_hidden(&args(&["app", "--hidden=1", "-hidden"])));
    assert!(!starts_hidden(&Vec::new()));
}

#[test]
fn launch_command_quotes_executable() {
    assert_eq!(launch_command("C:\\Program Files\\FileForge\\ff.exe"), "\"C:\\Program Files\\FileForge\\ff.exe\" --hidden");
    assert_eq!(launch_command(""), "\"\" --hidden");
}

#[test]
fn tray_menu_entries() {
    assert_eq!(menu_action("show"), TrayCommand::ShowWindow);
    assert_eq!(menu_action("quit"), TrayCommand::Quit);
    assert_eq!(menu_action("Show"), TrayCommand::Nothing);
    assert_eq!(menu_action(""), TrayCommand::Nothing);
}

#[test]
fn used_space_is_size_less_available() {
    assert_eq!(used_space(1000, 250), 750);
    assert_eq!(used_space(1000, 1000), 0);
    assert_eq!(used_space(100, 250), 0);
}
