use puff::shell::Shell;

fn flag_of(path: &str) -> String {
    Shell(path.to_string()).get_command_arg()
}

#[test]
fn posix_shells_take_dash_c() {
    assert_eq!(flag_of("sh"), "-c");
    assert_eq!(flag_of("bash"), "-c");
    assert_eq!(flag_of("/usr/bin/zsh"), "-c");
    assert_eq!(flag_of("/bin/fish"), "-c");
}

#[test]
fn windows_command_shell_takes_slash_c() {
    assert_eq!(flag_of("cmd"), "/C");
    assert_eq!(flag_of("cmd.exe"), "/C");
    assert_eq!(flag_of("C:\\Windows\\System32\\cmd.exe"), "/C");
}

#[test]
fn powershell_takes_slash_command() {
    assert_eq!(flag_of("powershell"), "/Command");
    assert_eq!(flag_of("powershell.exe"), "/Command");
    assert_eq!(flag_of("C:\\tools\\powershell.exe"), "/Command");
}

#[test]
fn unknown_shell_falls_back_to_dash_c() {
    assert_eq!(flag_of("nushell"), "-c");
    assert_eq!(flag_of(""), "-c");
    assert_eq!(flag_of("a/"), "-c");
}
