use meshbbs::restart::restart_command_line;

#[test]
fn restart_line_repeats_executable_and_arguments() {
    let args = vec!["start".to_string(), "--port".to_string(), "/dev/ttyUSB0".to_string()];
    assert_eq!(
        restart_command_line("/usr/bin/meshbbs", &args),
        "(sleep 3; '/usr/bin/meshbbs' 'start' '--port' '/dev/ttyUSB0' > meshbbs.log 2>&1) &"
    );
    assert_eq!(restart_command_line("/bin/x", &[]), "(sleep 3; '/bin/x' > meshbbs.log 2>&1) &");
}

#[test]
fn restart_arguments_stay_whole() {
    let one = restart_command_line("/bin/x", &["a b".to_string()]);
    let two = restart_command_line("/bin/x", &["a".to_string(), "b".to_string()]);
    assert_ne!(one, two);
    assert_eq!(one, "(sleep 3; '/bin/x' 'a b' > meshbbs.log 2>&1) &");
    assert_eq!(
        restart_command_line("/bin/x", &["it's".to_string(), "$HOME".to_string()]),
        "(sleep 3; '/bin/x' 'it'\\''s' '$HOME' > meshbbs.log 2>&1) &"
    );
}
