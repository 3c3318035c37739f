use ntp_client::autostart::{
    dot_to_dash, get_launchdaemon_path, get_systemd_service_path, user_declined,
};
use ntp_client::stats::factorial;

#[test]
fn the_launch_daemon_descriptor_path_is_fixed() {
    assert_eq!(
        get_launchdaemon_path(),
        "/Library/LaunchDaemons/com.exptech.ntp-client.plist"
    );
}

#[test]
fn the_systemd_unit_path_dashes_the_label() {
    assert_eq!(
        get_systemd_service_path(),
        "/etc/systemd/system/com-exptech-ntp-client.service"
    );
}

#[test]
fn dots_turn_to_dashes() {
    assert_eq!(dot_to_dash("a.b.c"), "a-b-c");
    assert_eq!(dot_to_dash(""), "");
    assert_eq!(dot_to_dash("nodots"), "nodots");
}

#[test]
fn a_declined_prompt_is_recognized() {
    assert!(user_declined("execution error: User canceled. (-128)"));
    assert!(user_declined("osascript: exit -128"));
    assert!(!user_declined("some other failure"));
    assert!(!user_declined(""));
}

#[test]
fn factorials_have_their_exact_values() {
    assert_eq!(factorial(0), 1);
    assert_eq!(factorial(1), 1);
    assert_eq!(factorial(5), 120);
    assert_eq!(factorial(12), 479_001_600);
}
