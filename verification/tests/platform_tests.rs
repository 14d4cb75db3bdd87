use mshwisper::platform::detect_env;

const TERMUX: &str = "Termux detected. Ensure you have: pkg install rust openssl";
const WINDOWS: &str = "Windows detected. Run in Windows Terminal for best color support.";

#[test]
fn termux_version_wins() {
    assert_eq!(detect_env(true, None, false), TERMUX);
    assert_eq!(detect_env(true, Some("/usr"), true), TERMUX);
}

#[test]
fn termux_prefix_is_found_anywhere() {
    assert_eq!(detect_env(false, Some("/data/data/com.termux/files/usr"), false), TERMUX);
    assert_eq!(detect_env(false, Some("termux"), true), TERMUX);
    assert_eq!(detect_env(false, Some("/opt/termu"), false), "");
    assert_eq!(detect_env(false, Some("termuX"), false), "");
    assert_eq!(detect_env(false, Some(""), false), "");
}

#[test]
fn windows_then_nothing() {
    assert_eq!(detect_env(false, Some("/usr/local"), true), WINDOWS);
    assert_eq!(detect_env(false, None, true), WINDOWS);
    assert_eq!(detect_env(false, None, false), "");
}
