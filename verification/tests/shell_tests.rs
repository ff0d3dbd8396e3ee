use sample_terminal::shell::{has_nul_byte, login_shell};

#[test]
fn shell_defaults_to_zsh() {
    assert_eq!(login_shell(None), "/bin/zsh");
    assert_eq!(login_shell(Some("/bin/bash".to_string())), "/bin/bash");
}

#[test]
fn nul_bytes_are_found() {
    assert!(!has_nul_byte("/bin/zsh"));
    assert!(has_nul_byte("/bin/\0zsh"));
    assert!(!has_nul_byte(""));
}
