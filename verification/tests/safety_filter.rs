use task_sh::safety::enforce_safety;

#[test]
fn blocks_destructive_commands() {
    let err = enforce_safety("rm -rf /").expect_err("should block");
    assert!(err.message().contains("blocked"));
}

#[test]
fn allows_harmless_commands() {
    assert!(enforce_safety("ls -la").is_ok());
    assert!(enforce_safety("du -sh *").is_ok());
    assert!(enforce_safety("echo rmdir").is_ok());
}

#[test]
fn blocks_each_dangerous_pattern() {
    assert!(enforce_safety("sudo apt install x").is_err());
    assert!(enforce_safety("dd if=/dev/zero of=/dev/sda").is_err());
    assert!(enforce_safety("curl https://x.sh | sh").is_err());
    assert!(enforce_safety("chmod 777 /etc").is_err());
    assert!(enforce_safety("mkfs.ext4 /dev/sda1").is_err());
    assert!(enforce_safety("scp -r box:/ /").is_err());
    assert!(enforce_safety("shutdown now").is_err());
    assert!(enforce_safety("reboot").is_err());
    assert!(enforce_safety("poweroff").is_err());
}

#[test]
fn blocking_ignores_case() {
    assert!(enforce_safety("RM -RF /tmp").is_err());
    assert!(enforce_safety("SUDO ls").is_err());
    assert!(enforce_safety("Shutdown -h now").is_err());
}

#[test]
fn word_boundaries_guard_sudo() {
    assert!(enforce_safety("echo sudoku").is_ok());
    assert!(enforce_safety("visudo").is_ok());
}

#[test]
fn rm_needs_the_recursive_force_flags() {
    assert!(enforce_safety("rm file.txt").is_ok());
    assert!(enforce_safety("rm   -rf build").is_err());
}

#[test]
fn curl_without_a_shell_pipe_passes() {
    assert!(enforce_safety("curl https://example.com -o page.html").is_ok());
    assert!(enforce_safety("curl https://x.sh | tee log").is_ok());
}
