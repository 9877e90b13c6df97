use kernel_fuzz::guest::{completion_message, ready_message, restore_message, Args};
use kernel_fuzz::watcher::SeenPaths;

#[test]
fn fixed_guest_frames_carry_the_agreed_text() {
    assert_eq!(ready_message(), b"Snapshot me!".to_vec());
    assert_eq!(restore_message(), b"Restore me!".to_vec());
}

#[test]
fn completion_carries_the_kernel_log_only_when_asked() {
    let log = b"[ 1.0] BUG: KASAN: ...".to_vec();
    assert_eq!(completion_message(true, log.clone()), log);
    assert_eq!(completion_message(false, log), b"Restore me!".to_vec());
}

#[test]
fn guest_configuration_holds_plain_values() {
    let args = Args {
        socket: "/dev/virtio-ports/aflControl".to_string(),
        input_file: "/tmp/input".to_string(),
        dmesg: false,
        block_until_snapshot: true,
        command_with_args: vec!["./target".to_string(), "-x".to_string()],
    };
    assert_eq!(args.command_with_args.len(), 2);
    assert!(!args.dmesg);
}

#[test]
fn each_dropped_in_path_is_picked_up_once() {
    let mut seen = SeenPaths::new();
    assert!(!seen.contains("/watch/a"));
    assert!(seen.note("/watch/a"));
    assert!(seen.contains("/watch/a"));
    assert!(!seen.note("/watch/a"));
    assert!(seen.note("/watch/b"));
    assert!(seen.contains("/watch/b"));
}
