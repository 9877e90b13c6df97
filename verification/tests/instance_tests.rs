use kernel_fuzz::instance::{backing_file, drive_index, guest_socket_path, monitor_socket_path,
    overlay_path, prepare_instance, prepare_instance_from_json, stderr_path, PlanError};

fn commands(v: &[&str]) -> Vec<String> {
    v.iter().map(|s| s.to_string()).collect()
}

#[test]
fn endpoint_paths_follow_the_derived_port() {
    assert_eq!(guest_socket_path(9193).as_str(), "/tmp/aflControl-9193");
    assert_eq!(monitor_socket_path(9193).as_str(), "/tmp/monitor-9193");
    assert_eq!(stderr_path(9193).as_str(), "/tmp/qemu-out-9193");
    assert_eq!(overlay_path(1).as_str(), "/tmp/root_instance_1.qcow2");
}

#[test]
fn drive_flag_is_found_first() {
    let cmds = commands(&["qemu", "-m", "2G", "-drive", "file=/img/a.qcow2"]);
    assert_eq!(drive_index(&cmds), Some(3));
    assert_eq!(drive_index(&commands(&["qemu", "-m", "2G"])), None);
}

#[test]
fn backing_file_is_cut_between_file_and_comma() {
    assert_eq!(
        backing_file("file=/img/root.qcow2,if=virtio").as_deref(),
        Some("/img/root.qcow2")
    );
    assert_eq!(backing_file("file=/img/root.qcow2").as_deref(), Some("/img/root.qcow2"));
    assert_eq!(backing_file("if=virtio"), None);
    assert_eq!(backing_file("file=,if=virtio"), None);
}

#[test]
fn prepared_command_rewrites_drive_and_appends_devices() {
    let cmds = commands(&[
        "qemu-system-x86_64",
        "-m",
        "2G",
        "-drive",
        "file=/img/root.qcow2,if=virtio",
        "-kernel",
        "/img/root.qcow2.vmlinuz",
    ]);
    let plan = prepare_instance(&cmds, 1048576, 9192, 1, "/shmem_test").unwrap();

    assert_eq!(plan.guest_socket_path.as_str(), "/tmp/aflControl-9193");
    assert_eq!(plan.monitor_socket_path.as_str(), "/tmp/monitor-9193");
    assert_eq!(plan.stderr_path.as_str(), "/tmp/qemu-out-9193");
    assert_eq!(plan.overlay_path.as_str(), "/tmp/root_instance_1.qcow2");
    assert_eq!(plan.backing_path.as_str(), "/img/root.qcow2");

    let expected = commands(&[
        "qemu-system-x86_64",
        "-m",
        "2G",
        "-drive",
        "file=/tmp/root_instance_1.qcow2,if=virtio",
        "-kernel",
        "/tmp/root_instance_1.qcow2.vmlinuz",
        "-device",
        "ivshmem-plain,memdev=hostmem,master=on",
        "-object",
        "memory-backend-file,size=1048576,share=on,mem-path=/dev/shm/shmem_test,id=hostmem",
        "-device",
        "virtio-serial",
        "-chardev",
        "socket,path=/tmp/aflControl-9193,server=on,wait=off,id=aflControl",
        "-device",
        "virtserialport,chardev=aflControl,name=aflControl",
        "-monitor",
        "unix:/tmp/monitor-9193,server=on,wait=off",
    ]);
    assert_eq!(plan.command, expected);
}

#[test]
fn preparation_fails_exactly_on_the_three_defects() {
    let no_drive = commands(&["qemu", "-m", "2G"]);
    assert_eq!(
        prepare_instance(&no_drive, 1, 9192, 0, "/s").unwrap_err(),
        PlanError::MissingDrive
    );

    let trailing_drive = commands(&["qemu", "-drive"]);
    assert_eq!(
        prepare_instance(&trailing_drive, 1, 9192, 0, "/s").unwrap_err(),
        PlanError::MissingDriveValue
    );

    let no_backing = commands(&["qemu", "-drive", "if=virtio"]);
    assert_eq!(
        prepare_instance(&no_backing, 1, 9192, 0, "/s").unwrap_err(),
        PlanError::MissingBackingFile
    );
}

#[test]
fn cleanup_removes_what_construction_created() {
    let cmds = commands(&["qemu", "-drive", "file=/img/root.qcow2"]);
    let plan = prepare_instance(&cmds, 4096, 9192, 2, "/shmem_x").unwrap();
    let cleanup = plan.cleanup_paths();
    assert_eq!(
        cleanup,
        vec![
            "/tmp/aflControl-9194".to_string(),
            "/tmp/monitor-9194".to_string(),
            "/tmp/root_instance_2.qcow2".to_string(),
        ]
    );
    assert_eq!(cleanup[0], plan.guest_socket_path);
    assert_eq!(cleanup[1], plan.monitor_socket_path);
    assert_eq!(cleanup[2], plan.overlay_path);
}

#[test]
fn preparation_reads_the_command_file_text() {
    let json = r#"["qemu", "-drive", "file=/img/root.qcow2"]"#;
    let plan = prepare_instance_from_json(json, 4096, 9192, 3, "/shmem_y").unwrap();
    assert_eq!(plan.backing_path.as_str(), "/img/root.qcow2");
    assert_eq!(plan.command[2].as_str(), "file=/tmp/root_instance_3.qcow2");

    assert_eq!(
        prepare_instance_from_json("not json", 4096, 9192, 3, "/s").unwrap_err(),
        PlanError::InvalidJson
    );
    assert_eq!(
        prepare_instance_from_json(r#"[1, 2]"#, 4096, 9192, 3, "/s").unwrap_err(),
        PlanError::InvalidJson
    );
}
