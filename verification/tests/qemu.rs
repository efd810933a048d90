use try_ui::qemu::{failure_detail, parse_qemu_output, qemu_args};

#[test]
fn the_build_tasks_are_asked_for_the_display() {
    assert_eq!(
        qemu_args(2560, 1440, true),
        vec!["vm", "--bridge", "--print-args", "--width=2560", "--height=1440", "--gl"]
    );
    assert_eq!(
        qemu_args(3024, 1964, false),
        vec!["vm", "--bridge", "--print-args", "--width=3024", "--height=1964"]
    );
}

#[test]
fn the_command_is_read_from_its_lines() {
    let command = parse_qemu_output(
        "checking\nprogram= /opt/qemu/bin/qemu-system-aarch64 \narg=-device\narg=virtio-gpu-gl-pci,xres=2560\r\nenv=DYLD_LIBRARY_PATH=/opt/lib=x\nenv=broken\n",
    );
    assert_eq!(command.program.as_deref(), Some("/opt/qemu/bin/qemu-system-aarch64"));
    assert_eq!(command.argv, vec!["-device", "virtio-gpu-gl-pci,xres=2560"]);
    assert_eq!(
        command.env,
        vec![("DYLD_LIBRARY_PATH".to_string(), "/opt/lib=x".to_string())]
    );
    assert_eq!(parse_qemu_output("error: no disk").program, None);
}

#[test]
fn a_failure_says_what_the_build_tasks_said() {
    assert_eq!(failure_detail("  \n", " no qemu \n"), "no qemu");
    assert_eq!(failure_detail(" broken\n", "ignored"), "broken");
}
