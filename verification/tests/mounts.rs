use drives::mounts::{parse_mount_line, Mounts};
use drives::DrivesError;

fn lines_of(content: &str) -> Option<Vec<Option<String>>> {
    Some(content.lines().map(|line| Some(line.to_owned())).collect())
}

#[test]
fn test_read_mounts() {
    let content = "/dev/sda1 / ext4 rw,relatime 0 0\n".to_owned()
        + "/dev/sda2 /home ext4 rw,relatime 0 0";

    let mounts = Mounts::new();
    let result = mounts.read_mountpoints(&lines_of(&content)).unwrap();
    let sda1 = result
        .iter()
        .find(|mount| mount.device == "/dev/sda1")
        .unwrap();
    assert_eq!(sda1.device, "/dev/sda1");
    assert_eq!(sda1.filesystem, "ext4");
    assert_eq!(sda1.mountpoint, "/");

    let sda2 = result
        .iter()
        .find(|mount| mount.device == "/dev/sda2")
        .unwrap();
    assert_eq!(sda2.device, "/dev/sda2");
    assert_eq!(sda2.filesystem, "ext4");
    assert_eq!(sda2.mountpoint, "/home");
}

#[test]
fn the_mount_table_is_at_its_usual_place() {
    assert_eq!(Mounts::new().mount_file_path, "/proc/mounts");
}

#[test]
fn a_table_that_cannot_be_opened_is_a_failure() {
    let result = Mounts::new().read_mountpoints(&None);
    assert!(matches!(result, Err(DrivesError::ReadingMountsFailed)));
}

#[test]
fn an_empty_table_holds_no_mounts() {
    let result = Mounts::new().read_mountpoints(&Some(vec![])).unwrap();
    assert!(result.is_empty());
}

#[test]
fn short_lines_are_passed_over() {
    let lines = Some(vec![
        Some("".to_owned()),
        Some("   ".to_owned()),
        Some("/dev/sda1".to_owned()),
        Some("/dev/sda1 /".to_owned()),
        Some("/dev/sda2 /home ext4".to_owned()),
        None,
        Some("proc /proc proc rw 0 0".to_owned()),
    ]);
    let result = Mounts::new().read_mountpoints(&lines).unwrap();
    assert_eq!(result.len(), 2);
    assert_eq!(result[0].device, "/dev/sda2");
    assert_eq!(result[0].mountpoint, "/home");
    assert_eq!(result[0].filesystem, "ext4");
    assert_eq!(result[1].device, "proc");
    assert_eq!(result[1].mountpoint, "/proc");
    assert_eq!(result[1].filesystem, "proc");
}

#[test]
fn fields_are_separated_by_any_white_space() {
    let mount = parse_mount_line("\t /dev/nvme0n1p2 \t\t /mnt/data\u{a0}btrfs   rw").unwrap();
    assert_eq!(mount.device, "/dev/nvme0n1p2");
    assert_eq!(mount.mountpoint, "/mnt/data");
    assert_eq!(mount.filesystem, "btrfs");
    assert!(parse_mount_line("a b").is_none());
    assert!(parse_mount_line("a b ").is_none());
    assert!(parse_mount_line("").is_none());
    let exact = parse_mount_line("a b c").unwrap();
    assert_eq!(exact.device, "a");
    assert_eq!(exact.mountpoint, "b");
    assert_eq!(exact.filesystem, "c");
}

#[test]
fn fields_agree_with_the_standard_library() {
    let lines = [
        "/dev/sda1 / ext4 rw,relatime 0 0",
        "  tmpfs\t/run   tmpfs rw",
        "a b",
        "one",
        "",
        " \t ",
        "x\u{2003}y\u{3000}z w",
    ];
    for line in lines.iter() {
        let words: Vec<&str> = line.split_whitespace().collect();
        match parse_mount_line(line) {
            Some(mount) => {
                assert!(words.len() >= 3);
                assert_eq!(mount.device, words[0]);
                assert_eq!(mount.mountpoint, words[1]);
                assert_eq!(mount.filesystem, words[2]);
            }
            None => assert!(words.len() < 3),
        }
    }
}

#[test]
fn a_copied_mount_is_the_same_mount() {
    let mount = parse_mount_line("/dev/sda1 / ext4").unwrap();
    let copy = mount.clone();
    assert_eq!(copy.device, mount.device);
    assert_eq!(copy.mountpoint, mount.mountpoint);
    assert_eq!(copy.filesystem, mount.filesystem);
}
