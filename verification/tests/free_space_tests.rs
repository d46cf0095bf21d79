use fischl::free_space::{available, is_same_disk, DiskInfo};

fn disk(m: &str, a: u64) -> DiskInfo {
    DiskInfo { mount_point: m.to_string(), available_space: a }
}

#[test]
fn longest_mount_point_wins() {
    let disks = vec![disk("/", 100), disk("/home/user/games", 10), disk("/home", 50)];
    assert_eq!(available(&disks, "/home/user/games/x"), Some(10));
    assert_eq!(available(&disks, "/home/other"), Some(50));
    assert_eq!(available(&disks, "/var/tmp"), Some(100));
}

#[test]
fn components_not_characters() {
    let disks = vec![disk("/mnt/data", 7)];
    assert_eq!(available(&disks, "/mnt/database"), None);
    assert_eq!(available(&disks, "/mnt/data/x"), Some(7));
    assert_eq!(available(&disks, "relative/path"), None);
}

#[test]
fn ties_keep_listed_order() {
    let disks = vec![disk("/mnt", 1), disk("/mnt", 2)];
    assert_eq!(available(&disks, "/mnt/x"), Some(1));
}

#[test]
fn same_disk() {
    let disks = vec![disk("/a", 1), disk("/b", 2)];
    assert!(is_same_disk(&disks, "/a/x", "/a/y"));
    assert!(!is_same_disk(&disks, "/a/x", "/b/y"));
    assert!(!is_same_disk(&disks, "/c", "/c"));
    let rooted = vec![disk("/", 1), disk("/b", 2)];
    assert!(is_same_disk(&rooted, "/a/x", "/b/y"));
}

#[test]
fn same_disk_either_order_and_itself() {
    let disks = vec![disk("/a", 1), disk("/b", 2)];
    for (p, q) in [("/a/x", "/a/y"), ("/a/x", "/b/y"), ("/c", "/a")] {
        assert_eq!(is_same_disk(&disks, p, q), is_same_disk(&disks, q, p));
    }
    for p in ["/a/x", "/b", "/c/d"] {
        assert_eq!(is_same_disk(&disks, p, p), available(&disks, p).is_some());
    }
}
