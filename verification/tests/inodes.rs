use proxy_fs::inodes::{InodeTable, ROOT_INODE};

#[test]
fn the_root_has_the_first_inode() {
    let mut table = InodeTable::new();
    assert_eq!(table.get_path(ROOT_INODE), Some("/".to_string()));
    assert_eq!(table.alloc_inode("/"), 1);
    assert_eq!(table.next_inode(), 2);
    assert_eq!(table.get_path(2), None);
    assert_eq!(table.get_path(0), None);
}

#[test]
fn a_path_keeps_its_inode() {
    let mut table = InodeTable::new();
    let a = table.alloc_inode("/a");
    let b = table.alloc_inode("/b");
    assert_eq!((a, b), (2, 3));
    assert_eq!(table.alloc_inode("/a"), a);
    assert_eq!(table.alloc_inode("/b"), b);
    assert_eq!(table.next_inode(), 4);
}

#[test]
fn an_inode_leads_back_to_its_path() {
    let mut table = InodeTable::new();
    for path in ["/x", "/x/y", "/\u{e9}"] {
        let ino = table.alloc_inode(path);
        assert_eq!(table.get_path(ino), Some(path.to_string()));
    }
    assert_eq!(table.get_path(2), Some("/x".to_string()));
}

#[test]
fn listed_entries_get_inodes() {
    let mut table = InodeTable::new();
    let known = table.alloc_inode("/etc/passwd");
    let entries = vec![("hosts".to_string(), 1), ("passwd".to_string(), 1), ("rc".to_string(), 2)];
    table.register_children("/etc", &entries);
    assert_eq!(table.next_inode(), 5);
    assert_eq!(table.alloc_inode("/etc/hosts"), 3);
    assert_eq!(table.alloc_inode("/etc/passwd"), known);
    assert_eq!(table.alloc_inode("/etc/rc"), 4);
}

#[test]
fn an_entry_that_is_listed_twice_gets_one_inode() {
    let mut table = InodeTable::new();
    let entries = vec![("a".to_string(), 1), ("a".to_string(), 2)];
    table.register_children("/", &entries);
    assert_eq!(table.next_inode(), 3);
    assert_eq!(table.get_path(2), Some("/a".to_string()));
}
