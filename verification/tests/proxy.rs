use proxy_fs::error::{ebadf, enoent, erofs, Error};
use proxy_fs::proxy::{
    mode_to_dtype, stat_to_stat64, Connection, Entry, Opened, ProxyFs, Stat64, StatVfs64,
};
use proxy_fs::request::{range_request, whole_request};
use proxy_fs::server::{entry_type, handle_stat, FileKind, Metadata};
use proxy_fs::reply::read_stat_reply;
use proxy_fs::wire::StatResponse;

fn remote() -> StatResponse {
    StatResponse {
        mode: 0o100644,
        size: 513,
        uid: 10,
        gid: 20,
        mtime: 30,
        nlink: 1,
        ino: 40,
    }
}

fn remote_attr() -> Stat64 {
    Stat64 {
        st_mode: 0o100644,
        st_size: 513,
        st_uid: 10,
        st_gid: 20,
        st_mtime: 30,
        st_nlink: 1,
        st_ino: 40,
        st_blksize: 4096,
        st_blocks: 2,
    }
}

#[test]
fn attributes_are_taken_over() {
    assert_eq!(stat_to_stat64(&remote()), remote_attr());
    for (size, blocks) in [(0, 0), (1, 1), (512, 1), (513, 2), (1024, 2)] {
        assert_eq!(stat_to_stat64(&StatResponse { size, ..remote() }).st_blocks, blocks);
    }
}

#[test]
fn attributes_are_cut_to_their_width() {
    let st = stat_to_stat64(&StatResponse {
        mode: 0xffff_81a4,
        nlink: 0x1_0003,
        mtime: u64::MAX,
        size: 1 << 63,
        ..remote()
    });
    assert_eq!(st.st_mode, 0x81a4);
    assert_eq!(st.st_nlink, 3);
    assert_eq!(st.st_mtime, -1);
    assert_eq!(st.st_size, i64::MIN);
    assert_eq!(st.st_blocks, 1 << 54);
}

#[test]
fn a_time_before_the_epoch_reaches_the_guest() {
    let meta = Metadata { mode: 0, size: 0, uid: 0, gid: 0, mtime: -5, nlink: 0, ino: 0 };
    let answer = handle_stat(&Ok(meta));
    let mut r: &[u8] = &answer;
    let st = read_stat_reply(&mut r).unwrap().unwrap();
    assert_eq!(stat_to_stat64(&st).st_mtime, -5);
}

#[test]
fn modes_have_their_entry_types() {
    assert_eq!(mode_to_dtype(0o040755), 4);
    assert_eq!(mode_to_dtype(0o120777), 10);
    assert_eq!(mode_to_dtype(0o100644), 8);
    assert_eq!(mode_to_dtype(0o060000), 8);
    assert_eq!(mode_to_dtype(0), 8);
    assert_eq!(mode_to_dtype(entry_type(Some(FileKind::Directory))), 4);
    assert_eq!(mode_to_dtype(entry_type(Some(FileKind::Symlink))), 10);
    assert_eq!(mode_to_dtype(entry_type(None)), 8);
}

#[test]
fn a_connection_is_reused_accepted_or_made() {
    let fs = ProxyFs::new("/run/s").unwrap();
    assert!(matches!(fs.get_conn(true), Connection::Reuse));
    assert!(matches!(
        fs.get_conn(false),
        Connection::Connect { socket_path } if socket_path == "/run/s"
    ));
    let fs = ProxyFs::new_listen("/run/s").unwrap();
    assert!(matches!(fs.get_conn(true), Connection::Reuse));
    assert!(matches!(fs.get_conn(false), Connection::Accept { timeout_secs: 10 }));
}

#[test]
fn a_lookup_gives_an_inode_once_the_file_is_there() {
    let mut fs = ProxyFs::new("/s").unwrap();
    let req = fs.lookup(1, b"etc").unwrap();
    assert_eq!(req.path, "/etc");
    assert_eq!(req.bytes, whole_request(1, "/etc"));
    let entry = fs.lookup_reply(&req.path, &remote());
    assert_eq!(
        entry,
        Entry {
            inode: 2,
            generation: 0,
            attr: remote_attr(),
            attr_flags: 0,
            attr_timeout_secs: 86400,
            entry_timeout_secs: 86400,
        }
    );
    let req = fs.lookup(2, b"passwd").unwrap();
    assert_eq!(req.path, "/etc/passwd");
    assert_eq!(fs.lookup_reply(&req.path, &remote()).inode, 3);
    let req = fs.lookup(1, b"etc").unwrap();
    assert_eq!(fs.lookup_reply(&req.path, &remote()).inode, 2);
    assert_eq!(fs.inode_room(), u64::MAX - 4);
}

#[test]
fn a_lookup_fails_where_there_is_no_such_directory_or_name() {
    let fs = ProxyFs::new("/s").unwrap();
    assert_eq!(fs.lookup(2, b"x").unwrap_err(), Error::Os(2));
    assert_eq!(fs.lookup(1, &[0xff]).unwrap_err(), Error::Os(2));
}

#[test]
fn a_failure_of_the_server_means_no_such_file() {
    assert_eq!(ProxyFs::fetch_stat(Some(remote())), Ok(remote()));
    assert_eq!(ProxyFs::fetch_stat(None), Err(enoent()));
    assert_eq!(ProxyFs::fetch_readlink(Some(vec![1])), Ok(vec![1]));
    assert_eq!(ProxyFs::fetch_readlink(None), Err(enoent()));
    let entries = vec![("a".to_string(), 1)];
    assert_eq!(ProxyFs::fetch_readdir(Some(entries.clone())), Ok(entries));
    assert_eq!(ProxyFs::fetch_readdir(None), Err(enoent()));
}

#[test]
fn attributes_and_links_are_asked_for_by_path() {
    let mut fs = ProxyFs::new("/s").unwrap();
    let req = fs.lookup(1, b"l").unwrap();
    let ino = fs.lookup_reply(&req.path, &remote()).inode;
    assert_eq!(fs.getattr(ino).unwrap().bytes, whole_request(1, "/l"));
    assert_eq!(fs.readlink(ino).unwrap().bytes, whole_request(4, "/l"));
    assert_eq!(fs.getattr(1).unwrap().bytes, whole_request(1, "/"));
    assert_eq!(ProxyFs::getattr_reply(&remote()), (remote_attr(), 86400));
    assert_eq!(fs.getattr(9).unwrap_err(), enoent());
    assert_eq!(fs.readlink(9).unwrap_err(), enoent());
}

#[test]
fn a_file_is_read_through_its_handle() {
    let mut fs = ProxyFs::new("/s").unwrap();
    let req = fs.lookup(1, b"f").unwrap();
    let ino = fs.lookup_reply(&req.path, &remote()).inode;
    assert_eq!(fs.open(ino), Ok(Opened { handle: 1, keep_cache: true }));
    assert_eq!(fs.open(ino), Ok(Opened { handle: 2, keep_cache: true }));
    assert_eq!(fs.handle_room(), u64::MAX - 3);
    let fetch = fs.read(ino, 1, 100, 7).unwrap();
    assert_eq!(fetch.next_request(), Some(range_request("/f", 7, 100)));
    assert_eq!(fs.read(ino, 3, 100, 7).unwrap_err(), ebadf());
    assert_eq!(fs.read(1, 1, 100, 7).unwrap_err(), ebadf());
    assert_eq!(fs.release(1), Ok(()));
    assert_eq!(fs.read(ino, 1, 100, 7).unwrap_err(), ebadf());
    assert!(fs.read(ino, 2, 100, 7).is_ok());
    assert_eq!(fs.release(1), Ok(()));
    assert_eq!(fs.open(ino), Ok(Opened { handle: 3, keep_cache: true }));
}

#[test]
fn a_handle_on_an_unknown_inode_reads_nothing() {
    let mut fs = ProxyFs::new("/s").unwrap();
    assert_eq!(fs.open(9), Ok(Opened { handle: 1, keep_cache: true }));
    assert_eq!(fs.read(9, 1, 1, 0).unwrap_err(), enoent());
}

#[test]
fn a_directory_is_listed_through_its_handle() {
    let mut fs = ProxyFs::new("/s").unwrap();
    let req = fs.opendir(1).unwrap();
    assert_eq!(req.bytes, whole_request(3, "/"));
    let entries = vec![
        ("bin".to_string(), 0o040000),
        ("lib".to_string(), 0o120000),
        ("\u{e9}".to_string(), 0o100000),
    ];
    let opened = fs.opendir_reply(1, &req.path, entries);
    assert_eq!(opened, Opened { handle: 1, keep_cache: true });
    let mut cursor = fs.readdir(1, 1, 0).unwrap();
    let mut seen = Vec::new();
    while let Some(entry) = fs.next_entry(&mut cursor) {
        seen.push((entry.ino, entry.offset, entry.type_, entry.name));
    }
    assert_eq!(
        seen,
        vec![
            (2, 1, 4, b"bin".to_vec()),
            (3, 2, 10, b"lib".to_vec()),
            (4, 3, 8, vec![0xc3, 0xa9]),
        ]
    );
    let req = fs.lookup(1, b"lib").unwrap();
    assert_eq!(fs.lookup_reply(&req.path, &remote()).inode, 3);
}

#[test]
fn a_listing_resumes_behind_an_offset() {
    let mut fs = ProxyFs::new("/s").unwrap();
    let entries = vec![("a".to_string(), 0), ("b".to_string(), 0), ("c".to_string(), 0)];
    fs.opendir_reply(1, "/", entries);
    let mut cursor = fs.readdir(1, 1, 2).unwrap();
    let entry = fs.next_entry(&mut cursor).unwrap();
    assert_eq!((entry.offset, entry.name), (3, b"c".to_vec()));
    assert!(fs.next_entry(&mut cursor).is_none());
    assert!(fs.next_entry(&mut cursor).is_none());
    let mut cursor = fs.readdir(1, 1, u64::MAX).unwrap();
    assert!(fs.next_entry(&mut cursor).is_none());
}

#[test]
fn a_listing_stops_where_the_buffer_is_full() {
    let mut fs = ProxyFs::new("/s").unwrap();
    let entries = vec![("a".to_string(), 0), ("b".to_string(), 0), ("c".to_string(), 0)];
    fs.opendir_reply(1, "/", entries);
    let mut cursor = fs.readdir(1, 1, 0).unwrap();
    assert_eq!(fs.next_entry(&mut cursor).unwrap().offset, 1);
    assert_eq!(cursor.add_entry(Ok::<usize, Error>(24)), Ok(()));
    assert_eq!(fs.next_entry(&mut cursor).unwrap().offset, 2);
    assert_eq!(cursor.add_entry(Ok::<usize, Error>(0)), Ok(()));
    assert!(fs.next_entry(&mut cursor).is_none());
    let mut cursor = fs.readdir(1, 1, 1).unwrap();
    assert_eq!(fs.next_entry(&mut cursor).unwrap().offset, 2);
}

#[test]
fn a_listing_ends_with_the_error_of_the_buffer() {
    let mut fs = ProxyFs::new("/s").unwrap();
    let entries = vec![("a".to_string(), 0), ("b".to_string(), 0)];
    fs.opendir_reply(1, "/", entries);
    let mut cursor = fs.readdir(1, 1, 0).unwrap();
    assert!(fs.next_entry(&mut cursor).is_some());
    assert_eq!(cursor.add_entry(Err(Error::Os(12))), Err(Error::Os(12)));
    assert!(fs.next_entry(&mut cursor).is_none());
}

#[test]
fn a_listing_needs_an_open_directory() {
    let mut fs = ProxyFs::new("/s").unwrap();
    assert_eq!(fs.opendir(5).unwrap_err(), enoent());
    assert_eq!(fs.readdir(1, 1, 0).unwrap_err(), ebadf());
    fs.open(1).unwrap();
    assert_eq!(fs.readdir(1, 1, 0).unwrap_err(), ebadf());
    fs.opendir_reply(1, "/", Vec::new());
    assert!(fs.readdir(1, 2, 0).is_ok());
    assert_eq!(fs.readdir(2, 2, 0).unwrap_err(), ebadf());
    fs.opendir_reply(99, "/x", Vec::new());
    assert_eq!(fs.readdir(99, 3, 0).unwrap_err(), enoent());
    assert_eq!(fs.releasedir(2), Ok(()));
    assert_eq!(fs.readdir(1, 2, 0).unwrap_err(), ebadf());
}

#[test]
fn the_file_system_is_read_only() {
    let fs = ProxyFs::new("/s").unwrap();
    assert_eq!(
        fs.statfs(1),
        Ok(StatVfs64 { f_namemax: 255, f_bsize: 4096, f_frsize: 4096, f_flag: 1 })
    );
    assert_eq!(fs.init(u64::MAX), Ok(0));
    assert_eq!(fs.access(1, 7), Ok(()));
    assert_eq!(erofs(), Error::Os(30));
    assert_eq!(fs.setattr(1, &remote_attr(), 0), Err(erofs()));
    assert_eq!(fs.mkdir(1, b"d", 0, 0), Err(erofs()));
    assert_eq!(fs.unlink(1, b"f"), Err(erofs()));
    assert_eq!(fs.rmdir(1, b"d"), Err(erofs()));
    assert_eq!(fs.rename(1, b"a", 1, b"b", 0), Err(erofs()));
    assert_eq!(fs.link(1, 1, b"n"), Err(erofs()));
    assert_eq!(fs.symlink(b"t", 1, b"n"), Err(erofs()));
    assert_eq!(fs.mknod(1, b"n", 0, 0, 0), Err(erofs()));
    assert_eq!(fs.create(1, b"n", 0, 0, 0), Err(erofs()));
    assert_eq!(fs.write(1, 1, 1, 0), Err(erofs()));
}
