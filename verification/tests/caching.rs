use proxy_fs::caching::{CacheStep, CachingProxyFs};
use proxy_fs::error::Error;
use proxy_fs::proxy::Connection;
use proxy_fs::request::whole_request;
use proxy_fs::wire::StatResponse;

fn stat(mode: u32) -> Option<StatResponse> {
    Some(StatResponse { mode, size: 1, uid: 2, gid: 3, mtime: 4, nlink: 5, ino: 6 })
}

#[test]
fn a_file_that_is_cached_is_kept() {
    assert!(matches!(CachingProxyFs::ensure_cached("/a", true), CacheStep::Keep));
    assert!(matches!(
        CachingProxyFs::ensure_cached("/a", false),
        CacheStep::FetchStat { request } if request == whole_request(1, "/a")
    ));
}

#[test]
fn what_is_fetched_depends_on_the_type() {
    assert!(matches!(
        CachingProxyFs::cache_stat("/a", stat(0o040755)),
        Ok(CacheStep::MakeDir)
    ));
    assert!(matches!(
        CachingProxyFs::cache_stat("/a", stat(0o120777)),
        Ok(CacheStep::FetchLink { request }) if request == whole_request(4, "/a")
    ));
    assert!(matches!(
        CachingProxyFs::cache_stat("/a", stat(0o100640)),
        Ok(CacheStep::FetchData { request, mode: 0o100640 }) if request == whole_request(2, "/a")
    ));
    assert!(matches!(CachingProxyFs::cache_stat("/a", None), Err(Error::Os(2))));
}

#[test]
fn links_and_files_are_cached_as_they_came() {
    assert!(matches!(
        CachingProxyFs::cache_link(Some(b"../t".to_vec())),
        Ok(CacheStep::MakeLink { target }) if target == "../t"
    ));
    assert!(matches!(
        CachingProxyFs::cache_link(Some(vec![b'a', 0xff])),
        Ok(CacheStep::MakeLink { target }) if target == "a\u{fffd}"
    ));
    assert!(matches!(
        CachingProxyFs::cache_data(Some(vec![1, 2]), 0o644),
        Ok(CacheStep::WriteFile { data, mode: 0o644 }) if data == [1, 2]
    ));
}

#[test]
fn a_link_or_file_that_is_refused_does_not_exist() {
    assert!(matches!(CachingProxyFs::cache_link(None), Err(Error::Os(2))));
    assert!(matches!(CachingProxyFs::cache_data(None, 0o644), Err(Error::Os(2))));
}

#[test]
fn a_cached_file_stands_below_the_cache() {
    let fs = CachingProxyFs::new("/var/cache", "/s").unwrap();
    assert_eq!(fs.cache_path("/etc/passwd"), "/var/cache/etc/passwd");
    assert_eq!(fs.cache_path("x"), "/var/cache/x");
    let fs = CachingProxyFs::new("/var/cache/", "/s").unwrap();
    assert_eq!(fs.cache_path("/x"), "/var/cache/x");
}

#[test]
fn a_cache_connection_is_cloned_or_made() {
    let fs = CachingProxyFs::new("/c", "/run/s").unwrap();
    assert!(matches!(fs.connect(true), Connection::Reuse));
    assert!(matches!(
        fs.connect(false),
        Connection::Connect { socket_path } if socket_path == "/run/s"
    ));
}

#[test]
fn a_cached_directory_registers_its_entries() {
    let mut fs = CachingProxyFs::new("/c", "/s").unwrap();
    assert_eq!(CachingProxyFs::dir_request("/d"), whole_request(3, "/d"));
    let entries = vec![("a".to_string(), 1), ("b".to_string(), 2)];
    assert_eq!(CachingProxyFs::dir_entries(Some(entries.clone())), Ok(entries.clone()));
    assert_eq!(CachingProxyFs::dir_entries(None), Err(Error::Os(2)));
    assert_eq!(fs.inode_room(), u64::MAX - 2);
    fs.ensure_dir_cached("/d", &entries);
    assert_eq!(fs.inode_room(), u64::MAX - 4);
    assert_eq!(fs.alloc_inode("/d/b"), 3);
    assert_eq!(fs.get_path(2), Some("/d/a".to_string()));
    assert_eq!(fs.get_path(1), Some("/".to_string()));
    assert_eq!(fs.get_path(4), None);
    assert_eq!(fs.alloc_inode("/new"), 4);
}
