use proxy_fs::error::Error;
use proxy_fs::range_fetch::{RangeFetch, CHUNK};
use proxy_fs::request::range_request;

fn served(file: &[u8], offset: u64, size: u32) -> Vec<u8> {
    let from = file.len().min(offset as usize);
    let to = file.len().min(from + size as usize);
    file[from..to].to_vec()
}

fn fetch(file: &[u8], offset: u64, size: u32) -> (Vec<u8>, usize) {
    let mut fetch = RangeFetch::fetch_read_range("/f".to_string(), offset, size);
    let mut at = offset;
    let mut left = size;
    let mut asked = 0;
    while let Some(request) = fetch.next_request() {
        let chunk = left.min(CHUNK);
        assert_eq!(request, range_request("/f", at, chunk));
        let data = served(file, at, chunk);
        assert!(fetch.fits(data.len()));
        at += data.len() as u64;
        left -= data.len() as u32;
        asked += 1;
        fetch = fetch.on_reply(Some(data)).unwrap();
    }
    (fetch.into_data(), asked)
}

#[test]
fn a_range_is_fetched_in_chunks() {
    let file: Vec<u8> = (0..100_000u32).map(|i| (i % 251) as u8).collect();
    assert_eq!(fetch(&file, 0, 100_000), (file.clone(), 4));
    assert_eq!(fetch(&file, 10, 32768), (file[10..32778].to_vec(), 1));
    assert_eq!(fetch(&file, 10, 32769), (file[10..32779].to_vec(), 2));
    assert_eq!(fetch(&file, 99_990, 500), (file[99_990..].to_vec(), 1));
    assert_eq!(fetch(&file, 100_000, 5), (Vec::new(), 1));
    assert_eq!(fetch(&file, 200_000, 5), (Vec::new(), 1));
    assert_eq!(fetch(&file, 3, 0), (Vec::new(), 0));
}

#[test]
fn a_file_that_ends_on_a_chunk_takes_one_more_request() {
    let file = vec![7; 2 * CHUNK as usize];
    assert_eq!(fetch(&file, 0, 100_000), (file.clone(), 3));
}

#[test]
fn a_failure_of_the_first_chunk_is_an_error() {
    let fetch = RangeFetch::fetch_read_range("/f".to_string(), 0, 10);
    assert!(matches!(fetch.on_reply(None), Err(Error::Os(5))));
}

#[test]
fn a_failure_of_a_later_chunk_ends_the_fetch() {
    let fetch = RangeFetch::fetch_read_range("/f".to_string(), 0, 40_000);
    let fetch = fetch.on_reply(Some(vec![1; 32768])).unwrap();
    assert_eq!(fetch.next_request(), Some(range_request("/f", 32768, 7232)));
    let fetch = fetch.on_reply(None).unwrap();
    assert_eq!(fetch.next_request(), None);
    assert_eq!(fetch.into_data(), vec![1; 32768]);
}

#[test]
fn a_short_or_empty_chunk_is_the_last() {
    let fetch = RangeFetch::fetch_read_range("/f".to_string(), 5, 10);
    let fetch = fetch.on_reply(Some(vec![1, 2, 3])).unwrap();
    assert_eq!(fetch.next_request(), None);
    assert_eq!(fetch.into_data(), vec![1, 2, 3]);
    let fetch = RangeFetch::fetch_read_range("/f".to_string(), 5, 10);
    let fetch = fetch.on_reply(Some(Vec::new())).unwrap();
    assert_eq!(fetch.next_request(), None);
    assert!(fetch.into_data().is_empty());
}

#[test]
fn a_chunk_that_holds_too_much_does_not_fit() {
    let fetch = RangeFetch::fetch_read_range("/f".to_string(), 0, 10);
    assert!(fetch.fits(0));
    assert!(fetch.fits(10));
    assert!(!fetch.fits(11));
    let fetch = RangeFetch::fetch_read_range("/f".to_string(), u64::MAX - 3, 10);
    assert!(fetch.fits(3));
    assert!(!fetch.fits(4));
}
