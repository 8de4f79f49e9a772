use std::sync::atomic::AtomicI32;
use std::sync::Arc;

use proxy_fs::activation::{Action, Activation, Event, GuestRegion, QueueLayout};
use proxy_fs::config::FsDeviceConfig;
use proxy_fs::device::{ActivateError, VhostUserFs, VirtioShmRegion};
use proxy_fs::vhost_user::{VhostUserFrontend, VhostUserMemoryRegion, VhostUserVringAddr};

fn device(id: &str) -> VhostUserFs {
    let exit_code = Arc::new(AtomicI32::new(i32::MAX));
    VhostUserFs::new(id.to_string(), "/run/virtiofsd".to_string(), exit_code).unwrap()
}

fn regions() -> Vec<GuestRegion> {
    vec![GuestRegion { start_addr: 0x1000, len: 0x2000, host_addr: 0x7f00_0000 }]
}

fn queue(n: u64) -> QueueLayout {
    QueueLayout {
        size: 64,
        desc_table: 100 + n,
        used_ring: 200 + n,
        avail_ring: 300 + n,
        event_fd: 40 + n as i32,
    }
}

fn reply(features: u64) -> Event {
    let mut buf = vec![0; 12];
    buf.extend(features.to_le_bytes());
    Event::Received { buf, n: 20 }
}

fn sent(activation: &Activation) -> (Vec<u8>, Vec<i32>) {
    match activation.action() {
        Action::Send(message) => (message.bytes, message.fds),
        other => panic!("{:?}", other),
    }
}

fn step(activation: &mut Activation) -> (Vec<u8>, Vec<i32>) {
    let message = sent(activation);
    activation.on_event(&Event::Done);
    message
}

#[test]
fn a_device_offers_its_features() {
    let mut dev = device("fs");
    assert_eq!(dev.avail_features(), 0x1_2000_0000);
    assert_eq!(dev.acked_features(), 0);
    dev.set_acked_features(5);
    assert_eq!(dev.acked_features(), 5);
    assert_eq!(dev.device_type(), 26);
    assert_eq!(dev.device_name(), "vhost-user-fs");
    assert!(!dev.is_activated());
}

#[test]
fn a_device_can_have_shared_memory() {
    let mut dev = device("fs");
    assert!(dev.shm_region().is_none());
    let region = VirtioShmRegion { host_addr: 1, guest_addr: 2, size: 3 };
    dev.set_shm_region(region);
    assert_eq!(dev.shm_region(), Some(&region));
}

#[test]
fn the_configuration_holds_the_tag() {
    let dev = device("root");
    let mut data = [9; 40];
    dev.read_config(0, &mut data);
    let mut expected = [0; 40];
    expected[..4].copy_from_slice(b"root");
    expected[36] = 1;
    assert_eq!(data, expected);
}

#[test]
fn a_long_tag_is_cut() {
    let dev = device("0123456789012345678901234567890123456789");
    let mut data = [9; 40];
    dev.read_config(0, &mut data);
    assert_eq!(&data[..36], b"012345678901234567890123456789012345");
    assert_eq!(&data[36..], &[1, 0, 0, 0]);
}

#[test]
fn a_read_stays_in_the_configuration() {
    let dev = device("root");
    let mut data = [9; 4];
    dev.read_config(2, &mut data);
    assert_eq!(data, [b'o', b't', 0, 0]);
    let mut data = [9; 6];
    dev.read_config(36, &mut data);
    assert_eq!(data, [1, 0, 0, 0, 9, 9]);
    let mut data = [9; 2];
    dev.read_config(40, &mut data);
    assert_eq!(data, [9, 9]);
    dev.read_config(u64::MAX, &mut data);
    assert_eq!(data, [9, 9]);
}

#[test]
fn the_configuration_cannot_be_written() {
    let mut dev = device("root");
    dev.write_config(0, &[7; 4]);
    let mut data = [9; 4];
    dev.read_config(0, &mut data);
    assert_eq!(&data, b"root");
}

#[test]
fn a_start_follows_the_script() {
    let mut dev = device("fs");
    dev.set_acked_features(0b1100);
    let f = VhostUserFrontend::connect("/run/virtiofsd");
    let mut start = dev.activate(regions(), vec![queue(0), queue(1)]);
    assert!(matches!(
        start.action(),
        Action::Connect { socket_path } if socket_path == "/run/virtiofsd"
    ));
    start.on_event(&Event::Done);
    assert_eq!(step(&mut start).0, f.get_features().bytes);
    assert!(matches!(start.action(), Action::Receive));
    start.on_event(&reply(0b1010));
    assert_eq!(step(&mut start).0, f.set_features(0b1000).bytes);
    assert_eq!(step(&mut start).0, f.set_owner().bytes);
    let table = vec![VhostUserMemoryRegion {
        guest_phys_addr: 0x1000,
        memory_size: 0x2000,
        user_addr: 0x7f00_0000,
        mmap_offset: 0,
    }];
    let expected = f.set_mem_table(&table, vec![-1]);
    assert_eq!(step(&mut start), (expected.bytes, expected.fds));
    for i in 0..2u32 {
        let n = i as u64;
        assert_eq!(step(&mut start).0, f.set_vring_num(i, 64).bytes);
        assert_eq!(step(&mut start).0, f.set_vring_base(i, 0).bytes);
        let addr = VhostUserVringAddr {
            index: i,
            flags: 0,
            descriptor: 100 + n,
            used: 200 + n,
            available: 300 + n,
            log: 0,
        };
        assert_eq!(step(&mut start).0, f.set_vring_addr(&addr).bytes);
        let expected = f.set_vring_kick(i, 40 + i as i32);
        assert_eq!(step(&mut start), (expected.bytes, expected.fds));
        assert!(matches!(start.action(), Action::NewEventFd));
        start.on_event(&Event::EventFd(50 + i as i32));
        let expected = f.set_vring_call(i, 50 + i as i32);
        assert_eq!(step(&mut start), (expected.bytes, expected.fds));
        assert!(!start.is_done());
        assert_eq!(step(&mut start).0, f.set_vring_enable(i, true).bytes);
    }
    assert!(matches!(start.action(), Action::Succeed));
    assert!(start.is_done());
    assert_eq!(dev.finish_activation(&start), Ok(()));
    assert!(dev.is_activated());
    assert!(dev.reset());
    assert!(!dev.is_activated());
}

#[test]
fn a_failure_to_share_the_memory_is_passed_over() {
    let dev = device("fs");
    let mut start = dev.activate(regions(), Vec::new());
    start.on_event(&Event::Done);
    start.on_event(&Event::Done);
    start.on_event(&reply(0));
    start.on_event(&Event::Done);
    start.on_event(&Event::Done);
    assert!(!start.is_done());
    start.on_event(&Event::Error);
    assert!(start.is_done());
}

#[test]
fn any_other_failure_ends_the_start() {
    let good = [
        Event::Done,
        Event::Done,
        reply(7),
        Event::Done,
        Event::Done,
        Event::Done,
        Event::Done,
        Event::Done,
        Event::Done,
        Event::Done,
        Event::EventFd(9),
        Event::Done,
        Event::Done,
    ];
    for bad in 0..good.len() {
        let mut dev = device("fs");
        let mut start = dev.activate(regions(), vec![queue(0)]);
        for event in &good[..bad] {
            start.on_event(event);
        }
        start.on_event(&Event::Error);
        for event in &good[bad + 1..] {
            start.on_event(event);
        }
        if bad == 5 {
            assert_eq!(dev.finish_activation(&start), Ok(()));
            assert!(dev.is_activated());
        } else {
            assert!(matches!(start.action(), Action::Fail));
            assert_eq!(dev.finish_activation(&start), Err(ActivateError::BadActivate));
            assert!(!dev.is_activated());
        }
    }
}

#[test]
fn a_short_reply_ends_the_start() {
    let dev = device("fs");
    let mut start = dev.activate(regions(), Vec::new());
    start.on_event(&Event::Done);
    start.on_event(&Event::Done);
    start.on_event(&Event::Received { buf: vec![0; 20], n: 19 });
    assert!(matches!(start.action(), Action::Fail));
}

#[test]
fn a_configuration_can_be_cloned() {
    let config = FsDeviceConfig {
        fs_id: "root".to_string(),
        shared_dir: "/".to_string(),
        shm_size: Some(1 << 20),
        allow_root_dir_delete: false,
        read_only: true,
        socket_path: Some("/run/s".to_string()),
    };
    let copy = config.clone();
    assert_eq!(format!("{:?}", copy), format!("{:?}", config));
    assert_eq!(copy.socket_path.as_deref(), Some("/run/s"));
}
