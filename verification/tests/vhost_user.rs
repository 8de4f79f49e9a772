use proxy_fs::error::Error;
use proxy_fs::vhost_user::{
    fds_size, ControlAbi, FrontendReq, VhostUserFrontend, VhostUserMemoryRegion,
    VhostUserVringAddr,
};

fn header(request: u32, size: u32) -> Vec<u8> {
    let mut bytes = request.to_le_bytes().to_vec();
    bytes.extend(1u32.to_le_bytes());
    bytes.extend(size.to_le_bytes());
    bytes
}

fn numbers(request: u32, payload: &[u32]) -> Vec<u8> {
    let mut bytes = header(request, 4 * payload.len() as u32);
    for v in payload {
        bytes.extend(v.to_le_bytes());
    }
    bytes
}

#[test]
fn requests_have_their_codes() {
    let codes = [
        (FrontendReq::GetFeatures, 1),
        (FrontendReq::SetFeatures, 2),
        (FrontendReq::SetOwner, 3),
        (FrontendReq::SetMemTable, 5),
        (FrontendReq::SetVringNum, 8),
        (FrontendReq::SetVringAddr, 9),
        (FrontendReq::SetVringBase, 10),
        (FrontendReq::GetVringBase, 11),
        (FrontendReq::SetVringKick, 12),
        (FrontendReq::SetVringCall, 13),
        (FrontendReq::SetVringErr, 14),
        (FrontendReq::GetProtocolFeatures, 15),
        (FrontendReq::SetProtocolFeatures, 16),
        (FrontendReq::GetQueueNum, 17),
        (FrontendReq::SetVringEnable, 18),
    ];
    for (req, code) in codes {
        assert_eq!(req.code(), code);
    }
}

#[test]
fn messages_without_payload_are_a_header() {
    let f = VhostUserFrontend::connect("/run/fs");
    assert_eq!(f.socket_path(), "/run/fs");
    for (message, code) in [
        (f.get_features(), 1),
        (f.set_owner(), 3),
        (f.get_protocol_features(), 15),
        (f.get_queue_num(), 17),
    ] {
        assert_eq!(message.bytes, header(code, 0));
        assert!(message.fds.is_empty());
    }
}

#[test]
fn features_are_sent_as_a_number() {
    let f = VhostUserFrontend::connect("/s");
    let mut expected = header(2, 8);
    expected.extend(0x0102030405060708u64.to_le_bytes());
    assert_eq!(f.set_features(0x0102030405060708).bytes, expected);
    let mut expected = header(16, 8);
    expected.extend(3u64.to_le_bytes());
    assert_eq!(f.set_protocol_features(3).bytes, expected);
}

#[test]
fn ring_messages_hold_an_index_and_a_number() {
    let f = VhostUserFrontend::connect("/s");
    assert_eq!(f.set_vring_num(1, 128).bytes, numbers(8, &[1, 128]));
    assert_eq!(f.set_vring_base(2, 5).bytes, numbers(10, &[2, 5]));
    assert_eq!(f.set_vring_enable(3, true).bytes, numbers(18, &[3, 1]));
    assert_eq!(f.set_vring_enable(3, false).bytes, numbers(18, &[3, 0]));
    let kick = f.set_vring_kick(4, 17);
    assert_eq!((kick.bytes, kick.fds), (numbers(12, &[4, 0]), vec![17]));
    let call = f.set_vring_call(5, 18);
    assert_eq!((call.bytes, call.fds), (numbers(13, &[5, 0]), vec![18]));
}

#[test]
fn ring_addresses_are_sent_in_their_order() {
    let f = VhostUserFrontend::connect("/s");
    let addr = VhostUserVringAddr {
        index: 1,
        flags: 2,
        descriptor: 3,
        used: 4,
        available: 5,
        log: 6,
    };
    let expected = numbers(9, &[1, 2, 3, 0, 4, 0, 5, 0, 6, 0]);
    assert_eq!(f.set_vring_addr(&addr).bytes, expected);
}

#[test]
fn memory_regions_follow_their_number() {
    let f = VhostUserFrontend::connect("/s");
    let regions = vec![
        VhostUserMemoryRegion {
            guest_phys_addr: 1,
            memory_size: 2,
            user_addr: 3,
            mmap_offset: 4,
        },
        VhostUserMemoryRegion {
            guest_phys_addr: 5,
            memory_size: 6,
            user_addr: 7,
            mmap_offset: 8,
        },
    ];
    let message = f.set_mem_table(&regions, vec![-1, -1]);
    assert_eq!(
        message.bytes,
        numbers(5, &[2, 0, 1, 0, 2, 0, 3, 0, 4, 0, 5, 0, 6, 0, 7, 0, 8, 0])
    );
    assert_eq!(message.fds, vec![-1, -1]);
    assert_eq!(f.set_mem_table(&Vec::new(), Vec::new()).bytes, numbers(5, &[0, 0]));
}

#[test]
fn a_reply_holds_a_number_behind_its_header() {
    let f = VhostUserFrontend::connect("/s");
    let mut reply = header(1, 8);
    reply.extend(0x1122334455667788u64.to_le_bytes());
    assert_eq!(f.recv_reply_u64(&reply, 20), Ok(0x1122334455667788));
    assert_eq!(f.recv_reply_u64(&reply, 19), Err(Error::UnexpectedEof));
    assert_eq!(f.recv_reply_u64(&reply, 0), Err(Error::UnexpectedEof));
}

#[test]
fn control_messages_carry_descriptors() {
    assert_eq!(fds_size(&[]), 0);
    assert_eq!(fds_size(&[3, 4, 5]), 12);
    let abi = ControlAbi { sol_socket: 1, scm_rights: 1, header_size: 16 };
    assert_eq!(abi.fd_count(1, 1, 28), 3);
    assert_eq!(abi.fd_count(1, 1, 16), 0);
    assert_eq!(abi.fd_count(1, 2, 28), 0);
    assert_eq!(abi.fd_count(0, 1, 28), 0);
}
