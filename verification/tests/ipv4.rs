use tifflin_kernel::network::ipv4::{
    calculate_checksum, handle_rx_ethernet, register_handler, Address, Interface, Ipv4Header,
    ProtoHandler, ProtocolTable, RxAction,
};
use tifflin_kernel::network::nic::PacketReader;

const MAC: [u8; 6] = [2, 0, 0, 0, 0, 1];

/// 192.168.0.1 -> 192.168.0.2, UDP, header of 20 bytes with a correct checksum, body of 8 bytes.
fn udp_packet() -> Vec<u8> {
    let mut p = vec![
        0x45, 0, 0, 28, 0x12, 0x34, 0x40, 0, 64, 17, 167, 73, 192, 168, 0, 1, 192, 168, 0, 2,
    ];
    p.extend_from_slice(&[1, 2, 3, 4, 5, 6, 7, 8]);
    p
}

fn interfaces() -> Vec<Interface> {
    vec![
        Interface::new(Address::new([10, 0, 0, 2])),
        Interface::new(Address::new([192, 168, 0, 2])),
        Interface::new(Address::new([192, 168, 0, 2])),
    ]
}

fn protocols() -> ProtocolTable {
    let mut t = ProtocolTable::new();
    assert_eq!(register_handler(&mut t, 6, 600), Ok(()));
    assert_eq!(register_handler(&mut t, 17, 1700), Ok(()));
    t
}

#[test]
fn address_as_u32_is_big_endian() {
    assert_eq!(Address::new([127, 0, 0, 1]).as_u32(), 0x7F00_0001);
    assert_eq!(Address::new([192, 168, 1, 200]).as_u32(), 0xC0A8_01C8);
    assert_eq!(Address::new([255, 255, 255, 255]).as_u32(), 0xFFFF_FFFF);
    assert_eq!(Address::default().as_u32(), 0);
    assert_eq!(Address::new([1, 2, 3, 4]).to_octets(), [1, 2, 3, 4]);
}

#[test]
fn address_equality_and_order() {
    let a = Address::new([10, 0, 0, 1]);
    assert!(a.same(&Address::new([10, 0, 0, 1])));
    assert!(!a.same(&Address::new([10, 0, 0, 2])));
    assert!(!a.same(&Address::new([11, 0, 0, 1])));
    assert_eq!(a, Address::new([10, 0, 0, 1]));
    assert!(a < Address::new([10, 0, 1, 0]));
    assert_eq!(Address::default(), Address::new([0, 0, 0, 0]));
}

#[test]
fn address_is_shown_dotted() {
    assert_eq!(Address::new([127, 0, 0, 1]).to_string(), "127.0.0.1");
    assert_eq!(Address::new([192, 168, 10, 255]).to_string(), "192.168.10.255");
    assert_eq!(Address::new([0, 9, 10, 99]).to_string(), "0.9.10.99");
    assert_eq!(Address::new([100, 101, 200, 109]).to_string(), "100.101.200.109");
}

#[test]
fn interface_gives_its_address() {
    let i = Interface::new(Address::new([10, 1, 2, 3]));
    assert_eq!(i.addr(), Address::new([10, 1, 2, 3]));
}

#[test]
fn checksum_of_known_words() {
    assert_eq!(calculate_checksum(&[]), 0xFFFF);
    assert_eq!(calculate_checksum(&[0xFFFF]), 0x0000);
    assert_eq!(calculate_checksum(&[1, 2, 3]), 0xFFF9);
    // Two folds are needed: 0x1FFFF -> 0x10000 -> 0x1.
    assert_eq!(calculate_checksum(&[0xFFFF, 0xFFFF, 0x0001]), 0xFFFE);
    assert_eq!(
        calculate_checksum(&[
            0x4500, 0x0073, 0x0000, 0x4000, 0x4011, 0x0000, 0xc0a8, 0x0001, 0xc0a8, 0x00c7
        ]),
        0xb861
    );
}

#[test]
fn checksum_over_a_header_with_its_checksum_is_zero() {
    assert_eq!(
        calculate_checksum(&[
            0x4500, 0x0073, 0x0000, 0x4000, 0x4011, 0xb861, 0xc0a8, 0x0001, 0xc0a8, 0x00c7
        ]),
        0
    );
}

#[test]
fn reader_reads_in_network_order() {
    let data = [0x12, 0x34, 0x56, 0x78, 0x9A, 0xBC, 0xDE];
    let mut r = PacketReader::new(&data);
    assert_eq!(r.remain(), 7);
    assert_eq!(r.read_u8(), Ok(0x12));
    assert_eq!(r.read_u16n(), Ok(0x3456));
    assert_eq!(r.remain(), 4);
    assert_eq!(r.read_bytes([0u8; 3]), Ok([0x78, 0x9A, 0xBC]));
    assert_eq!(r.remain(), 1);
    // Reads that do not fit fail and consume nothing.
    assert_eq!(r.read_u16n(), Err(()));
    assert_eq!(r.read_bytes([0u8; 2]), Err(()));
    assert_eq!(r.remain(), 1);
    assert_eq!(r.read_u8(), Ok(0xDE));
    assert_eq!(r.read_u8(), Err(()));
    assert_eq!(r.remain(), 0);
    assert_eq!(r.read_bytes([0u8; 0]), Ok([]));
}

#[test]
fn header_fields_are_read_from_their_places() {
    let p = udp_packet();
    let mut r = PacketReader::new(&p);
    let h = Ipv4Header::read(&mut r).unwrap();
    assert_eq!(r.remain(), 8);
    assert_eq!(h.ver_and_len, 0x45);
    assert_eq!(h.diff_services, 0);
    assert_eq!(h.total_length, 28);
    assert_eq!(h.identification, 0x1234);
    assert_eq!(h.flags, 0x40);
    assert_eq!(h.frag_ofs_high, 0);
    assert_eq!(h.ttl, 64);
    assert_eq!(h.protocol, 17);
    assert_eq!(h.hdr_checksum, 0xA749);
    assert_eq!(h.source, Address::new([192, 168, 0, 1]));
    assert_eq!(h.destination, Address::new([192, 168, 0, 2]));
    assert_eq!(h.get_version(), 4);
    assert_eq!(h.get_header_length(), 20);
    assert!(!h.get_has_more_fragments());
    assert_eq!(h.get_fragment_ofs(), 0);
}

#[test]
fn header_read_fails_on_fewer_than_twenty_bytes() {
    let p = udp_packet();
    // The fields that are there in full are read; the one that is cut off is not.
    for (len, left) in [(19, 3), (16, 0), (15, 3), (11, 1), (9, 0), (5, 1), (3, 1), (1, 0), (0, 0)]
    {
        let mut r = PacketReader::new(&p[..len]);
        assert!(Ipv4Header::read(&mut r).is_err());
        assert_eq!(r.remain(), left);
    }
}

#[test]
fn header_length_and_fragment_fields() {
    let mut p = udp_packet();
    p[0] = 0x4F;
    p[6] = 0x3F;
    p[7] = 0xFF;
    let h = Ipv4Header::read(&mut PacketReader::new(&p)).unwrap();
    assert_eq!(h.get_header_length(), 60);
    assert!(h.get_has_more_fragments());
    assert_eq!(h.get_fragment_ofs(), (0xFF << 5) | 0x1F);
    p[0] = 0x40;
    p[6] = 0xC1;
    p[7] = 0x02;
    let h = Ipv4Header::read(&mut PacketReader::new(&p)).unwrap();
    assert_eq!(h.get_header_length(), 0);
    assert!(!h.get_has_more_fragments());
    assert_eq!(h.get_fragment_ofs(), 65);
}

#[test]
fn register_handler_refuses_a_second_handler() {
    let mut t = ProtocolTable::new();
    assert_eq!(t.lookup(17), None);
    assert_eq!(register_handler(&mut t, 17, 1), Ok(()));
    assert_eq!(register_handler(&mut t, 6, 2), Ok(()));
    assert_eq!(register_handler(&mut t, 17, 3), Err(()));
    assert_eq!(t.lookup(17), Some(ProtoHandler::DirectKernel(1)));
    assert_eq!(t.lookup(6), Some(ProtoHandler::DirectKernel(2)));
    assert_eq!(t.lookup(1), None);
}

#[test]
fn packet_is_dispatched_to_the_handler_of_its_protocol() {
    let p = udp_packet();
    let ifs = interfaces();
    let rx = handle_rx_ethernet(&ifs, &protocols(), MAC, PacketReader::new(&p)).unwrap();
    assert_eq!(rx.checksum, 0);
    assert_eq!(rx.header.protocol, 17);
    match rx.action {
        RxAction::Dispatch(mut d) => {
            assert_eq!(d.handler, 1700);
            assert_eq!(d.interface, ifs[1]);
            assert_eq!(d.source, Address::new([192, 168, 0, 1]));
            assert_eq!(d.reader.remain(), 8);
            assert_eq!(d.reader.read_bytes([0u8; 8]), Ok([1, 2, 3, 4, 5, 6, 7, 8]));
        }
        _ => panic!("not dispatched"),
    }
}

#[test]
fn dispatch_hands_over_the_arguments() {
    let p = [9u8, 8, 7];
    let i = Interface::new(Address::new([10, 0, 0, 1]));
    let mut d = ProtoHandler::DirectKernel(42).dispatch(
        &i,
        Address::new([10, 0, 0, 9]),
        Address::new([10, 0, 0, 1]),
        PacketReader::new(&p),
    );
    assert_eq!(d.handler, 42);
    assert_eq!(d.interface, i);
    assert_eq!(d.source, Address::new([10, 0, 0, 9]));
    assert_eq!(d.reader.read_u8(), Ok(9));
}

#[test]
fn bad_checksum_is_reported_and_not_refused() {
    let mut p = udp_packet();
    p[11] = 74;
    let ifs = interfaces();
    let rx = handle_rx_ethernet(&ifs, &protocols(), MAC, PacketReader::new(&p)).unwrap();
    assert_eq!(rx.checksum, 0xFFFE);
    assert!(matches!(rx.action, RxAction::Dispatch(_)));
}

#[test]
fn options_are_skipped_and_summed() {
    let mut p = vec![
        0x46, 0, 0, 32, 0, 1, 0, 0, 64, 6, 99, 212, 10, 0, 0, 1, 10, 0, 0, 2, 1, 1, 1, 0,
    ];
    p.extend_from_slice(&[0xAA, 0xBB, 0xCC, 0xDD, 0xEE, 0xFF, 0x11, 0x22]);
    let ifs = interfaces();
    let rx = handle_rx_ethernet(&ifs, &protocols(), MAC, PacketReader::new(&p)).unwrap();
    assert_eq!(rx.checksum, 0);
    match rx.action {
        RxAction::Dispatch(mut d) => {
            assert_eq!(d.handler, 600);
            assert_eq!(d.interface, ifs[0]);
            assert_eq!(d.reader.remain(), 8);
            assert_eq!(d.reader.read_u8(), Ok(0xAA));
        }
        _ => panic!("not dispatched"),
    }
}

#[test]
fn short_header_length_leaves_the_body_behind_twenty_bytes() {
    let mut p = udp_packet();
    p[0] = 0x44;
    p[3] = 24;
    let ifs = interfaces();
    let rx = handle_rx_ethernet(&ifs, &protocols(), MAC, PacketReader::new(&p)).unwrap();
    match rx.action {
        RxAction::Dispatch(d) => assert_eq!(d.reader.remain(), 8),
        _ => panic!("not dispatched"),
    }
}

#[test]
fn packet_without_handler_or_interface_is_dropped() {
    let ifs = interfaces();
    let mut p = udp_packet();
    p[9] = 1;
    let rx = handle_rx_ethernet(&ifs, &protocols(), MAC, PacketReader::new(&p)).unwrap();
    match rx.action {
        RxAction::Unhandled(i) => assert_eq!(i, ifs[1]),
        _ => panic!("not unhandled"),
    }
    let mut p = udp_packet();
    p[19] = 77;
    let rx = handle_rx_ethernet(&ifs, &protocols(), MAC, PacketReader::new(&p)).unwrap();
    assert!(matches!(rx.action, RxAction::Unrouted));
    let p = udp_packet();
    let rx = handle_rx_ethernet(&[], &protocols(), MAC, PacketReader::new(&p)).unwrap();
    assert!(matches!(rx.action, RxAction::Unrouted));
}

#[test]
fn fragments_are_dropped_before_the_length_check() {
    let ifs = interfaces();
    let mut p = udp_packet();
    p[6] = 0x20;
    // The body is shorter than the total length says, but a fragment is not looked at further.
    p[3] = 200;
    let rx = handle_rx_ethernet(&ifs, &protocols(), MAC, PacketReader::new(&p)).unwrap();
    assert!(matches!(rx.action, RxAction::Fragmented));
    let mut p = udp_packet();
    p[7] = 1;
    let rx = handle_rx_ethernet(&ifs, &protocols(), MAC, PacketReader::new(&p)).unwrap();
    assert!(matches!(rx.action, RxAction::Fragmented));
    let mut p = udp_packet();
    p[6] = 0x41;
    let rx = handle_rx_ethernet(&ifs, &protocols(), MAC, PacketReader::new(&p)).unwrap();
    assert!(matches!(rx.action, RxAction::Fragmented));
}

#[test]
fn malformed_packets_are_refused() {
    let ifs = interfaces();
    let t = protocols();
    let p = udp_packet();
    // Too short for a header.
    assert!(handle_rx_ethernet(&ifs, &t, MAC, PacketReader::new(&p[..19])).is_err());
    assert!(handle_rx_ethernet(&ifs, &t, MAC, PacketReader::new(&[])).is_err());
    // Not version 4.
    let mut q = p.clone();
    q[0] = 0x65;
    assert!(handle_rx_ethernet(&ifs, &t, MAC, PacketReader::new(&q)).is_err());
    // The header claims to be longer than the packet.
    let mut q = p.clone();
    q[0] = 0x48;
    assert!(handle_rx_ethernet(&ifs, &t, MAC, PacketReader::new(&q)).is_err());
    // The total length is shorter than the header.
    let mut q = p.clone();
    q[3] = 19;
    assert!(handle_rx_ethernet(&ifs, &t, MAC, PacketReader::new(&q)).is_err());
    // The body is shorter than the total length says.
    let mut q = p.clone();
    q[3] = 29;
    assert!(handle_rx_ethernet(&ifs, &t, MAC, PacketReader::new(&q)).is_err());
    assert!(handle_rx_ethernet(&ifs, &t, MAC, PacketReader::new(&p[..27])).is_err());
    // A body longer than the total length says is accepted.
    let mut q = p.clone();
    q[3] = 20;
    assert!(handle_rx_ethernet(&ifs, &t, MAC, PacketReader::new(&q)).is_ok());
}
