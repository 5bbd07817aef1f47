use packet::{Builder, Checked, Dynamic, Error, Packet, Slice, HEADER_SIZE};

const CAPTURE: &str = "30b5c2eb4cb0080027aff83f86dd60000000005c11ff2607f2c0f00fb00100000000faceb00c200105900000000000000000451f1f6210f610f6005c464e15000001fb7aff572ebc6869000199101f5000022607f2c0f00fb00100000000faceb00c001c000199101f5000000005011c10000000000199101f500164ff00000500022607f2c0f00fb00100000000faceb00c";

/// Length of the Ethernet header in front of the IPv6 packet in the capture.
const ETHER_HEADER: usize = 14;

const SOURCE: [u8; 16] = [
    0x26, 0x07, 0xf2, 0xc0, 0xf0, 0x0f, 0xb0, 0x01, 0x00, 0x00, 0x00, 0x00, 0xfa, 0xce, 0xb0, 0x0c,
];

const DESTINATION: [u8; 16] = [
    0x20, 0x01, 0x05, 0x90, 0x00, 0x00, 0x00, 0x00, 0x00, 0x00, 0x00, 0x00, 0x45, 0x1f, 0x1f, 0x62,
];

fn decode(hex: &str) -> Vec<u8> {
    (0..hex.len())
        .step_by(2)
        .map(|i| u8::from_str_radix(&hex[i..i + 2], 16).unwrap())
        .collect()
}

/// A valid 40-byte header with the given payload length, all other fields zero.
fn header(payload_length: u16) -> Vec<u8> {
    let mut v = vec![0u8; 40];
    v[0] = 0x60;
    v[4] = (payload_length >> 8) as u8;
    v[5] = payload_length as u8;
    v
}

#[test]
fn values_ipv6() {
    let raw = decode(CAPTURE);
    let ip = Packet::new(&raw[ETHER_HEADER..]).unwrap();

    assert_eq!(ip.source(), SOURCE);
    assert_eq!(ip.destination(), DESTINATION);
    assert_eq!(ip.version(), 6);
    assert_eq!(ip.payload_length(), 92);
    assert_eq!(ip.next_header(), 17);
    assert_eq!(ip.hop_limit(), 255);
    assert_eq!(ip.payload().len(), 92);
}

#[test]
fn values_set_ipv6() {
    let mut raw = decode(CAPTURE);
    let mut ip = Packet::no_payload(&mut raw[ETHER_HEADER..]).unwrap();

    assert_eq!(ip.source(), SOURCE);
    assert_eq!(ip.destination(), DESTINATION);

    let mut changed = DESTINATION;
    changed[15] = 0x61;
    ip.set_destination(changed).unwrap();

    assert_eq!(ip.destination(), changed);
}

#[test]
fn builder() {
    let mut raw = decode(CAPTURE);
    let ip = Packet::no_payload(&mut raw[ETHER_HEADER..]).unwrap();

    let new_ip = Builder::default()
        .traffic_class(ip.traffic_class())
        .unwrap()
        .destination(ip.destination())
        .unwrap()
        .next_header(ip.next_header())
        .unwrap()
        .flow_label(ip.flow_label())
        .unwrap()
        .source(ip.source())
        .unwrap()
        .hop_limit(ip.hop_limit())
        .unwrap()
        .payload(ip.payload())
        .unwrap()
        .build()
        .unwrap();
    assert_eq!(ip.as_ref().to_vec(), new_ip);
}

#[test]
fn round_trip_through_builder() {
    let payload = [1u8, 2, 3, 4, 5];
    let built = Builder::default()
        .traffic_class(0xab)
        .unwrap()
        .flow_label(0xfedcb)
        .unwrap()
        .next_header(6)
        .unwrap()
        .hop_limit(3)
        .unwrap()
        .source(SOURCE)
        .unwrap()
        .destination(DESTINATION)
        .unwrap()
        .payload(&payload)
        .unwrap()
        .build()
        .unwrap();
    assert_eq!(built.len(), HEADER_SIZE + payload.len());
    let p = Packet::new(&built[..]).unwrap();
    assert_eq!(p.version(), 6);
    assert_eq!(p.traffic_class(), 0xab);
    assert_eq!(p.flow_label(), 0xfedcb);
    assert_eq!(p.payload_length(), 5);
    assert_eq!(p.next_header(), 6);
    assert_eq!(p.hop_limit(), 3);
    assert_eq!(p.source(), SOURCE);
    assert_eq!(p.destination(), DESTINATION);
    assert_eq!(p.payload(), &payload[..]);
}

#[test]
fn built_header_bytes() {
    let built = Builder::default()
        .traffic_class(0xab)
        .unwrap()
        .flow_label(0xfedcb)
        .unwrap()
        .build()
        .unwrap();
    assert_eq!(&built[..4], &[0x6a, 0xbf, 0xed, 0xcb]);
    assert_eq!(built.len(), 40);
}

#[test]
fn flow_label_keeps_low_20_bits() {
    let built = Builder::default().flow_label(0xfff12345).unwrap().build().unwrap();
    assert_eq!(Packet::new(&built[..]).unwrap().flow_label(), 0x12345);
}

#[test]
fn short_buffer_is_rejected() {
    let short = vec![0x60u8; 39];
    assert!(matches!(Packet::new(&short[..]), Err(Error::SmallBuffer)));
    assert!(matches!(Packet::no_payload(&short[..]), Err(Error::SmallBuffer)));
    let empty: Vec<u8> = Vec::new();
    assert!(matches!(Packet::new(&empty[..]), Err(Error::SmallBuffer)));
}

#[test]
fn wrong_version_is_rejected() {
    let mut v = header(0);
    v[0] = 0x45;
    assert!(matches!(Packet::new(&v[..]), Err(Error::InvalidPacket)));
    assert!(matches!(Packet::no_payload(&v[..]), Err(Error::InvalidPacket)));
    v[0] = 0x7f;
    assert!(matches!(Packet::new(&v[..]), Err(Error::InvalidPacket)));
}

#[test]
fn declared_length_beyond_buffer_is_rejected() {
    let v = header(41);
    assert!(matches!(Packet::new(&v[..]), Err(Error::SmallBuffer)));
    assert!(Packet::no_payload(&v[..]).is_ok());
    assert!(matches!(Packet::new(&header(40)[..]), Err(Error::SmallBuffer)));
    let mut whole = header(40);
    whole.extend_from_slice(&[0u8; 40]);
    assert!(Packet::new(&whole[..]).is_ok());
    let mut short = header(40);
    short.extend_from_slice(&[0u8; 39]);
    assert!(matches!(Packet::new(&short[..]), Err(Error::SmallBuffer)));
}

#[test]
fn traffic_class_and_flow_label_do_not_interfere() {
    let classes = [0x00u8, 0xff, 0xaa, 0x55];
    let labels = [0x00000u32, 0xfffff, 0xaaaaa, 0x55555];
    for &tc in classes.iter() {
        for &fl in labels.iter() {
            let mut p = Packet::unchecked(header(0));
            p.set_flow_label(fl).unwrap();
            p.set_traffic_class(tc).unwrap();
            assert_eq!(p.flow_label(), fl);
            assert_eq!(p.traffic_class(), tc);
            assert_eq!(p.version(), 6);
            p.set_flow_label(fl ^ 0xfffff).unwrap();
            assert_eq!(p.traffic_class(), tc);
            assert_eq!(p.flow_label(), fl ^ 0xfffff);
            assert_eq!(p.version(), 6);
        }
    }
}

#[test]
fn size_of_header_with_empty_payload() {
    let p = Packet::unchecked(header(0));
    assert_eq!(p.size(), 40);
    assert_eq!(p.payload_size(), 0);
    let p = Packet::unchecked(header(10));
    assert_eq!(p.size(), 50);
    assert_eq!(p.as_ref().len(), 40);
    assert_eq!(Packet::<Vec<u8>>::min(), 40);
    assert_eq!(Packet::<Vec<u8>>::max(), 65535);
}

#[test]
fn payload_twice_is_refused() {
    let first = [9u8, 8, 7];
    let b = Builder::default().payload(&first).unwrap();
    assert!(matches!(b.payload(&[1u8]), Err(Error::AlreadyDefined)));
    let b = Builder::default().payload(&first).unwrap();
    let built = b.build().unwrap();
    assert_eq!(&built[40..], &first);
    assert_eq!(built[5], 3);
}

#[test]
fn empty_payload_builds_bare_header() {
    let built = Builder::default().payload(&[]).unwrap().build().unwrap();
    assert_eq!(built, header(0));
}

#[test]
fn checked_guard_chains_setters() {
    let mut p = Packet::unchecked(header(0));
    {
        let mut c: Checked<'_, Vec<u8>> = p.checked();
        c.set_hop_limit(9)
            .unwrap()
            .set_next_header(58)
            .unwrap()
            .set_payload_length(0x1234)
            .unwrap()
            .set_traffic_class(0xc3)
            .unwrap()
            .set_flow_label(0x0f0f0)
            .unwrap()
            .set_source(SOURCE)
            .unwrap()
            .set_destination(DESTINATION)
            .unwrap();
    }
    assert_eq!(p.hop_limit(), 9);
    assert_eq!(p.next_header(), 58);
    assert_eq!(p.payload_length(), 0x1234);
    assert_eq!(p.traffic_class(), 0xc3);
    assert_eq!(p.flow_label(), 0x0f0f0);
    assert_eq!(p.source(), SOURCE);
    assert_eq!(p.destination(), DESTINATION);
    assert_eq!(p.version(), 6);
}

#[test]
fn owned_copy_and_split() {
    let raw = decode(CAPTURE);
    let ip = Packet::new(&raw[ETHER_HEADER..]).unwrap();
    let owned = ip.to_owned();
    assert_eq!(owned.source(), SOURCE);
    let (h, rest) = ip.split();
    assert_eq!(h.len(), 40);
    assert_eq!(rest.len(), 92);
    assert_eq!(owned.into_inner(), raw[ETHER_HEADER..].to_vec());
}

#[test]
fn builder_on_dynamic_buffer() {
    let b = Builder::with(Dynamic::new()).unwrap();
    let p = b.as_packet().unwrap();
    assert_eq!(p.version(), 6);
    assert_eq!(p.as_ref().len(), 40);
}

#[test]
fn mutable_views_write_through() {
    let mut v = header(2);
    v.extend_from_slice(&[1, 2, 3]);
    let mut p = Packet::unchecked(v);
    {
        let window = p.as_mut();
        assert_eq!(window.len(), 42);
        window[41] = 9;
    }
    {
        let (h, rest) = p.split_mut();
        assert_eq!(h.len(), 40);
        assert_eq!(rest.len(), 3);
        h[7] = 33;
        rest[2] = 7;
    }
    assert_eq!(p.hop_limit(), 33);
    assert_eq!(p.payload(), &[1u8, 9]);
    assert_eq!(p.into_inner()[42], 7);
}

#[test]
fn second_payload_refused_even_when_empty() {
    let b = Builder::default().payload(&[1u8, 2]).unwrap();
    assert!(matches!(b.payload(&[]), Err(Error::AlreadyDefined)));
}

#[test]
fn builder_mutable_packet_view() {
    let mut b = Builder::default().payload(&[5u8, 6]).unwrap();
    {
        let mut p = b.as_packet_mut().unwrap();
        p.set_hop_limit(12).unwrap();
    }
    let built = b.build().unwrap();
    assert_eq!(built[7], 12);
    assert_eq!(&built[40..], &[5u8, 6]);

    let mut bad = Builder::default().payload_length(3).unwrap();
    assert!(matches!(bad.as_packet_mut(), Err(Error::SmallBuffer)));
}

#[test]
fn builder_on_borrowed_slice() {
    let mut storage = [0xeeu8; 50];
    let built = Builder::with(Slice::new(&mut storage[..], 4))
        .unwrap()
        .hop_limit(7)
        .unwrap()
        .payload(&[1u8, 2, 3])
        .unwrap()
        .build()
        .unwrap();
    assert_eq!(built.len(), 50);
    assert_eq!(&built[..4], &[0xeeu8; 4]);
    assert_eq!(built[4], 0x60);
    assert_eq!(built[11], 7);
    assert_eq!(built[9], 3);
    assert_eq!(&built[44..47], &[1u8, 2, 3]);
    assert_eq!(&built[47..], &[0xeeu8; 3]);
}

#[test]
fn borrowed_slice_runs_out_of_room() {
    let mut storage = [0u8; 42];
    let b = Builder::with(Slice::new(&mut storage[..], 0)).unwrap();
    assert!(matches!(b.payload(&[1u8, 2, 3]), Err(Error::OutOfCapacity)));

    let mut small = [0u8; 39];
    assert!(matches!(Builder::with(Slice::new(&mut small[..], 0)), Err(Error::SmallBuffer)));
}
