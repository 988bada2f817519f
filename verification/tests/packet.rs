use deterix::codec::{read_be, write_be, write_bytes};
use deterix::text::text_of_field;
use deterix::{
    PacketBufferPool, PacketBuilder, PacketType, PacketView, PayloadView, Schedule, StatusCode,
    MAGIC, PACKET_SIZE, TOKEN,
};

#[test]
fn ack_reads_back() {
    let mut pool = PacketBufferPool::new();
    let buf = PacketBuilder::new_ack(&mut pool, 1, 2, 0xDEAD_BEEF_0102_0304).unwrap();
    assert_eq!(buf.as_bytes().len(), 44);
    let view = PacketView::new(buf);
    assert_eq!(view.magic(), MAGIC);
    assert_eq!(view.ptype(), PacketType::Ack);
    assert_eq!(view.src(), 1);
    assert_eq!(view.dst(), 2);
    assert_ne!(view.uid(), 0);
    match view.payload() {
        PayloadView::Ack(ack) => assert_eq!(ack.uid(), 0xDEAD_BEEF_0102_0304),
        _ => panic!("not an ack"),
    }
    assert_eq!(&view.buffer.as_slice()[36..44], &[0xDE, 0xAD, 0xBE, 0xEF, 1, 2, 3, 4]);
}

#[test]
fn status_reads_back() {
    let mut pool = PacketBufferPool::new();
    let buf =
        PacketBuilder::new_status(&mut pool, 3, 4, StatusCode::ChecksumMismatch, "bad sum").unwrap();
    assert_eq!(buf.as_bytes().len(), 37 + 7);
    let view = PacketView::new(buf);
    assert_eq!(view.ptype(), PacketType::Status);
    match view.payload() {
        PayloadView::Status(st) => {
            assert_eq!(st.code(), StatusCode::ChecksumMismatch);
            assert_eq!(st.message(), "bad sum");
        }
        _ => panic!("not a status"),
    }
}

#[test]
fn long_status_message_reads_back_its_first_128_bytes() {
    let mut pool = PacketBufferPool::new();
    let message = "m".repeat(200);
    let buf =
        PacketBuilder::new_status(&mut pool, 3, 4, StatusCode::Success, &message).unwrap();
    let view = PacketView::new(buf);
    match view.payload() {
        PayloadView::Status(st) => assert_eq!(st.message(), &message[..128]),
        _ => panic!("not a status"),
    }
}

#[test]
fn status_message_drops_trailing_nuls() {
    let mut pool = PacketBufferPool::new();
    let buf = PacketBuilder::new_status(&mut pool, 3, 4, StatusCode::Success, "hi\0\0").unwrap();
    let view = PacketView::new(buf);
    match view.payload() {
        PayloadView::Status(st) => {
            assert_eq!(st.code(), StatusCode::Success);
            assert_eq!(st.message(), "hi");
        }
        _ => panic!("not a status"),
    }
}

#[test]
fn data_reads_back() {
    let mut pool = PacketBufferPool::new();
    let buf = PacketBuilder::new_data(&mut pool, 1, 2, "file.txt", &[5, 6, 7]).unwrap();
    assert_eq!(buf.as_bytes().len(), 169);
    let view = PacketView::new(buf);
    assert_eq!(view.ptype(), PacketType::Data);
    match view.payload() {
        PayloadView::Data(d) => {
            assert_eq!(d.name(), "file.txt");
            assert_eq!(d.size(), 3);
            assert_eq!(d.data(), &[5u8, 6, 7][..]);
        }
        _ => panic!("not data"),
    }
}

#[test]
fn data_size_above_255_reads_back() {
    let mut pool = PacketBufferPool::new();
    let data = vec![7u8; 300];
    let buf = PacketBuilder::new_data(&mut pool, 1, 2, "x", &data).unwrap();
    assert_eq!(buf.as_bytes().len(), 466);
    assert_eq!(&buf.as_slice()[164..166], &[1, 44]);
    let view = PacketView::new(buf);
    match view.payload() {
        PayloadView::Data(d) => {
            assert_eq!(d.name(), "x");
            assert_eq!(d.size(), 300);
            assert_eq!(d.data(), &data[..]);
        }
        _ => panic!("not data"),
    }
}

#[test]
fn full_kilobyte_of_data_reads_back() {
    let mut pool = PacketBufferPool::new();
    let data = [1u8].repeat(1024);
    let buf = PacketBuilder::new_data(&mut pool, 2, 1, "", &data).unwrap();
    assert_eq!(buf.as_bytes().len(), 1190);
    assert_eq!(&buf.as_bytes()[166..], &data[..]);
    let view = PacketView::new(buf);
    match view.payload() {
        PayloadView::Data(d) => {
            assert_eq!(d.size(), 1024);
            assert_eq!(d.data(), &data[..]);
        }
        _ => panic!("not data"),
    }
}

#[test]
fn join_request_reads_back() {
    let mut pool = PacketBufferPool::new();
    let buf = PacketBuilder::new_join_req(&mut pool, 7, 0, 7).unwrap();
    assert_eq!(buf.as_bytes().len(), 40);
    let view = PacketView::new(buf);
    assert_eq!(view.ptype(), PacketType::JoinReq);
    match view.payload() {
        PayloadView::JoinReq(r) => assert_eq!(r.node_id(), 7),
        _ => panic!("not a join request"),
    }
}

#[test]
fn join_response_reads_back() {
    let mut pool = PacketBufferPool::new();
    let schedule = Schedule::new();
    let buf =
        PacketBuilder::new_join_resp(&mut pool, 0, 7, 1, 10_000, 1_700_000_000_000_000, &schedule)
            .unwrap();
    assert_eq!(buf.as_bytes().len(), 183);
    let view = PacketView::new(buf);
    assert_eq!(view.ptype(), PacketType::JoinResp);
    assert_eq!(view.dst(), 7);
    match view.payload() {
        PayloadView::JoinResp(r) => {
            assert_eq!(r.permitted(), 1);
            assert_eq!(r.slot_duration(), 10_000);
            assert_eq!(r.reference_clock(), 1_700_000_000_000_000);
            assert_eq!(r.schedule().slots, schedule.slots);
        }
        _ => panic!("not a join response"),
    }
}

#[test]
fn header_layout_is_exact() {
    let mut pool = PacketBufferPool::new();
    let mut b = PacketBuilder::new(pool.take().unwrap());
    b.write_header_fields(PacketType::Data, 0x0102_0304, 0x0A0B_0C0D, 7, 0x1122_3344_5566_7788, 42);
    let buf = b.into_buffer();
    let s = buf.as_slice();
    assert_eq!(&s[0..2], &[0xCA, 0xFE]);
    assert_eq!(&s[2..10], &[0x11, 0x22, 0x33, 0x44, 0x55, 0x66, 0x77, 0x88]);
    assert_eq!(s[10], 2);
    assert_eq!(&s[11..15], &[1, 2, 3, 4]);
    assert_eq!(&s[15..19], &[0x0A, 0x0B, 0x0C, 0x0D]);
    assert_eq!(s[19], 7);
    assert_eq!(&s[20..28], &TOKEN.to_be_bytes());
    assert_eq!(&s[28..36], &[0, 0, 0, 0, 0, 0, 0, 42]);
    assert!(s[36..].iter().all(|x| *x == 0));
    let view = PacketView::new(buf);
    assert_eq!(view.uid(), 0x1122_3344_5566_7788);
    assert_eq!(view.src(), 0x0102_0304);
    assert_eq!(view.dst(), 0x0A0B_0C0D);
}

#[test]
fn builder_zeroes_the_buffer() {
    let mut pool = PacketBufferPool::new();
    let mut buf = pool.take().unwrap();
    buf.as_mut_slice()[100] = 5;
    let b = PacketBuilder::new(buf);
    let buf = b.into_buffer();
    assert!(buf.as_slice().iter().all(|x| *x == 0));
    assert_eq!(buf.as_bytes().len(), PACKET_SIZE);
}

#[test]
fn payload_writers_set_the_size() {
    let mut pool = PacketBufferPool::new();
    let mut b = PacketBuilder::new(pool.take().unwrap());
    b.write_ack_payload(5);
    assert_eq!(b.into_buffer().as_bytes().len(), 44);
    let mut b = PacketBuilder::new(pool.take().unwrap());
    b.write_join_req_payload(5);
    assert_eq!(b.into_buffer().as_bytes().len(), 40);
    let mut b = PacketBuilder::new(pool.take().unwrap());
    b.write_join_resp_payload(0, 1, 2, &Schedule::default());
    assert_eq!(b.into_buffer().as_bytes().len(), 183);
    let mut b = PacketBuilder::new(pool.take().unwrap());
    b.write_status_payload(StatusCode::Success, "abc");
    assert_eq!(b.into_buffer().as_bytes().len(), 40);
    let mut b = PacketBuilder::new(pool.take().unwrap());
    b.write_data_payload("n", &[1, 2]);
    let buf = b.into_buffer();
    assert_eq!(buf.as_bytes().len(), 168);
    assert_eq!(buf.as_slice()[36], b'n');
    assert_eq!(&buf.as_slice()[164..168], &[0, 2, 1, 2]);
}

#[test]
fn every_packet_gets_its_own_uid_and_a_current_timestamp() {
    let mut pool = PacketBufferPool::new();
    let a = PacketView::new(PacketBuilder::new_ack(&mut pool, 1, 2, 3).unwrap());
    let b = PacketView::new(PacketBuilder::new_ack(&mut pool, 1, 2, 3).unwrap());
    assert_ne!(a.uid(), 0);
    assert_ne!(b.uid(), 0);
    assert_ne!(a.uid(), b.uid());
    let ts = read_be(a.buffer.as_slice(), 28, 8);
    // 2020-01-01 in microseconds since the epoch.
    assert!(ts > 1_577_836_800_000_000);
}

#[test]
fn builders_fail_on_an_exhausted_pool() {
    let mut pool = PacketBufferPool::new();
    let mut held = Vec::new();
    while let Some(b) = pool.take() {
        held.push(b);
    }
    assert!(PacketBuilder::new_ack(&mut pool, 1, 2, 3).is_none());
    assert!(PacketBuilder::new_status(&mut pool, 1, 2, StatusCode::Success, "x").is_none());
    assert!(PacketBuilder::new_data(&mut pool, 1, 2, "x", &[1]).is_none());
    assert!(PacketBuilder::new_join_req(&mut pool, 1, 0, 1).is_none());
    assert!(PacketBuilder::new_join_resp(&mut pool, 0, 1, 1, 5, 5, &Schedule::new()).is_none());
}

#[test]
fn unknown_type_byte_is_reported() {
    let mut pool = PacketBufferPool::new();
    let mut buf = pool.take().unwrap();
    buf.as_mut_slice()[10] = 9;
    let view = PacketView::new(buf);
    assert!(!view.has_known_type());
    let mut buf = pool.take().unwrap();
    buf.as_mut_slice()[10] = 4;
    assert!(PacketView::new(buf).has_known_type());
}

#[test]
fn type_and_code_bytes() {
    assert_eq!(PacketType::from_byte(0), PacketType::Ack);
    assert_eq!(PacketType::from_byte(1), PacketType::Status);
    assert_eq!(PacketType::from_byte(2), PacketType::Data);
    assert_eq!(PacketType::from_byte(3), PacketType::JoinReq);
    assert_eq!(PacketType::from_byte(4), PacketType::JoinResp);
    assert_eq!(PacketType::JoinResp.to_byte(), 4);
    assert_eq!(StatusCode::from_byte(0), StatusCode::Success);
    assert_eq!(StatusCode::from_byte(1), StatusCode::ChecksumMismatch);
    assert_eq!(StatusCode::ChecksumMismatch.to_byte(), 1);
}

#[test]
fn big_endian_fields() {
    let mut v = vec![0u8; 12];
    write_be(&mut v, 1, 0x0102_0304_0506_0708, 8);
    assert_eq!(v, vec![0, 1, 2, 3, 4, 5, 6, 7, 8, 0, 0, 0]);
    assert_eq!(read_be(&v, 1, 8), 0x0102_0304_0506_0708);
    write_be(&mut v, 9, 0xABCDEF, 2);
    assert_eq!(&v[9..11], &[0xCD, 0xEF]);
    assert_eq!(read_be(&v, 9, 2), 0xCDEF);
    assert_eq!(read_be(&v, 0, 0), 0);
    write_bytes(&mut v, 10, &[7, 7]);
    assert_eq!(&v[9..12], &[0xCD, 7, 7]);
}

#[test]
fn text_fields_drop_trailing_zeros() {
    assert_eq!(text_of_field(b"abc\0\0\0"), "abc");
    assert_eq!(text_of_field(b"\0\0"), "");
    assert_eq!(text_of_field("h\u{e9}!".as_bytes()), "h\u{e9}!");
    assert_eq!(text_of_field(b"a\0b\0"), "a\0b");
}

#[test]
fn fields_of_received_payloads_are_checked_before_reading() {
    let mut pool = PacketBufferPool::new();
    let mut buf = PacketBuilder::new_status(&mut pool, 1, 2, StatusCode::Success, "ok").unwrap();
    buf.as_mut_slice()[36] = 5;
    buf.as_mut_slice()[38] = 0xFF;
    let view = PacketView::new(buf);
    match view.payload() {
        PayloadView::Status(st) => {
            assert!(!st.has_known_code());
            assert!(!st.message_is_text());
        }
        _ => panic!("not a status"),
    }
    let good = PacketView::new(
        PacketBuilder::new_status(&mut pool, 1, 2, StatusCode::Success, "ok").unwrap(),
    );
    match good.payload() {
        PayloadView::Status(st) => {
            assert!(st.has_known_code());
            assert!(st.message_is_text());
        }
        _ => panic!("not a status"),
    }
    let mut buf = PacketBuilder::new_data(&mut pool, 1, 2, "n\u{e9}", &[1]).unwrap();
    let data = PacketView::new(PacketBuilder::new_data(&mut pool, 1, 2, "n", &[1]).unwrap());
    match data.payload() {
        PayloadView::Data(d) => {
            assert!(d.name_is_text());
            assert!(d.data_fits());
        }
        _ => panic!("not data"),
    }
    buf.as_mut_slice()[38] = 0x41;
    buf.as_mut_slice()[164] = 0xFF;
    let view = PacketView::new(buf);
    match view.payload() {
        PayloadView::Data(d) => {
            assert!(!d.name_is_text());
            assert!(!d.data_fits());
        }
        _ => panic!("not data"),
    }
    let resp = PacketView::new(
        PacketBuilder::new_join_resp(&mut pool, 0, 1, 1, 5, 5, &Schedule::new()).unwrap(),
    );
    match resp.payload() {
        PayloadView::JoinResp(r) => assert!(r.schedule_is_readable()),
        _ => panic!("not a join response"),
    }
}
