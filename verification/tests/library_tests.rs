use quickdrop::discovery::{
    advertised_name, announcement, ble_device_fresh, from_other_device, is_own_ip, merge_discovered,
    parse_announcement, str_eq, udp_device_fresh, BleDevice,
};
use quickdrop::identity::{add_trusted, device_id, generate_nonce, is_trusted, remove_trusted, Store};
use quickdrop::protocol::{
    CLIPBOARD, FILE_BEGIN, FILE_CHUNK, FILE_END, FILE_OFFER, FILE_UPLOAD, OFFER_ACCEPT,
    OFFER_REJECT, RESUME_MIN_BYTES, RESUME_REWIND_BYTES,
};
use quickdrop::session::{classify_message, respond_to_offer, resume_plan, resume_step, IncomingState, ResumePlan, ResumeStep, SessionError, SessionEvent};
use quickdrop::state::{keep_alive_push, CancelledTransfers, PendingOffers, TransferAction};
use quickdrop::text::{decimal_string, hex_lower, hex_upper};
use quickdrop::transfer::{
    body_complete, bytes_to_receive, check_file_begin, check_file_name,
    file_header_payload, next_read_len, numbered_name, offer_accept_payload, parse_file_header,
    parse_offer_reply, partial_name, unconfirmed_name, upload_plan, TransferError, UploadPlan,
};
use quickdrop::ui::{resolve_download_dir, transfer_event_name, trusted_device_list, Settings, DEFAULT_PORT};
use quickdrop::wifi::{ipv4_string, parse_group_info, parse_hotspot_credentials, ssid_hex, wlan_profile_xml};

#[test]
fn device_id_is_hex_of_sha256() {
    assert_eq!(
        device_id(&[]),
        "e3b0c44298fc1c149afbf4c8996fb92427ae41e4649b934ca495991b7852b855"
    );
    assert_eq!(
        device_id(b"abc"),
        "ba7816bf8f01cfea414140de5dae2223b00361a396177a9cb410ff61f20015ad"
    );
}

#[test]
fn trust_add_check_remove() {
    let mut store = Store::new();
    let pk = [4u8; 32];
    assert!(!is_trusted(&store, &pk));
    assert!(add_trusted(&mut store, &pk, "desk"));
    assert!(is_trusted(&store, &pk));
    assert!(!add_trusted(&mut store, &pk, "other name"));
    let id = device_id(&pk);
    let d = store.get(&id).unwrap();
    assert_eq!(d.name, "desk");
    assert_eq!(d.public_key, "BAQEBAQEBAQEBAQEBAQEBAQEBAQEBAQEBAQEBAQEBAQ=");
    assert_eq!(store.device_ids().len(), 1);
    remove_trusted(&mut store, &id);
    assert!(!is_trusted(&store, &pk));
    assert!(store.device_ids().is_empty());
}

#[test]
fn trusted_list_has_every_device_once() {
    let mut store = Store::new();
    add_trusted(&mut store, &[1u8; 32], "one");
    add_trusted(&mut store, &[2u8; 32], "two");
    let list = trusted_device_list(&store);
    assert_eq!(list.len(), 2);
    let mut names: Vec<&str> = list.iter().map(|d| d.name.as_str()).collect();
    names.sort();
    assert_eq!(names, vec!["one", "two"]);
    assert!(list.iter().all(|d| d.id == device_id(if d.name == "one" { &[1u8; 32] } else { &[2u8; 32] })));
}

#[test]
fn nonces_differ() {
    assert_ne!(generate_nonce(), generate_nonce());
}

#[test]
fn file_header_roundtrip_and_errors() {
    let p = file_header_payload(1234, "notes.txt");
    assert_eq!(&p[..10], &[0, 0, 0, 0, 0, 0, 4, 210, 0, 9]);
    assert_eq!(parse_file_header(&p), Ok((1234, "notes.txt".to_string())));
    assert_eq!(parse_file_header(&p[..9]), Err(TransferError::InvalidData));
    assert_eq!(parse_file_header(&p[..11]), Err(TransferError::InvalidLength));
    let mut bad = p[..10].to_vec();
    bad[9] = 1;
    bad.push(0xff);
    assert_eq!(parse_file_header(&bad), Err(TransferError::InvalidUtf8));
}

#[test]
fn offer_reply_carries_resume_offset() {
    assert_eq!(offer_accept_payload(0), Vec::<u8>::new());
    assert_eq!(parse_offer_reply(OFFER_ACCEPT, &offer_accept_payload(0)), Ok(0));
    assert_eq!(parse_offer_reply(OFFER_ACCEPT, &offer_accept_payload(777)), Ok(777));
    assert_eq!(parse_offer_reply(OFFER_ACCEPT, &[1, 2, 3]), Ok(0));
    assert_eq!(parse_offer_reply(OFFER_REJECT, &[]), Err(TransferError::OfferRejected));
}

#[test]
fn file_begin_must_match_offer() {
    let p = file_header_payload(10, "a.bin");
    assert_eq!(check_file_begin(FILE_BEGIN, &p, 10, "a.bin"), Ok("a.bin".to_string()));
    assert_eq!(check_file_begin(FILE_BEGIN, &p, 11, "a.bin"), Err(TransferError::OfferMismatch));
    assert_eq!(check_file_begin(FILE_BEGIN, &p, 10, "b.bin"), Err(TransferError::OfferMismatch));
    assert_eq!(check_file_begin(FILE_CHUNK, &p, 10, "a.bin"), Err(TransferError::InvalidData));
}

#[test]
fn file_names_that_escape_are_refused() {
    assert_eq!(check_file_name("report.pdf"), Ok(()));
    assert_eq!(check_file_name("a.txt"), Ok(()));
    assert_eq!(check_file_name("/etc/x"), Err(TransferError::DirectoryTraversal));
    assert_eq!(check_file_name("a/b"), Err(TransferError::DirectoryTraversal));
    assert_eq!(check_file_name(".."), Err(TransferError::DirectoryTraversal));
    assert_eq!(check_file_name("../etc/passwd"), Err(TransferError::DirectoryTraversal));
    assert_eq!(check_file_name("a..b"), Err(TransferError::DirectoryTraversal));
    assert_eq!(check_file_name("/abs"), Err(TransferError::DirectoryTraversal));
    assert_eq!(check_file_name("dir/file"), Err(TransferError::DirectoryTraversal));
}

#[test]
fn receive_names() {
    assert_eq!(unconfirmed_name("a.txt"), "a.txt.unconfirmed");
    assert_eq!(numbered_name("photo", 2, "jpg"), "photo (2).jpg");
    assert_eq!(numbered_name("README", 10, ""), "README (10)");
}

#[test]
fn body_accounting() {
    assert_eq!(bytes_to_receive(100, 30), 70);
    assert_eq!(bytes_to_receive(100, 300), 0);
    assert_eq!(next_read_len(5, 4096), 5);
    assert_eq!(next_read_len(10000, 4096), 4096);
    assert_eq!(upload_plan(10, true, 4), UploadPlan { keep_partial: true, to_receive: 6 });
    assert_eq!(upload_plan(10, true, 0), UploadPlan { keep_partial: false, to_receive: 10 });
    assert_eq!(upload_plan(10, false, 4), UploadPlan { keep_partial: false, to_receive: 10 });
    assert!(body_complete(FILE_END, 0, 10, 10));
    assert!(!body_complete(FILE_END, 1, 10, 10));
    assert!(!body_complete(FILE_END, 0, 9, 10));
}

#[test]
fn session_classifies_messages() {
    let offer = file_header_payload(99, "movie.mkv");
    match classify_message(&IncomingState::Idle, FILE_OFFER, offer.clone()) {
        Ok(SessionEvent::Offer { file_size, file_name }) => {
            assert_eq!(file_size, 99);
            assert_eq!(file_name, "movie.mkv");
        }
        _ => panic!("expected an offer"),
    }
    assert!(matches!(classify_message(&IncomingState::Idle, FILE_UPLOAD, vec![]), Err(SessionError::UnexpectedUpload)));
    let waiting = IncomingState::AwaitingUpload { expected_size: 99, expected_name: "movie.mkv".to_string(), resume: true, resume_offset: 7 };
    assert!(matches!(classify_message(&waiting, FILE_OFFER, offer), Err(SessionError::ProtocolError)));
    match classify_message(&waiting, FILE_UPLOAD, vec![]) {
        Ok(SessionEvent::Upload { expected_size, expected_name, resume, resume_offset }) => {
            assert_eq!((expected_size, expected_name.as_str(), resume, resume_offset), (99, "movie.mkv", true, 7));
        }
        _ => panic!("expected an upload"),
    }
    match classify_message(&IncomingState::Idle, CLIPBOARD, b"copied".to_vec()) {
        Ok(SessionEvent::Clipboard { text }) => assert_eq!(text.as_deref(), Some("copied")),
        _ => panic!("expected clipboard"),
    }
    match classify_message(&IncomingState::Idle, CLIPBOARD, vec![0xff]) {
        Ok(SessionEvent::Clipboard { text }) => assert!(text.is_none()),
        _ => panic!("expected clipboard"),
    }
    assert!(matches!(classify_message(&IncomingState::Idle, FILE_OFFER, vec![0u8; 9]), Err(SessionError::ProtocolError)));
    assert!(matches!(classify_message(&IncomingState::Idle, FILE_OFFER, vec![0u8; 11]), Err(SessionError::InvalidPayload)));
    assert!(matches!(classify_message(&IncomingState::Idle, 0x99, vec![]), Err(SessionError::ProtocolError)));
    let mut bad_name = file_header_payload(1, "a");
    bad_name[10] = 0xff;
    assert!(matches!(classify_message(&IncomingState::Idle, FILE_OFFER, bad_name), Err(SessionError::InvalidUtf8)));
}

#[test]
fn offers_are_answered() {
    let r = respond_to_offer(TransferAction::Reject, 5, "x".to_string(), false, 0);
    assert!(r.next_state == IncomingState::Idle);
    assert_eq!((r.reply_type, r.reply_payload.len(), r.trust_peer), (OFFER_REJECT, 0, false));
    let r = respond_to_offer(TransferAction::TrustAndAccept, 5, "x".to_string(), true, 3);
    assert_eq!(r.reply_type, OFFER_ACCEPT);
    assert_eq!(r.reply_payload, vec![0, 0, 0, 0, 0, 0, 0, 3]);
    assert!(r.trust_peer);
    assert!(r.next_state == IncomingState::AwaitingUpload { expected_size: 5, expected_name: "x".to_string(), resume: true, resume_offset: 3 });
    let r = respond_to_offer(TransferAction::Accept, 5, "x".to_string(), false, 0);
    assert!(!r.trust_peer);
    assert!(r.reply_payload.is_empty());
}

#[test]
fn resume_decisions() {
    let big = 100 * RESUME_MIN_BYTES;
    assert_eq!(resume_plan(None, big), ResumePlan::StartFresh);
    assert_eq!(resume_plan(Some(0), big), ResumePlan::Discard);
    assert_eq!(resume_plan(Some(big), big), ResumePlan::Discard);
    assert_eq!(resume_plan(Some(RESUME_MIN_BYTES - 1), big), ResumePlan::Discard);
    assert_eq!(resume_plan(Some(2 * RESUME_MIN_BYTES), big), ResumePlan::ResumeAt(2 * RESUME_MIN_BYTES - RESUME_REWIND_BYTES));
}

#[test]
fn offers_resolve_once() {
    let mut pending: PendingOffers<u32> = PendingOffers::new();
    pending.add_pending_offer("offer-1".to_string(), 10);
    pending.add_pending_offer("offer-2".to_string(), 20);
    pending.add_pending_offer("offer-1".to_string(), 11);
    assert_eq!(pending.resolve_offer("offer-1"), Ok(11));
    assert_eq!(pending.resolve_offer("offer-1"), Err("Transfer not found or already resolved".to_string()));
    assert_eq!(pending.resolve_offer("nope"), Err("Transfer not found or already resolved".to_string()));
    assert_eq!(pending.resolve_offer("offer-2"), Ok(20));
}

#[test]
fn cancellation_is_remembered() {
    let mut c = CancelledTransfers::new();
    assert!(!c.is_cancelled("tx-1"));
    c.cancel_transfer("tx-1");
    assert!(c.is_cancelled("tx-1"));
    assert!(!c.is_cancelled("tx-2"));
}

#[test]
fn keep_alive_drops_oldest() {
    let mut v: Vec<u32> = Vec::new();
    for i in 0..20u32 {
        keep_alive_push(&mut v, i);
        assert!(v.len() <= 11);
    }
    assert_eq!(v, (9..20).collect::<Vec<u32>>());
}

#[test]
fn discovered_devices_merge() {
    let udp = vec![BleDevice { id: "10.0.0.2".to_string(), name: "laptop".to_string() }];
    let ble = vec![
        BleDevice { id: "b1".to_string(), name: "laptop".to_string() },
        BleDevice { id: "b2".to_string(), name: "phone".to_string() },
    ];
    let all = merge_discovered(&udp, &ble);
    let got: Vec<(String, String)> = all.into_iter().map(|d| (d.id, d.name)).collect();
    assert_eq!(got, vec![("10.0.0.2".to_string(), "laptop".to_string()), ("b2".to_string(), "phone".to_string())]);
}

#[test]
fn announcements() {
    let msg = announcement("Laptop");
    assert_eq!(msg, "QUICKDROP_DISCOVER:Laptop");
    assert_eq!(parse_announcement(msg.as_bytes()), Some("Laptop".to_string()));
    assert_eq!(parse_announcement(b"QUICKDROP_DISCOVER:Laptop:55433"), Some("Laptop".to_string()));
    assert_eq!(parse_announcement(b"QUICKDROP_DISCOVER:Laptop:+80"), Some("Laptop".to_string()));
    assert_eq!(parse_announcement(b"QUICKDROP_DISCOVER:a:b"), Some("a:b".to_string()));
    assert_eq!(parse_announcement(b"QUICKDROP_DISCOVER:a:70000"), Some("a:70000".to_string()));
    assert_eq!(parse_announcement(b"QUICKDROP_DISCOVER:a:"), Some("a:".to_string()));
    assert_eq!(parse_announcement(b"HELLO:x"), None);
    assert_eq!(parse_announcement(&[0xff, 0xfe]), None);
}

#[test]
fn announcement_filters() {
    assert!(from_other_device("phone", "laptop", "10.0.0.3", false));
    assert!(!from_other_device("laptop", "laptop", "10.0.0.3", false));
    assert!(!from_other_device("phone", "laptop", "127.0.0.1", false));
    assert!(!from_other_device("phone", "laptop", "0.0.0.0", false));
    assert!(!from_other_device("phone", "laptop", "10.0.0.3", true));
    let locals = vec!["10.0.0.5".to_string(), "192.168.1.2".to_string()];
    assert!(is_own_ip("192.168.1.2", &locals));
    assert!(!is_own_ip("192.168.1.3", &locals));
    assert!(str_eq("é", "é"));
    assert!(!str_eq("a", "ab"));
    assert!(udp_device_fresh(9_999_999_999));
    assert!(!udp_device_fresh(10_000_000_000));
    assert!(ble_device_fresh(30));
    assert!(!ble_device_fresh(31));
    assert_eq!(advertised_name(None), "Nearby Device");
    assert_eq!(advertised_name(Some("Pixel".to_string())), "Pixel");
}

#[test]
fn hotspot_credentials() {
    let mut buf = vec![192, 168, 49, 1, 4];
    buf.extend_from_slice(b"DIRE");
    buf.push(3);
    buf.extend_from_slice(b"pwd");
    let c = parse_hotspot_credentials(&buf).unwrap();
    assert_eq!((c.go_ip.as_str(), c.ssid.as_str(), c.pass.as_str()), ("192.168.49.1", "DIRE", "pwd"));
    assert!(parse_hotspot_credentials(&[1, 2, 3]).is_none());
}

#[test]
fn group_info() {
    assert!(parse_group_info(&[0, 1, 2, 3, 4, 5, 6]).is_none());
    let c = parse_group_info(&[1, 10, 0, 0, 1, 0, 0]).unwrap();
    assert_eq!((c.go_ip.as_str(), c.ssid.as_str(), c.pass.as_str()), ("10.0.0.1", "", ""));
    let mut data = vec![1, 192, 168, 49, 1, 0, 0, 2];
    data.extend_from_slice(b"ab");
    data.push(2);
    data.extend_from_slice(b"xy");
    let c = parse_group_info(&data).unwrap();
    assert_eq!((c.ssid.as_str(), c.pass.as_str()), ("ab", "xy"));
    let c = parse_group_info(&[1, 1, 1, 1, 1, 0, 0, 9, 1]).unwrap();
    assert_eq!((c.ssid.as_str(), c.pass.as_str()), ("", ""));
}

#[test]
fn addresses_and_profiles() {
    assert_eq!(ipv4_string(0, 255, 10, 7), "0.255.10.7");
    assert_eq!(ssid_hex("DIRECT-ab"), "4449524543542D6162");
    let xml = wlan_profile_xml("Net", "secret");
    assert!(xml.starts_with("<?xml version=\"1.0\"?>\n<WLANProfile"));
    assert!(xml.contains("<name>Net</name>"));
    assert!(xml.contains("<hex>4E6574</hex>"));
    assert!(xml.contains("<keyMaterial>secret</keyMaterial>"));
    assert!(xml.ends_with("</WLANProfile>"));
}

#[test]
fn text_notation() {
    assert_eq!(hex_lower(&[0x00, 0xab, 0x7f]), "00ab7f");
    assert_eq!(hex_upper(&[0x00, 0xab, 0x7f]), "00AB7F");
    assert_eq!(decimal_string(0), "0");
    assert_eq!(decimal_string(u64::MAX), "18446744073709551615");
}

#[test]
fn front_end_helpers() {
    assert_eq!(transfer_event_name("done"), "transfer-complete");
    assert_eq!(transfer_event_name("error"), "transfer-error");
    assert_eq!(transfer_event_name("active"), "transfer-progress");
    assert_eq!(resolve_download_dir("./downloads".to_string(), "/home/u/Downloads".to_string()), "/home/u/Downloads");
    assert_eq!(resolve_download_dir("/data".to_string(), "/home/u/Downloads".to_string()), "/data");
    let s = Settings::with_defaults("pc".to_string(), "/dl".to_string());
    assert_eq!((s.local_name.as_str(), s.download_dir.as_str(), s.run_in_tray, s.port), ("pc", "/dl", false, DEFAULT_PORT));
}

#[test]
fn stale_partials_are_left_alone() {
    assert_eq!(partial_name("a.bin", true, true, 1), "a.bin.unconfirmed");
    assert_eq!(partial_name("a.bin", false, false, 1), "a.bin.unconfirmed");
    assert_eq!(partial_name("a.bin", false, true, 1), "a.bin (1).unconfirmed");
    assert_eq!(partial_name("a.bin", false, true, 12), "a.bin (12).unconfirmed");
}

#[test]
fn resume_steps() {
    assert_eq!(resume_step(ResumePlan::StartFresh, true), ResumeStep { delete_partial: false, offset: 0 });
    assert_eq!(resume_step(ResumePlan::Discard, true), ResumeStep { delete_partial: true, offset: 0 });
    assert_eq!(resume_step(ResumePlan::ResumeAt(500), true), ResumeStep { delete_partial: false, offset: 500 });
    assert_eq!(resume_step(ResumePlan::ResumeAt(500), false), ResumeStep { delete_partial: true, offset: 0 });
}
