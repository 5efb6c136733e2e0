use std::collections::BTreeMap;

use staccato::app::flow::RemoteEvent;
use staccato::cover::{
    album_cache_path, decode_cover_data, encode_cover_data, folder_cover, source_path, CoverState, CoverStep,
};
use staccato::library::{scan_file, scan_or_fallback, FileFacts, TagFacts};
use staccato::model::{ReplayGainInfo, ScannedTrack, Track, TrackId, TrackOrigin};
use staccato::net::addr::{DiscoveredServer, IpAddr, SocketAddr};
use staccato::net::credentials::{
    load_for_address, save_address, save_credentials, saved_token, token_to_keep,
};
use staccato::net::discovery::{instance_name, order_servers, server_name_of};
use staccato::net::identity::{
    check_certificate, fingerprint, generate_pairing_code, generate_token, pairing_code_text,
    remote_id_for,
};
use staccato::net::protocol::{decode_frame, encode_frame, CatalogTrack, Message};
use staccato::net::server::{
    catalog_snapshot, connectable_addrs, default_server_name, etag_of, find_track, handle_cover,
    handle_media, handle_stream, index_roots, is_virtual_interface, path_allowed, serve_roots,
    unreadable_start, ControlAction, Interface, Lookup, ServerState, StreamStart, Transfer,
};
use staccato::net::session::{
    already_cached, cover_request, etag_path, fetch_cover, fetch_media, media_request, ConnectOnce,
    OnceStep, RemoteCommand, Session, SessionAction, SessionEvent, SessionPhase,
};
use staccato::storage::{bump_library_revision, library_revision, upsert_track};
use staccato::time::Duration;

fn track(id: TrackId, path: &str) -> Track {
    Track {
        id,
        path: path.into(),
        title: format!("T{id}"),
        artist: "A".into(),
        album: "B".into(),
        date: None,
        track_number: None,
        duration: Duration::from_millis(1500),
        codec: "FLAC".into(),
        sample_rate: None,
        channels: None,
        file_size: 100,
        modified_ns: 7,
        unavailable: false,
        scan_error: None,
        origin: TrackOrigin::Local,
        replay_gain: ReplayGainInfo::default(),
    }
}

fn tracks() -> BTreeMap<TrackId, Track> {
    let mut remote = track(3, "staccato:fp/x");
    remote.origin = TrackOrigin::Remote {
        fingerprint: "fp".into(),
        remote_id: "x".into(),
        server_name: "S".into(),
    };
    BTreeMap::from([(1, track(1, "/m/a.flac")), (2, track(2, "/m/b.flac")), (3, remote)])
}

fn state() -> ServerState {
    ServerState::new(vec!["/m".into()], "654321".into(), "Test".into(), "print".into())
}

fn error(code: &str, message: &str) -> Message {
    Message::Error { code: code.into(), message: message.into() }
}

#[test]
fn hello_round_trips_as_length_prefixed_json() {
    let json = br#"{"v":1,"type":"hello","client_name":"staccato","token":"abc"}"#;
    let frame = encode_frame(json).expect("encode");
    assert_eq!(
        u32::from_be_bytes(frame[..4].try_into().unwrap()) as usize,
        frame.len() - 4
    );
    let value: serde_json::Value = serde_json::from_slice(&frame[4..]).unwrap();
    let hello = || Message::Hello {
        client_name: value["client_name"].as_str().unwrap().to_owned(),
        token: value["token"].as_str().map(str::to_owned),
    };
    let message = Message::Hello { client_name: "staccato".into(), token: Some("abc".into()) };
    assert_eq!(decode_frame(&frame, Some(hello())).expect("decode"), message);
    let json = std::str::from_utf8(&frame[4..]).unwrap();
    assert!(json.contains(r#""type":"hello""#));
    assert!(json.contains(r#""v":1"#));
}

#[test]
fn rescan_round_trips() {
    let frame = encode_frame(br#"{"v":1,"type":"rescan"}"#).expect("encode");
    assert_eq!(decode_frame(&frame, Some(Message::Rescan)).expect("decode"), Message::Rescan);
}

#[test]
fn unspecified_bind_is_not_advertised_as_a_client_address() {
    let bind = SocketAddr { ip: IpAddr::V4(0), port: 1744, flowinfo: 0, scope_id: 0 };
    let interface = |name: &str, loopback: bool, ip: u32| Interface {
        name: name.into(),
        loopback,
        ip: IpAddr::V4(ip),
    };
    let interfaces = vec![
        interface("lo", true, 0x7f00_0001),
        interface("wlan0", false, 0xc0a8_0109),
        interface("docker0", false, 0xac11_0001),
        interface("eth0", false, 0xc0a8_0105),
        interface("eth1", false, 0xc0a8_0105),
        Interface { name: "eth0".into(), loopback: false, ip: IpAddr::V6(5) },
    ];
    let addrs = connectable_addrs(bind, &interfaces);
    assert!(addrs.iter().all(|address| !address.ip.is_unspecified()));
    let ips: Vec<IpAddr> = addrs.iter().map(|address| address.ip).collect();
    assert_eq!(ips, vec![IpAddr::V4(0xc0a8_0105), IpAddr::V4(0xc0a8_0109)]);
    assert!(addrs.iter().all(|address| address.port == 1744));
    let fixed = SocketAddr { ip: IpAddr::V6(1), ..bind };
    assert_eq!(connectable_addrs(fixed, &interfaces), vec![fixed]);
}

#[test]
fn remote_ids_are_stable_for_a_path() {
    let path = "/music/album/track.flac";
    assert_eq!(remote_id_for(path), remote_id_for(path));
    assert_ne!(remote_id_for(path), remote_id_for("/music/album/other.flac"));
}

#[test]
fn digests_are_written_in_hexadecimal() {
    assert_eq!(
        remote_id_for("abc"),
        "ba7816bf8f01cfea414140de5dae2223b00361a396177a9cb410ff61f20015ad"
    );
    assert_eq!(fingerprint(b"abc"), remote_id_for("abc"));
}

#[test]
fn a_pinned_certificate_is_the_only_one() {
    let print = fingerprint(b"cert");
    assert_eq!(check_certificate(None, b"cert"), Ok(print.clone()));
    assert_eq!(check_certificate(Some(&print), b"cert"), Ok(print.clone()));
    assert_eq!(
        check_certificate(Some("other"), b"cert"),
        Err(format!("server certificate fingerprint {print} does not match pinned other"))
    );
}

#[test]
fn codes_and_tokens_have_their_form() {
    assert_eq!(pairing_code_text(42), "000042");
    let code = generate_pairing_code();
    assert_eq!(code.len(), 6);
    assert!(code.chars().all(|c| c.is_ascii_digit()));
    let token = generate_token();
    assert_eq!(token.len(), 64);
    assert!(token.chars().all(|c| c.is_ascii_hexdigit() && !c.is_ascii_uppercase()));
    assert_ne!(token, generate_token());
}

#[test]
fn streams_are_sorted_by_their_first_message() {
    assert!(matches!(
        handle_stream(Message::Hello { client_name: "c".into(), token: None }),
        StreamStart::Control { .. }
    ));
    assert!(matches!(
        handle_stream(Message::GetCover { remote_id: "r".into() }),
        StreamStart::Cover { .. }
    ));
    match handle_stream(Message::Ping) {
        StreamStart::Refuse { code, before, message } => {
            assert_eq!(code, "unexpected");
            assert_eq!(before, "first message cannot be ");
            assert_eq!(message, Message::Ping);
        }
        other => panic!("unexpected {other:?}"),
    }
    assert_eq!(unreadable_start("bad"), error("bad_message", "bad"));
}

#[test]
fn a_client_pairs_and_reads_the_catalog() {
    let mut state = state();
    assert_eq!(
        state.greet(9, false, None),
        Message::Welcome {
            server_name: "Test".into(),
            library_revision: 0,
            pair_required: true,
            fingerprint: "print".into(),
        }
    );
    match state.handle_control(9, Message::GetCatalog { since_revision: None }) {
        ControlAction::Send(reply) => assert_eq!(
            reply,
            error("unpaired", "pair this client before reading the catalog")
        ),
        other => panic!("unexpected {other:?}"),
    }
    match state.handle_control(9, Message::Rescan) {
        ControlAction::Send(reply) => {
            assert_eq!(reply, error("unpaired", "pair this client before rescanning"))
        }
        other => panic!("unexpected {other:?}"),
    }
    match state.handle_control(9, Message::Pair { code: "111111".into() }) {
        ControlAction::Send(reply) => {
            assert_eq!(reply, error("bad_pair", "pairing code does not match"))
        }
        other => panic!("unexpected {other:?}"),
    }
    assert!(!state.is_authorized(9));
    let token = match state.handle_control(9, Message::Pair { code: "654321".into() }) {
        ControlAction::StoreToken(token) => token,
        other => panic!("unexpected {other:?}"),
    };
    assert_eq!(state.token_stored(9, token.clone()), Message::Paired { token });
    assert!(state.is_authorized(9));
    assert!(!state.is_authorized(8));
    assert!(matches!(
        state.handle_control(9, Message::GetCatalog { since_revision: Some(2) }),
        ControlAction::LoadCatalog { since_revision: Some(2) }
    ));
    assert!(matches!(state.handle_control(9, Message::Rescan), ControlAction::Rescan));
    assert!(matches!(
        state.handle_control(9, Message::Ping),
        ControlAction::Send(Message::Pong)
    ));
    assert!(matches!(
        state.handle_control(9, Message::Pong),
        ControlAction::Refuse { code: "unknown_type", .. }
    ));
}

#[test]
fn a_token_lets_a_client_in() {
    let mut state = state();
    let welcome = state.greet(1, true, Some(4));
    assert!(matches!(
        welcome,
        Message::Welcome { pair_required: false, library_revision: 4, .. }
    ));
    assert!(state.is_authorized(1));
}

#[test]
fn catalogs_list_the_tracks_of_this_computer() {
    match catalog_snapshot(&tracks(), 5, None) {
        Message::Catalog { revision, tracks, removed, replace } => {
            assert_eq!(revision, 5);
            assert!(replace);
            assert!(removed.is_empty());
            assert_eq!(tracks.len(), 2);
            assert_eq!(tracks[0].remote_id, remote_id_for("/m/a.flac"));
            assert_eq!(tracks[0].duration_ms, 1500);
            assert_eq!(tracks[1].title, "T2");
        }
        other => panic!("unexpected {other:?}"),
    }
    assert_eq!(
        catalog_snapshot(&tracks(), 5, Some(5)),
        Message::Catalog {
            revision: 5,
            tracks: Vec::new(),
            removed: Vec::new(),
            replace: false
        }
    );
}

#[test]
fn files_are_looked_up_for_those_let_in() {
    let mut state = state();
    let known = tracks();
    let id = remote_id_for("/m/b.flac");
    match state.look_up(1, &id, &known, false) {
        Lookup::Refuse(reply) => {
            assert_eq!(reply, error("unpaired", "pair this client before streaming"))
        }
        other => panic!("unexpected {other:?}"),
    }
    state.greet(1, true, None);
    assert!(matches!(state.look_up(1, &id, &known, false), Lookup::Found(track) if track.id == 2));
    match state.look_up(1, "zz", &known, false) {
        Lookup::Refuse(reply) => assert_eq!(reply, error("not_found", "unknown track zz")),
        other => panic!("unexpected {other:?}"),
    }
    match state.look_up(1, "zz", &known, true) {
        Lookup::Refuse(reply) => {
            assert_eq!(reply, Message::Cover { remote_id: "zz".into(), data: None })
        }
        other => panic!("unexpected {other:?}"),
    }
    assert_eq!(find_track(&known, &id).map(|track| track.id), Some(2));
}

#[test]
fn files_are_sent_from_where_they_are_asked_for() {
    let file = track(1, "/m/a.flac");
    let (header, transfer) = handle_media(&file, true, 40, None).unwrap();
    assert_eq!(
        header,
        Message::MediaHeader { size: 100, etag: "7-100".into(), codec: "FLAC".into() }
    );
    assert_eq!(transfer.remaining, 60);
    assert_eq!(handle_media(&file, true, 400, None).unwrap().1.remaining, 0);
    assert_eq!(handle_media(&file, true, 0, Some(5)).unwrap().1.remaining, 5);
    let refused = error("forbidden", "track is outside the configured library");
    assert_eq!(handle_media(&file, false, 0, None), Err(refused));
    assert_eq!(etag_of(-3, 9), "-3-9");
    assert_eq!(
        handle_cover("r", true, Some("d".into())),
        Message::Cover { remote_id: "r".into(), data: Some("d".into()) }
    );
    assert!(matches!(handle_cover("r", false, None), Message::Error { .. }));
}

#[test]
fn transfers_end_with_the_bytes_or_the_file() {
    let mut transfer = Transfer { remaining: 70_000 };
    assert_eq!(transfer.want(), 65_536);
    assert!(transfer.took(65_536));
    assert_eq!(transfer.want(), 4_464);
    assert!(!transfer.took(4_464));
    assert_eq!(transfer.want(), 0);
    let mut short = Transfer { remaining: 10 };
    assert!(!short.took(0));
    assert_eq!(short.remaining, 10);
}

#[test]
fn files_outside_the_folders_are_not_handed_out() {
    let roots = vec![None, Some("/m".to_owned())];
    assert!(path_allowed(Some("/m/a.flac"), &roots));
    assert!(!path_allowed(Some("/music/a.flac"), &roots));
    assert!(!path_allowed(None, &roots));
    assert!(path_allowed(Some("/x"), &vec![Some("/".to_owned())]));
}

#[test]
fn servers_name_themselves() {
    assert_eq!(default_server_name(Some("pi".into())), "Staccato on pi");
    assert_eq!(default_server_name(Some(String::new())), "Staccato");
    assert_eq!(default_server_name(None), "Staccato");
    assert!(is_virtual_interface("veth12"));
    assert!(!is_virtual_interface("eth0"));
    assert_eq!(
        serve_roots(Vec::new(), Vec::new()),
        Err("staccato serve requires at least one music folder".to_owned())
    );
    assert_eq!(serve_roots(Vec::new(), vec!["/m".into()]), Ok(vec!["/m".to_owned()]));
    let stats = index_roots(&Vec::new(), 3);
    assert_eq!(stats.summary(), "Indexed 0 tracks (0 unreadable). Library revision 3.");
}

fn tone() -> ScannedTrack {
    let facts = FileFacts { file_size: 52, modified_ns: 7 };
    let tags = TagFacts {
        title: None,
        artist: None,
        album: None,
        date: None,
        track_number: None,
        duration: Duration::zero_span(),
        sample_rate: Some(8_000),
        channels: Some(1),
        replay_gain: ReplayGainInfo::default(),
    };
    scan_file("/m/tone.wav", facts, tags)
}

#[test]
fn index_roots_records_scanned_tracks() {
    let stats = index_roots(&vec![tone()], bump_library_revision(library_revision(None)).0);
    assert_eq!(stats.discovered, 1);
    assert_eq!(stats.failed, 0);
    assert!(stats.revision >= 1);
    let broken = scan_or_fallback("/m/bad.wav", Err("no tags".into()), Some(3));
    let stats = index_roots(&vec![tone(), broken], 2);
    assert_eq!(stats.summary(), "Indexed 1 tracks (1 unreadable). Library revision 2.");
}

#[test]
fn client_pairs_and_reads_catalog() {
    let shared = BTreeMap::from([(1, upsert_track(1, &tone()))]);
    let mut server = state();
    let mut client = ConnectOnce::new(Some("654321".into()), None);
    let sent = |step: OnceStep| match step {
        OnceStep::Send(message) => message,
        other => panic!("unexpected {other:?}"),
    };
    let hello = sent(client.opened(Some("print".into())));
    assert!(matches!(handle_stream(hello), StreamStart::Control { token: None, .. }));
    let pair = sent(client.step(server.greet(4, false, Some(1))));
    let token = match server.handle_control(4, pair) {
        ControlAction::StoreToken(token) => token,
        other => panic!("unexpected {other:?}"),
    };
    let ask = sent(client.step(server.token_stored(4, token)));
    let catalog = match server.handle_control(4, ask) {
        ControlAction::LoadCatalog { since_revision } => {
            catalog_snapshot(&shared, 1, since_revision)
        }
        other => panic!("unexpected {other:?}"),
    };
    let (report, first) = match client.step(catalog) {
        OnceStep::Finish { report, first } => (report, first.expect("a file to fetch")),
        other => panic!("unexpected {other:?}"),
    };
    assert_eq!(report.server_name, "Test");
    assert_eq!(report.fingerprint, "print");
    assert_eq!(report.tracks, 1);
    assert!(report.token.is_some());
    let found = match server.look_up(4, &first.remote_id, &shared, false) {
        Lookup::Found(track) => track,
        other => panic!("unexpected {other:?}"),
    };
    let (header, sending) = handle_media(&found, true, 0, None).unwrap();
    let (taking, mark) = fetch_media(header, &first.remote_id, &first.etag).unwrap();
    assert_eq!(sending.remaining, 52);
    assert_eq!(taking.remaining, 52);
    assert!(already_cached(Some(52), &mark, first.file_size, &first.etag));
    assert!(!already_cached(Some(52), &mark, 53, &etag_of(7, 53)));
}

#[test]
fn found_servers_are_listed_once() {
    let at = |name: &str, ip: u32| DiscoveredServer {
        name: name.into(),
        address: SocketAddr { ip: IpAddr::V4(ip), port: 1744, flowinfo: 0, scope_id: 0 },
    };
    let found = vec![at("b", 1), at("a", 2), at("b", 1), at("a", 1)];
    assert_eq!(order_servers(found), vec![at("a", 1), at("a", 2), at("b", 1)]);
    assert_eq!(server_name_of("My-Pi._staccato._udp.local."), "My-Pi");
    assert_eq!(instance_name("Staccato on pi"), "Staccato-on-pi");
}

fn running() -> Session {
    let mut session = Session::new(Some("tok".into()));
    session.step(SessionEvent::Opened { fingerprint: Some("fp".into()) });
    session.step(SessionEvent::Message(welcome("fp", false)));
    assert_eq!(session.phase, SessionPhase::Running);
    session
}

fn welcome(fingerprint: &str, pair_required: bool) -> Message {
    Message::Welcome {
        server_name: "Studio".into(),
        library_revision: 2,
        pair_required,
        fingerprint: fingerprint.into(),
    }
}

#[test]
fn a_session_greets_and_asks_for_the_catalog() {
    let mut session = Session::new(Some("tok".into()));
    let actions = session.step(SessionEvent::Opened { fingerprint: Some("fp".into()) });
    assert!(matches!(
        actions.as_slice(),
        [SessionAction::Send(Message::Hello { client_name, token: Some(token) })]
            if client_name == "staccato" && token == "tok"
    ));
    let actions = session.step(SessionEvent::Message(welcome("fp", false)));
    assert!(matches!(
        actions.as_slice(),
        [
            SessionAction::Emit(RemoteEvent::Connected { revision: 2, .. }),
            SessionAction::Send(Message::GetCatalog { since_revision: None })
        ]
    ));
}

#[test]
fn a_session_waits_for_the_pairing() {
    let mut session = Session::new(None);
    session.step(SessionEvent::Opened { fingerprint: Some("fp".into()) });
    let actions = session.step(SessionEvent::Message(welcome("fp", true)));
    assert_eq!(actions.len(), 1);
    let actions = session.step(SessionEvent::Command(RemoteCommand::Pair("123456".into())));
    assert!(matches!(
        actions.as_slice(),
        [SessionAction::Send(Message::Pair { code })] if code == "123456"
    ));
    let actions = session.step(SessionEvent::Message(Message::Paired { token: "t".into() }));
    assert!(matches!(
        actions.as_slice(),
        [
            SessionAction::Emit(RemoteEvent::Paired { .. }),
            SessionAction::Send(Message::GetCatalog { .. })
        ]
    ));
}

#[test]
fn a_session_breaks_off_over_a_wrong_welcome() {
    let mut session = Session::new(None);
    session.step(SessionEvent::Opened { fingerprint: Some("fp".into()) });
    let actions = session.step(SessionEvent::Message(welcome("other", false)));
    match actions.as_slice() {
        [SessionAction::Emit(RemoteEvent::Error(error)), SessionAction::Emit(
            RemoteEvent::Disconnected,
        )] => assert_eq!(error, "welcome fingerprint does not match TLS certificate"),
        other => panic!("unexpected {other:?}"),
    }
    let mut session = Session::new(None);
    let actions = session.step(SessionEvent::Opened { fingerprint: None });
    assert!(matches!(
        &actions[0],
        SessionAction::Emit(RemoteEvent::Error(error))
            if error == "server did not present a certificate"
    ));
    let mut session = Session::new(None);
    session.step(SessionEvent::Opened { fingerprint: Some("fp".into()) });
    let actions = session.step(SessionEvent::Message(Message::Pong));
    assert!(matches!(
        &actions[0],
        SessionAction::Emit(RemoteEvent::Error(error)) if error == "server did not send welcome"
    ));
}

#[test]
fn a_session_ends_once() {
    let mut session = running();
    let actions = session.step(SessionEvent::Unreadable {
        error: "gone".into(),
        chain: "gone: reset".into(),
    });
    match actions.as_slice() {
        [SessionAction::Emit(RemoteEvent::Error(error)), SessionAction::Close, SessionAction::Emit(
            RemoteEvent::Disconnected,
        )] => assert_eq!(error, "connection dropped: gone: reset"),
        other => panic!("unexpected {other:?}"),
    }
    assert!(session.step(SessionEvent::CommandsGone).is_empty());
    let mut session = running();
    let actions = session.step(SessionEvent::Command(RemoteCommand::Disconnect));
    assert!(matches!(
        actions.as_slice(),
        [SessionAction::Close, SessionAction::Emit(RemoteEvent::Disconnected)]
    ));
}

#[test]
fn a_session_passes_messages_on() {
    let mut session = running();
    let actions = session.step(SessionEvent::Message(Message::LibraryChanged { revision: 3 }));
    assert!(matches!(
        actions.as_slice(),
        [SessionAction::Send(Message::GetCatalog { since_revision: None })]
    ));
    assert!(session.step(SessionEvent::Message(Message::Pong)).is_empty());
    let actions = session.step(SessionEvent::Command(RemoteCommand::Fetch {
        remote_id: "r".into(),
        file_size: 3,
        etag: "e".into(),
    }));
    assert!(matches!(actions.as_slice(), [SessionAction::Fetch { file_size: 3, .. }]));
    let actions = session.step(SessionEvent::Message(error("x", "bad")));
    assert!(matches!(
        actions.as_slice(),
        [SessionAction::Emit(RemoteEvent::Error(text))] if text == "bad"
    ));
}

fn listed(remote_id: &str) -> CatalogTrack {
    CatalogTrack {
        remote_id: remote_id.into(),
        title: "T".into(),
        artist: "A".into(),
        album: "B".into(),
        date: None,
        track_number: None,
        duration_ms: 1,
        codec: "FLAC".into(),
        sample_rate: None,
        channels: None,
        file_size: 9,
        modified_ns: 8,
    }
}

#[test]
fn one_look_pairs_and_counts() {
    let mut once = ConnectOnce::new(Some("123456".into()), None);
    assert!(matches!(
        once.opened(Some("fp".into())),
        OnceStep::Send(Message::Hello { token: None, .. })
    ));
    assert!(matches!(
        once.step(welcome("fp", true)),
        OnceStep::Send(Message::Pair { code }) if code == "123456"
    ));
    assert!(matches!(
        once.step(Message::Paired { token: "t".into() }),
        OnceStep::Send(Message::GetCatalog { .. })
    ));
    let catalog = Message::Catalog {
        revision: 2,
        tracks: vec![listed("r")],
        removed: Vec::new(),
        replace: true,
    };
    match once.step(catalog) {
        OnceStep::Finish { report, first } => {
            assert_eq!(report.server_name, "Studio");
            assert_eq!(report.tracks, 1);
            assert_eq!(report.revision, 2);
            assert_eq!(report.token.as_deref(), Some("t"));
            assert_eq!(first.unwrap().etag, "8-9");
        }
        other => panic!("unexpected {other:?}"),
    }
}

#[test]
fn one_look_fails_with_a_reason() {
    let mut once = ConnectOnce::new(None, None);
    once.opened(Some("fp".into()));
    match once.step(welcome("fp", true)) {
        OnceStep::Fail(failure) => assert_eq!(
            failure.text,
            "server requires pairing; pass --code from the server terminal"
        ),
        other => panic!("unexpected {other:?}"),
    }
    let mut once = ConnectOnce::new(Some("1".into()), None);
    once.opened(Some("fp".into()));
    once.step(welcome("fp", true));
    match once.step(Message::Pong) {
        OnceStep::Fail(failure) => {
            assert_eq!(failure.text, "unexpected pairing reply: ");
            assert_eq!(failure.about, Some(Message::Pong));
        }
        other => panic!("unexpected {other:?}"),
    }
    let mut once = ConnectOnce::new(None, None);
    assert!(matches!(once.opened(None), OnceStep::Fail(_)));
}

#[test]
fn fetched_files_are_checked_by_their_mark() {
    let header = |etag: &str| Message::MediaHeader {
        size: 5,
        etag: etag.into(),
        codec: "FLAC".into(),
    };
    let (transfer, mark) = fetch_media(header("e"), "r", "e").unwrap();
    assert_eq!(transfer.remaining, 5);
    assert_eq!(mark, "e");
    assert_eq!(fetch_media(header("f"), "r", "e").unwrap_err().text, "etag mismatch for r");
    assert!(fetch_media(header("f"), "r", "").is_ok());
    assert_eq!(fetch_media(error("c", "no"), "r", "e").unwrap_err().text, "no");
    assert_eq!(
        fetch_media(Message::Pong, "r", "e").unwrap_err().text,
        "unexpected media reply: "
    );
    assert!(already_cached(Some(5), "e", 5, "e"));
    assert!(!already_cached(Some(5), "x", 5, "e"));
    assert!(!already_cached(None, "e", 5, "e"));
    assert_eq!(etag_path("/c/fp/abc"), "/c/fp/abc.etag");
    assert_eq!(etag_path("/c/fp/abc.def"), "/c/fp/abc.etag");
    assert_eq!(
        media_request("r"),
        Message::OpenMedia { remote_id: "r".into(), offset: 0, length: None }
    );
}

#[test]
fn covers_are_asked_for_and_read() {
    assert_eq!(cover_request("r"), Message::GetCover { remote_id: "r".into() });
    let reply = Message::Cover { remote_id: "r".into(), data: Some("TWFu".into()) };
    let data = fetch_cover(reply).unwrap().unwrap();
    assert_eq!(decode_cover_data(&data), Some(b"Man".to_vec()));
    assert_eq!(encode_cover_data(&b"Man".to_vec()), "TWFu");
    assert!(matches!(fetch_cover(error("x", "none")), Ok(None)));
    assert!(fetch_cover(Message::Pong).is_err());
}

#[test]
fn credentials_belong_to_an_address() {
    let saved = save_credentials("a:1", "fp", "tok", "Studio");
    let known = load_for_address(Some(saved), "a:1");
    assert_eq!(known.as_ref().map(|known| known.token.as_str()), Some("tok"));
    assert_eq!(saved_token(&known).as_deref(), Some("tok"));
    assert_eq!(token_to_keep(None, &known).as_deref(), Some("tok"));
    assert_eq!(token_to_keep(Some("new".into()), &known).as_deref(), Some("new"));
    assert_eq!(token_to_keep(Some(String::new()), &None), None);
    let redialled = save_address(known, "b:2");
    assert_eq!(redialled.token, "tok");
    assert_eq!(load_for_address(Some(redialled), "a:1"), None);
}

#[test]
fn artwork_is_looked_for_once_per_album() {
    let mut state = CoverState::new();
    let song = track(1, "/m/a.flac");
    assert_eq!(state.sync(Some(&song)), CoverStep::Load);
    state.loaded(false);
    assert_eq!(state.sync(Some(&track(2, "/m/b.flac"))), CoverStep::Keep);
    let mut other = track(3, "/m/c.flac");
    other.album = "C".into();
    assert_eq!(state.sync(Some(&other)), CoverStep::Load);
    state.loaded(true);
    assert!(state.has_image());
    state.redraw();
    assert_eq!(state.sync(Some(&other)), CoverStep::Load);
    assert_eq!(state.sync(None), CoverStep::Clear);
}

#[test]
fn sent_artwork_is_kept_by_album_and_shown() {
    let path = album_cache_path("/c", "fp", "A", "B");
    assert_eq!(path, format!("/c/fp/covers/{}", remote_id_for("A\nB")));
    assert_ne!(path, album_cache_path("/c", "fp", "A", "C"));
    let mut state = CoverState::new();
    let song = track(1, "/m/a.flac");
    assert_eq!(state.sync(Some(&song)), CoverStep::Load);
    state.loaded(false);
    assert_eq!(state.sync(Some(&song)), CoverStep::Keep);
    state.invalidate();
    assert_eq!(state.sync(Some(&song)), CoverStep::Load);
}

#[test]
fn missing_file_has_no_cover() {
    let song = track(1, "/no/such/file.flac");
    assert_eq!(source_path(&song, "/tmp", false, None), None);
    assert_eq!(source_path(&song, "/tmp", true, None).as_deref(), Some("/no/such/file.flac"));
    let known = tracks();
    assert_eq!(source_path(&known[&3], "/tmp", true, Some(99)), None);
    assert_eq!(source_path(&known[&3], "/tmp", false, Some(100)).as_deref(), Some("/tmp/fp/x"));
    let names = folder_cover("/m");
    assert_eq!(names.len(), 13);
    assert_eq!(names[0], "/m/cover.jpg");
    assert_eq!(names[12], "/m/AlbumArt.jpg");
}
