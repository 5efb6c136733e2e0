use staccato::base64::{decode_base64, encode_base64};
use staccato::drop::{
    candidate_paths, dropped_path, parse_dropped_paths, parse_uri_list, percent_decode,
    strip_file_uri, tokenize_dropped,
};
use staccato::input::{InputEvent, KeyCode, KeyInput, KeyKind, Modifiers};
use staccato::kitty::{
    preferred_mime, preferred_mime_index, CollectResult, KittyDnd, OscCollector,
};

fn press(character: char, alt: bool) -> InputEvent {
    InputEvent::Key(KeyInput {
        code: KeyCode::Char(character),
        modifiers: Modifiers { control: false, shift: false, alt, other: false },
        kind: KeyKind::Press,
    })
}

fn parse(text: &str) -> Vec<String> {
    parse_dropped_paths(text, Some("/home/me"), &Vec::new())
}

#[test]
fn parses_uri_list_with_comments_and_crlf() {
    let text = "# comment\r\nfile:///music/a.flac\r\nfile:/music/b.ogg\r\n";
    assert_eq!(parse(text), vec!["/music/a.flac", "/music/b.ogg"]);
}

#[test]
fn parses_quoted_and_escaped_paths() {
    assert_eq!(
        parse("'/music/Album One/a.flac' /music/b\\ c.mp3"),
        vec!["/music/Album One/a.flac", "/music/b c.mp3"]
    );
}

#[test]
fn coalesces_kitty_osc72_from_key_burst() {
    let mut kitty = KittyDnd::new(true, None);
    let mut events = vec![press(']', true)];
    for character in "72;t=r:x=1:m=0;ZmlsZTovLy9tdXNpYy9hLmZsYWM=".chars() {
        events.push(press(character, false));
    }
    events.push(press('\\', true));
    let (out, replies) = kitty.ingest(events);
    assert_eq!(out, vec![InputEvent::Paste("file:///music/a.flac".into())]);
    assert_eq!(replies.len(), 1);
    assert_eq!(replies[0].text(), "\x1b]72;t=r:o=1\x1b\\");
}

#[test]
fn decode_base64_file_uri() {
    let decoded = decode_base64("ZmlsZTovLy9tdXNpYy9hLmZsYWM=").unwrap();
    assert_eq!(String::from_utf8(decoded).unwrap(), "file:///music/a.flac");
}

#[test]
fn base64_round_trips_every_remainder() {
    for bytes in [vec![], vec![255], vec![0, 255], vec![1, 2, 3], vec![250, 251, 252, 253]] {
        assert_eq!(decode_base64(&encode_base64(&bytes)), Some(bytes));
    }
    assert_eq!(encode_base64(&b"Man".to_vec()), "TWFu");
    assert_eq!(encode_base64(&b"Ma".to_vec()), "TWE=");
    assert_eq!(decode_base64("TW Fu\n"), Some(b"Man".to_vec()));
    assert_eq!(decode_base64("A"), None);
    assert_eq!(decode_base64("A*"), None);
}

#[test]
fn home_stands_for_the_tilde() {
    assert_eq!(parse("~/a.flac ~"), vec!["/home/me/a.flac", "/home/me"]);
    assert!(parse_dropped_paths("~/a.flac", None, &Vec::new()).is_empty());
}

#[test]
fn bare_names_count_where_they_exist() {
    assert!(parse("song.flac").is_empty());
    let present = vec!["song.flac".to_owned()];
    assert_eq!(parse_dropped_paths("song.flac", None, &present), vec!["song.flac"]);
    assert_eq!(candidate_paths("song.flac", None), vec!["song.flac", "song.flac"]);
    assert_eq!(dropped_path(" ./x ", None, &Vec::new()), Some("./x".to_owned()));
    assert_eq!(dropped_path("   ", None, &Vec::new()), None);
}

#[test]
fn tokens_follow_the_shell() {
    assert_eq!(tokenize_dropped(r#""a \"b" 'c\d' e\ f"#), vec!["a \"b", r"c\d", "e f"]);
    assert_eq!(tokenize_dropped("'open"), vec!["open"]);
    assert!(tokenize_dropped("  ''  ").is_empty());
}

#[test]
fn addresses_lose_host_and_query() {
    assert_eq!(strip_file_uri("file://localhost/a?x#y").as_deref(), Some("/a"));
    assert_eq!(strip_file_uri("FILE:/a").as_deref(), Some("/a"));
    assert_eq!(strip_file_uri("http://a"), None);
    assert!(parse_uri_list("/plain", None, &Vec::new()).is_empty());
}

#[test]
fn percent_escapes_are_undone() {
    assert_eq!(percent_decode("/a%20b").as_deref(), Some("/a b"));
    assert_eq!(percent_decode("%C3%A9").as_deref(), Some("é"));
    assert_eq!(percent_decode("%+5").as_deref(), Some("\u{5}"));
    assert_eq!(percent_decode("%2"), None);
    assert_eq!(percent_decode("%zz"), None);
    assert_eq!(percent_decode("%ff"), None);
}

#[test]
fn a_drag_is_answered_and_fetched() {
    let mut kitty = KittyDnd::new(false, Some("xterm-kitty"));
    assert_eq!(kitty.enable().unwrap().text(), "\x1b]72;t=a;text/uri-list text/plain\x1b\\");
    let (reply, paste) = kitty.handle_osc("72;t=m:x=1:y=2;text/plain text/uri-list");
    assert_eq!(reply.unwrap().text(), "\x1b]72;t=m:o=1;text/uri-list\x1b\\");
    assert_eq!(paste, None);
    let (reply, _) = kitty.handle_osc("72;t=M");
    assert_eq!(reply.unwrap().metadata, "t=r:x=2");
    let (reply, paste) = kitty.handle_osc("72;t=r:m=1;YWI=");
    assert!(reply.is_none() && paste.is_none());
    let (_, paste) = kitty.handle_osc("72;t=r:m=0;Yw==");
    assert_eq!(paste.as_deref(), Some("abc"));
    assert!(kitty.handle_osc("72;t=m:x=-1:y=-1").0.is_none());
    assert!(kitty.handle_osc("99;t=m").0.is_none());
    assert_eq!(kitty.disable().unwrap().metadata, "t=A");
}

#[test]
fn broken_text_is_replaced() {
    let mut kitty = KittyDnd::new(true, None);
    let (_, paste) = kitty.handle_osc("72;t=r;/w==");
    assert_eq!(paste.as_deref(), Some("\u{fffd}"));
    let (reply, _) = kitty.handle_osc("72;t=M;image/png");
    assert_eq!(reply.unwrap().metadata, "t=r:o=0");
}

#[test]
fn other_terminals_are_left_alone() {
    let mut plain = KittyDnd::new(false, Some("xterm"));
    assert!(plain.enable().is_none());
    let (out, replies) = plain.ingest(vec![press(']', true)]);
    assert_eq!(out, vec![press(']', true)]);
    assert!(replies.is_empty());
}

#[test]
fn interrupted_messages_are_forgotten() {
    let mut collector = OscCollector::new();
    assert!(matches!(collector.push(&press(']', true)), CollectResult::Hold));
    assert!(matches!(collector.push(&press('7', false)), CollectResult::Hold));
    assert!(matches!(collector.push(&press('9', false)), CollectResult::Pass));
    assert!(matches!(collector.push(&press('2', false)), CollectResult::Pass));
    assert!(matches!(collector.push(&InputEvent::Other), CollectResult::Pass));
}

#[test]
fn the_preferred_kind_is_found() {
    let mimes: Vec<String> = vec!["text/html".into(), "text/plain".into()];
    assert_eq!(preferred_mime(&mimes), Some("text/plain"));
    assert_eq!(preferred_mime_index(&mimes), Some(2));
    assert_eq!(preferred_mime_index(&Vec::new()), None);
}
