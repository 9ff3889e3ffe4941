use undelete::config::{parse_i64, Config};
use undelete::engine::record_id_log;
use undelete::ledger::Ledger;
use undelete::media::{Media, MediaType, RowError};
use undelete::message::{Message, Payload, StoredFile};
use undelete::text::decimal;

const STAMP: &str = "2019-03-04T05:06:07+00:00";

fn conf() -> Config {
    Config {
        chat_id: -100,
        bots: vec![(Some(77), "own".to_string()), (None, "default".to_string())],
        media_dir: "/m".to_string(),
    }
}

fn msg(id: i64, user: &str, uid: i64, text: &str, reply_to: Option<i64>, media: Option<Media>) -> Message {
    Message {
        id,
        user_name: user.to_string(),
        user_id: uid,
        date: 1551675967,
        reply_to,
        reply_to_new_id: None,
        text: text.to_string(),
        media,
    }
}

fn media(kind: MediaType, name: Option<&str>) -> Media {
    Media {
        id: 934,
        media_type: kind,
        mime_type: Some("application/pdf".to_string()),
        name: name.map(|s| s.to_string()),
        extra: String::new(),
    }
}

fn text_of(p: &Payload) -> String {
    match p {
        Payload::Text { text } => text.clone(),
        _ => panic!("not a text payload"),
    }
}

#[test]
fn clean_filename_drops_kind_and_id() {
    assert_eq!(Media::clean_filename("document-myfile.934.pdf"), Some("myfile.pdf".to_string()));
    assert_eq!(Media::clean_filename("photo-vacation.12.jpg"), Some("vacation.jpg".to_string()));
    assert_eq!(
        Media::clean_filename("/m/chat/document-document-a.b.5.txt"),
        Some("a.b.txt".to_string())
    );
    assert_eq!(Media::clean_filename("/m/chat/noext"), None);
    assert_eq!(Media::clean_filename("/m/chat/"), None);
}

#[test]
fn parse_row_reads_kinds_and_reports_errors() {
    let s = |x: &str| Some(x.to_string());
    assert!(Media::parse_row(None, None, None, None, None).unwrap().is_none());
    let m = Media::parse_row(Some(3), s("venue"), None, s("Cafe"), s("x")).unwrap().unwrap();
    assert_eq!(m.id, 3);
    assert_eq!(m.media_type, MediaType::Venue);
    assert_eq!(m.name, s("Cafe"));
    assert_eq!(m.extra, "x");
    assert_eq!(Media::parse_row(Some(3), None, None, None, s("x")).unwrap_err(), RowError::MissingMediaType);
    assert_eq!(Media::parse_row(Some(3), s("sticker"), None, None, s("x")).unwrap_err(), RowError::UnknownMediaType);
    assert_eq!(Media::parse_row(Some(3), s("geo"), None, None, None).unwrap_err(), RowError::MissingExtra);
    assert_eq!(MediaType::parse("geolive"), Some(MediaType::Geolive));
    assert_eq!(MediaType::Document.name(), "document");
}

#[test]
fn captions_by_kind() {
    assert_eq!(media(MediaType::Contact, Some("Ann")).caption(), "(contact)\nAnn");
    assert_eq!(media(MediaType::Geo, None).caption(), "(geo)");
    assert_eq!(media(MediaType::Document, Some("f.pdf")).caption(), "\nf.pdf");
    assert_eq!(media(MediaType::Photo, Some("p")).caption_timestamped("T"), "T");
    assert_eq!(media(MediaType::Venue, Some("Bar")).caption_timestamped("T"), "(venue)\nBar\nT");
}

#[test]
fn find_pattern_names_kind_and_id() {
    let m = media(MediaType::Photo, None);
    assert_eq!(m.find_pattern("/data"), "/data/*/photo-*.934.*");
}

#[test]
fn decimal_matches_to_string() {
    for v in [0i64, 7, 10, 501, -1, -9050, i64::MAX, i64::MIN] {
        assert_eq!(decimal(v), v.to_string());
    }
}

#[test]
fn parse_bots_reads_tokens_and_users() {
    let args = vec!["123:abcde/100000".to_string(), "456:fghij/200000".to_string(), "789:klmno".to_string()];
    let bots = Config::parse_bots(&args).unwrap();
    assert_eq!(
        bots,
        vec![
            (Some(100000), "123:abcde".to_string()),
            (Some(200000), "456:fghij".to_string()),
            (None, "789:klmno".to_string()),
        ]
    );
    assert_eq!(Config::parse_bots(&vec!["t/-5/x".to_string()]).unwrap(), vec![(Some(-5), "t".to_string())]);
    assert!(Config::parse_bots(&vec!["t/abc".to_string()]).is_none());
    assert!(Config::parse_bots(&vec!["t/".to_string()]).is_none());
}

#[test]
fn text_body_with_author_prefix() {
    let c = conf();
    let m = msg(1, "Alice", 5, "hello", None, None);
    assert_eq!(m.text_content(&c, STAMP), format!("Alice:\nhello\n{}", STAMP));
    let own = msg(1, "Bot", 77, "hi", None, None);
    assert_eq!(own.text_content(&c, STAMP), format!("hi\n{}", STAMP));
    assert_eq!(own.pick_bot(&c), Some("own".to_string()));
    assert_eq!(m.pick_bot(&c), Some("default".to_string()));
    let lonely = Config { chat_id: 1, bots: vec![(Some(77), "own".to_string())], media_dir: String::new() };
    assert_eq!(m.pick_bot(&lonely), None);
    assert!(m.build_request(&lonely, &None, STAMP).is_none());
}

#[test]
fn two_runs_translate_the_reply() {
    let c = conf();
    let mut l = Ledger::new();
    let m1 = msg(1, "Alice", 5, "hello", None, None);
    let r1 = m1.build_request(&c, &None, STAMP).unwrap();
    assert_eq!(r1.reply_to, "");
    assert_eq!(text_of(&r1.payload), format!("Alice:\nhello\n{}", STAMP));
    record_id_log(&mut l, 1, Some(501), 10);
    assert_eq!(l.entry(1).unwrap().new_id, Some(501));

    let mut m2 = msg(2, "Bob", 6, "", Some(1), None);
    m2.parse_reply_to_new_id(&l);
    assert_eq!(m2.reply_to_new_id, Some(501));
    let r2 = m2.build_request(&c, &None, STAMP).unwrap();
    assert_eq!(r2.reply_to, "501");
    assert_eq!(r2.chat_id, -100);
    assert_eq!(r2.payload.api(), "sendMessage");
    assert_eq!(text_of(&r2.payload), format!("(from Bob)\n{}", STAMP));
}

#[test]
fn reply_to_unpublished_target_is_dropped() {
    let mut l = Ledger::new();
    record_id_log(&mut l, 1, None, 10);
    let mut m = msg(2, "Bob", 6, "x", Some(1), None);
    m.parse_reply_to_new_id(&l);
    assert_eq!(m.reply_to_new_id, None);
    assert_eq!(m.reply_to_param(), "");
}

#[test]
fn oversized_document_is_sent_as_text() {
    let size: u64 = 60 * 1024 * 1024;
    let m = msg(3, "Ann", 5, "", None, Some(media(MediaType::Document, Some("big.bin"))));
    let f = Some(StoredFile { path: "/m/x/document-big.934.bin".to_string(), size });
    let r = m.build_request(&conf(), &f, STAMP).unwrap();
    assert_eq!(r.payload.api(), "sendMessage");
    let t = text_of(&r.payload);
    assert!(t.contains("62914560"));
    assert_eq!(t, format!("(oversized file: 62914560 bytes)\nbig.bin\n\nbig.bin\n{}", STAMP));
}

#[test]
fn small_document_is_attached() {
    let m = msg(3, "Ann", 5, "", None, Some(media(MediaType::Document, Some("f.pdf"))));
    let f = Some(StoredFile { path: "/m/x/document-f.934.pdf".to_string(), size: 52428799 });
    let r = m.build_request(&conf(), &f, STAMP).unwrap();
    match r.payload {
        Payload::Document { caption, path, file_name, mime_type } => {
            assert_eq!(caption, format!("\nf.pdf\n{}", STAMP));
            assert_eq!(path, "/m/x/document-f.934.pdf");
            assert_eq!(file_name, "f.pdf");
            assert_eq!(mime_type, Some("application/pdf".to_string()));
        }
        _ => panic!("expected a document"),
    }
}

#[test]
fn document_at_threshold_is_oversized() {
    let m = msg(3, "Ann", 5, "", None, Some(media(MediaType::Document, None)));
    let f = Some(StoredFile { path: "document-f.934.pdf".to_string(), size: 52428800 });
    let r = m.build_request(&conf(), &f, STAMP).unwrap();
    assert_eq!(text_of(&r.payload), format!("(oversized file: 52428800 bytes)\nf.pdf\n\n{}", STAMP));
}

#[test]
fn missing_attachment_fails_the_send() {
    let c = conf();
    let p = msg(4, "Ann", 5, "", None, Some(media(MediaType::Photo, None)));
    assert!(p.build_request(&c, &None, STAMP).is_none());
    let d = msg(4, "Ann", 5, "", None, Some(media(MediaType::Document, None)));
    assert!(d.build_request(&c, &None, STAMP).is_none());
}

#[test]
fn photo_caption_is_the_time_stamp() {
    let m = msg(4, "Ann", 5, "", None, Some(media(MediaType::Photo, Some("ignored"))));
    let f = Some(StoredFile { path: "/m/a/photo-vacation.12.jpg".to_string(), size: 10 });
    let r = m.build_request(&conf(), &f, STAMP).unwrap();
    assert_eq!(r.payload.api(), "sendPhoto");
    match r.payload {
        Payload::Photo { caption, file_name, .. } => {
            assert_eq!(caption, STAMP);
            assert_eq!(file_name, "vacation.jpg");
        }
        _ => panic!("expected a photo"),
    }
}

#[test]
fn webpage_and_place_kinds_are_text() {
    let c = conf();
    let w = msg(5, "Ann", 5, "see this", None, Some(media(MediaType::Webpage, Some("Site"))));
    assert_eq!(text_of(&w.build_request(&c, &None, STAMP).unwrap().payload), format!("see this\n\nSite\n{}", STAMP));
    let g = msg(5, "Ann", 5, "", None, Some(media(MediaType::Geolive, None)));
    assert_eq!(text_of(&g.build_request(&c, &None, STAMP).unwrap().payload), format!("(geolive)\n{}", STAMP));
}

#[test]
fn request_stamps_with_local_time() {
    let m = msg(1, "Alice", 5, "hello", None, None);
    let stamp = m.format_date().unwrap();
    assert!(stamp.starts_with("2019-03-0"));
    let r = m.request(&conf(), &None).unwrap();
    assert_eq!(text_of(&r.payload), format!("Alice:\nhello\n{}", stamp));
}

#[test]
fn format_date_follows_the_calendar_range() {
    let at = |date: i64| Message { date, ..msg(1, "A", 5, "x", None, None) };
    assert!(at(-8334601228800).format_date().is_some());
    assert!(at(-8334601228801).format_date().is_none());
    assert!(at(8210266876799).format_date().is_some());
    assert!(at(8210266876800).format_date().is_none());
    assert!(at(0).format_date().unwrap().starts_with("19"));
}

#[test]
fn request_fails_for_unrepresentable_date() {
    let m = Message { date: i64::MAX, ..msg(1, "Alice", 5, "hello", None, None) };
    assert!(m.request(&conf(), &None).is_none());
    let ok = Message { date: 0, ..msg(1, "Alice", 5, "hello", None, None) };
    assert!(ok.request(&conf(), &None).is_some());
}

#[test]
fn only_photos_and_documents_need_a_file() {
    assert!(MediaType::Photo.needs_file());
    assert!(MediaType::Document.needs_file());
    for k in [MediaType::Webpage, MediaType::Geo, MediaType::Geolive, MediaType::Contact, MediaType::Venue] {
        assert!(!k.needs_file());
    }
}

#[test]
fn parse_i64_follows_from_str() {
    for s in ["0", "42", "+7", "-0", "-9223372036854775808", "9223372036854775807", "007"] {
        assert_eq!(parse_i64(s), s.parse::<i64>().ok(), "{}", s);
    }
    for s in ["", "+", "-", "9223372036854775808", "-9223372036854775809", "1a", " 1", "+-1", "99999999999999999999", "٣"] {
        assert_eq!(parse_i64(s), None, "{}", s);
    }
    assert_eq!(parse_i64("-9223372036854775808"), Some(i64::MIN));
    assert_eq!(parse_i64("+100000"), Some(100000));
}
