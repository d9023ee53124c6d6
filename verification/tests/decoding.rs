//! Tests of the response decoders.

use qbittorrent::data::{AlternateLimits, ConnectionStatus, State, TrackerStatus};
use qbittorrent::decode::{
    decode_alternate_limits, decode_build_info, decode_categories, decode_logs,
    decode_torrents, decode_trackers, decode_transfer_info,
};
use qbittorrent::error::DecodeReason;

fn torrent_json(added_on: &str) -> Vec<u8> {
    format!(
        "[{{\"added_on\":{},\"amount_left\":10,\"category\":\"films\",\"dlspeed\":5,\"upspeed\":7,\"hash\":\"abc123\",\"name\":\"one\",\"size\":42,\"state\":\"downloading\",\"tags\":\"a,b\"}}]",
        added_on
    )
    .into_bytes()
}

#[test]
fn decodes_a_torrent_list() {
    let torrents = decode_torrents(&torrent_json("1000")).unwrap();
    assert_eq!(torrents.len(), 1);
    let t = &torrents[0];
    assert_eq!(t.added_on(), 1000);
    assert_eq!(t.amount_left(), 10);
    assert_eq!(t.category(), "films");
    assert_eq!(t.dlspeed(), 5);
    assert_eq!(t.upspeed(), 7);
    assert_eq!(t.hash().clone().inner(), "abc123");
    assert_eq!(t.name(), "one");
    assert_eq!(t.size(), 42);
    assert_eq!(t.state(), State::Downloading);
    assert_eq!(t.tags(), "a,b");
    assert_eq!(t.f_l_piece_prio(), None);
}

#[test]
fn empty_list_decodes_to_empty_sequence() {
    let torrents = decode_torrents(&b"[]".to_vec()).unwrap();
    assert!(torrents.is_empty());
    let trackers = decode_trackers(&b"[]".to_vec()).unwrap();
    assert!(trackers.is_empty());
    let torrents_ws = decode_torrents(&b"  [ ]  ".to_vec()).unwrap();
    assert!(torrents_ws.is_empty());
}

#[test]
fn integer_field_as_empty_string_decodes_to_zero() {
    let torrents = decode_torrents(&torrent_json("\"\"")).unwrap();
    assert_eq!(torrents[0].added_on(), 0);
}

#[test]
fn integer_field_as_other_string_is_an_error() {
    let r = decode_torrents(&torrent_json("\"soon\""));
    assert!(matches!(r, Err(DecodeReason::InvalidInteger)));
}

#[test]
fn optional_bool_field_is_read_when_present() {
    let body = "[{\"added_on\":1,\"amount_left\":0,\"category\":\"\",\"dlspeed\":0,\"upspeed\":0,\"f_l_piece_prio\":true,\"hash\":\"h\",\"name\":\"n\",\"size\":0,\"state\":\"pausedDL\",\"tags\":\"\"}]"
    .as_bytes()
    .to_vec();
    let torrents = decode_torrents(&body).unwrap();
    assert_eq!(torrents[0].f_l_piece_prio(), Some(true));
    assert_eq!(torrents[0].state(), State::PausedDL);
}

#[test]
fn unknown_state_token_is_an_error() {
    let body = torrent_json("1");
    let body = String::from_utf8(body).unwrap().replace("downloading", "bogus").into_bytes();
    assert!(matches!(decode_torrents(&body), Err(DecodeReason::UnknownToken)));
    // A near-miss spelling of a defined token is rejected too.
    let body = torrent_json("1");
    let body = String::from_utf8(body).unwrap().replace("downloading", "unkown").into_bytes();
    assert!(matches!(decode_torrents(&body), Err(DecodeReason::UnknownToken)));
}

#[test]
fn missing_field_is_an_error() {
    let body = b"[{\"status\":2,\"num_peers\":0,\"msg\":\"\"}]".to_vec();
    assert!(matches!(decode_trackers(&body), Err(DecodeReason::MissingField)));
}

#[test]
fn wrong_field_type_is_an_error() {
    let body = b"[{\"url\":5,\"status\":2,\"num_peers\":0,\"msg\":\"\"}]".to_vec();
    assert!(matches!(decode_trackers(&body), Err(DecodeReason::WrongFieldType)));
}

#[test]
fn malformed_body_is_an_error() {
    assert!(matches!(decode_trackers(&b"{".to_vec()), Err(DecodeReason::MalformedBody)));
    assert!(matches!(decode_trackers(&b"[] extra".to_vec()), Err(DecodeReason::MalformedBody)));
    assert!(matches!(decode_trackers(&b"".to_vec()), Err(DecodeReason::MalformedBody)));
}

#[test]
fn invalid_utf8_in_a_text_field_is_an_error() {
    let mut body: Vec<u8> = Vec::new();
    body.extend_from_slice(b"[{\"url\":\"");
    body.push(0xFF);
    body.extend_from_slice(b"\",\"status\":2,\"num_peers\":0,\"msg\":\"\"}]");
    assert!(matches!(decode_trackers(&body), Err(DecodeReason::InvalidUtf8)));
}

#[test]
fn decodes_trackers_in_server_order() {
    let body = "[{\"url\":\"http://one\",\"status\":2,\"num_peers\":5,\"msg\":\"\"},{\"url\":\"http://two\",\"status\":4,\"num_peers\":-1,\"msg\":\"down\"}]"
    .as_bytes()
    .to_vec();
    let trackers = decode_trackers(&body).unwrap();
    assert_eq!(trackers.len(), 2);
    assert_eq!(trackers[0].url(), "http://one");
    assert_eq!(trackers[0].status(), TrackerStatus::Working);
    assert_eq!(trackers[0].num_peers(), 5);
    assert_eq!(trackers[1].url(), "http://two");
    assert_eq!(trackers[1].status(), TrackerStatus::NotWorking);
    assert_eq!(trackers[1].num_peers(), -1);
    assert_eq!(trackers[1].msg(), "down");
}

#[test]
fn tracker_status_codes_map_to_fixed_variants() {
    assert_eq!(TrackerStatus::from_code(0), TrackerStatus::TrackerDisabled);
    assert_eq!(TrackerStatus::from_code(1), TrackerStatus::NotContacted);
    assert_eq!(TrackerStatus::from_code(2), TrackerStatus::Working);
    assert_eq!(TrackerStatus::from_code(3), TrackerStatus::Updating);
    assert_eq!(TrackerStatus::from_code(4), TrackerStatus::NotWorking);
}

#[test]
fn out_of_range_status_codes_fall_into_the_catch_all() {
    assert_eq!(TrackerStatus::from_code(5), TrackerStatus::UnknownResponse);
    assert_eq!(TrackerStatus::from_code(99), TrackerStatus::UnknownResponse);
    assert_eq!(TrackerStatus::from_code(-1), TrackerStatus::UnknownResponse);
    // An out-of-range code never fails decoding.
    let body = b"[{\"url\":\"u\",\"status\":99,\"num_peers\":0,\"msg\":\"\"}]".to_vec();
    let trackers = decode_trackers(&body).unwrap();
    assert_eq!(trackers[0].status(), TrackerStatus::UnknownResponse);
}

#[test]
fn string_escapes_are_resolved() {
    let body = b"[{\"url\":\"u\",\"status\":4,\"num_peers\":0,\"msg\":\"\\u0041\\n\\\"\\\\\"}]"
        .to_vec();
    let trackers = decode_trackers(&body).unwrap();
    assert_eq!(trackers[0].msg(), "A\n\"\\");
}

#[test]
fn surrogate_pairs_become_one_character() {
    let body = b"[{\"url\":\"u\",\"status\":4,\"num_peers\":0,\"msg\":\"\\uD83D\\uDE00\"}]"
        .to_vec();
    let trackers = decode_trackers(&body).unwrap();
    assert_eq!(trackers[0].msg(), "\u{1F600}");
}

#[test]
fn lone_surrogate_is_an_error() {
    let body = b"[{\"url\":\"u\",\"status\":4,\"num_peers\":0,\"msg\":\"\\uD83D\"}]".to_vec();
    assert!(matches!(decode_trackers(&body), Err(DecodeReason::MalformedBody)));
}

#[test]
fn nested_values_are_tolerated_and_skipped() {
    let body = "[{\"url\":\"u\",\"extra\":{\"deep\":[1,2,{\"x\":null}]},\"status\":2,\"num_peers\":0,\"msg\":\"\"}]"
    .as_bytes()
    .to_vec();
    let trackers = decode_trackers(&body).unwrap();
    assert_eq!(trackers[0].url(), "u");
}

#[test]
fn first_of_duplicate_fields_wins() {
    let body = b"[{\"url\":\"first\",\"url\":\"second\",\"status\":2,\"num_peers\":0,\"msg\":\"\"}]"
        .to_vec();
    let trackers = decode_trackers(&body).unwrap();
    assert_eq!(trackers[0].url(), "first");
}

#[test]
fn decodes_transfer_info() {
    let body = "{\"dl_info_speed\":100,\"dl_info_data\":200,\"up_info_speed\":300,\"up_info_data\":400,\"dl_rate_limit\":500,\"up_rate_limit\":600,\"dht_nodes\":7,\"connection_status\":\"connected\"}"
    .as_bytes()
    .to_vec();
    let info = decode_transfer_info(&body).unwrap();
    assert_eq!(info.dl_info_speed(), 100);
    assert_eq!(info.up_info_data(), 400);
    assert_eq!(info.dht_nodes(), 7);
    assert_eq!(info.connection_status(), ConnectionStatus::Connected);
}

#[test]
fn decodes_build_info() {
    let body = "{\"qt\":\"5.15\",\"libtorrent\":\"1.2\",\"boost\":\"1.76\",\"openssl\":\"1.1\",\"bitness\":\"64\"}"
    .as_bytes()
    .to_vec();
    let info = decode_build_info(&body).unwrap();
    assert_eq!(info.qt(), "5.15");
    assert_eq!(info.bitness(), "64");
}

#[test]
fn decodes_log_entries() {
    let body = "[{\"id\":1,\"message\":\"started\",\"timestamp\":1000,\"type\":2},{\"id\":2,\"message\":\"stopped\",\"timestamp\":2000,\"type\":4}]"
    .as_bytes()
    .to_vec();
    let logs = decode_logs(&body).unwrap();
    assert_eq!(logs.len(), 2);
    assert_eq!(logs[0].id(), 1);
    assert_eq!(logs[0].message(), "started");
    assert_eq!(logs[1].timestamp(), 2000);
    assert_eq!(logs[1].kind(), 4);
}

#[test]
fn decodes_the_category_map() {
    let body = "{\"films\":{\"name\":\"films\",\"savePath\":\"/data/films\"},\"music\":{\"name\":\"music\",\"savePath\":\"/data/music\"}}"
    .as_bytes()
    .to_vec();
    let cats = decode_categories(&body).unwrap();
    assert_eq!(cats.len(), 2);
    assert_eq!(cats[0].0, "films");
    assert_eq!(cats[0].1.name(), "films");
    assert_eq!(cats[0].1.save_path(), "/data/films");
    assert_eq!(cats[1].0, "music");
    let empty = decode_categories(&b"{}".to_vec()).unwrap();
    assert!(empty.is_empty());
}

#[test]
fn decodes_the_speed_limits_mode() {
    assert_eq!(decode_alternate_limits(&b"1".to_vec()).unwrap(), AlternateLimits::Enabled);
    assert_eq!(decode_alternate_limits(&b"0".to_vec()).unwrap(), AlternateLimits::Disabled);
    assert!(matches!(
        decode_alternate_limits(&b"2".to_vec()),
        Err(DecodeReason::MalformedBody)
    ));
}

#[test]
fn negative_and_large_integers_decode() {
    let body = "[{\"added_on\":0,\"amount_left\":18446744073709551615,\"category\":\"\",\"dlspeed\":-1,\"upspeed\":9223372036854775807,\"hash\":\"h\",\"name\":\"n\",\"size\":-9223372036854775808,\"state\":\"unknown\",\"tags\":\"\"}]"
    .as_bytes()
    .to_vec();
    let torrents = decode_torrents(&body).unwrap();
    assert_eq!(torrents[0].amount_left(), u64::MAX);
    assert_eq!(torrents[0].dlspeed(), -1);
    assert_eq!(torrents[0].upspeed(), i64::MAX);
    assert_eq!(torrents[0].size(), i64::MIN);
    assert_eq!(torrents[0].state(), State::Unknown);
}

#[test]
fn float_valued_integer_field_is_an_error() {
    let body = b"[{\"url\":\"u\",\"status\":1.5,\"num_peers\":0,\"msg\":\"\"}]".to_vec();
    assert!(matches!(decode_trackers(&body), Err(DecodeReason::InvalidInteger)));
}
