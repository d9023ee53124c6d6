//! Tests of login handling, the session, and the endpoint addresses.

use qbittorrent::error::{AuthenticationFailure, Error};
use qbittorrent::queries::{LogRequestBuilder, TorrentRequestBuilder};
use qbittorrent::session::{Credential, Session, alternate_limits_response, check_status, login_body};

#[test]
fn login_body_is_form_encoded() {
    assert_eq!(login_body("admin", "adminadmin"), "username=admin&password=adminadmin");
    assert_eq!(login_body("a b", "p&q"), "username=a%20b&password=p%26q");
}

#[test]
fn login_round_trip_keeps_the_cookie_prefix() {
    // Encoding a login request and decoding a synthetic success response
    // yields a session whose credential is the part of the set-cookie
    // header before its first `;`.
    let body = login_body("admin", "adminadmin");
    assert_eq!(body, "username=admin&password=adminadmin");
    let header = "SID=abc123; HttpOnly; path=/";
    let session = Session::from_login("http://localhost:8080", Some(header)).unwrap();
    assert_eq!(session.address, "http://localhost:8080");
    assert_eq!(session.cookie_header().unwrap(), "SID=abc123");
    assert_eq!(session.cookie_header().unwrap(), header.split(';').next().unwrap());
}

#[test]
fn missing_set_cookie_header_fails_authentication() {
    let r = Session::from_login("http://h", None);
    assert!(matches!(
        r,
        Err(Error::AuthenticationFailure(AuthenticationFailure::MissingCredentialHeader))
    ));
}

#[test]
fn set_cookie_without_delimiter_fails_authentication() {
    let r = Session::from_login("http://h", Some("SID=abc123"));
    assert!(matches!(
        r,
        Err(Error::AuthenticationFailure(AuthenticationFailure::MalformedCredentialHeader))
    ));
}

#[test]
fn basic_auth_sessions_carry_no_cookie() {
    let s = Session::with_basic_auth("http://h", "user", "pass");
    assert!(s.cookie_header().is_none());
    match &s.credential {
        Credential::Basic { username, password } => {
            assert_eq!(username, "user");
            assert_eq!(password, "pass");
        },
        Credential::Cookie(_) => panic!("expected a basic credential"),
    }
}

fn session() -> Session {
    Session::from_login("http://h", Some("SID=s; path=/")).unwrap()
}

#[test]
fn endpoint_addresses_use_the_versioned_prefix() {
    let s = session();
    assert_eq!(s.login_url(), "http://h/api/v2/auth/login");
    assert_eq!(s.version_url(), "http://h/api/v2/app/version");
    assert_eq!(s.api_version_url(), "http://h/api/v2/app/webapiVersion");
    assert_eq!(s.build_info_url(), "http://h/api/v2/app/buildInfo");
    assert_eq!(s.shutdown_url(), "http://h/api/v2/app/shutdown");
    assert_eq!(s.default_save_path_url(), "http://h/api/v2/app/defaultSavePath");
    assert_eq!(s.transfer_info_url(), "http://h/api/v2/transfer/info");
    assert_eq!(s.speed_limits_mode_url(), "http://h/api/v2/transfer/speedLimitsMode");
    assert_eq!(s.toggle_speed_limits_url(), "http://h/api/v2/transfer/toggleSpeedLimitsMode");
    assert_eq!(s.categories_url(), "http://h/api/v2/torrents/categories");
    assert_eq!(s.add_torrent_url(), "http://h/api/v2/torrents/add");
}

#[test]
fn per_item_addresses_carry_the_identifier() {
    let s = session();
    let h = qbittorrent::data::Hash::from("abc".to_string());
    assert_eq!(s.properties_url(&h), "http://h/api/v2/torrents/properties?hash=abc");
    assert_eq!(s.trackers_url(&h), "http://h/api/v2/torrents/trackers?hash=abc");
    assert_eq!(s.contents_url(&h), "http://h/api/v2/torrents/files?hash=abc");
    assert_eq!(s.resume_url(&h), "http://h/api/v2/torrents/resume?hashes=abc");
    assert_eq!(s.pause_url(&h), "http://h/api/v2/torrents/pause?hashes=abc");
    assert_eq!(s.recheck_url(&h), "http://h/api/v2/torrents/recheck?hashes=abc");
    assert_eq!(
        s.set_category_url(&h, "films"),
        "http://h/api/v2/torrents/setCategory?hashes=abc&category=films"
    );
}

#[test]
fn batch_addresses_join_identifiers() {
    let s = session();
    let hs = vec![qbittorrent::data::Hash::from("a1".to_string()), qbittorrent::data::Hash::from("b2".to_string())];
    assert_eq!(s.resume_batch_url(&hs), "http://h/api/v2/torrents/resume?hashes=a1|b2");
    assert_eq!(s.pause_batch_url(&hs), "http://h/api/v2/torrents/pause?hashes=a1|b2");
    let tags = vec!["bad".to_string()];
    assert_eq!(s.add_tags_url(&hs, &tags), "http://h/api/v2/torrents/addTags?hashes=a1|b2&tags=bad");
}

#[test]
fn torrent_list_address_appends_the_query_only_when_nonempty() {
    let s = session();
    let empty = TorrentRequestBuilder::new().build();
    assert_eq!(s.torrent_list_url(&empty), "http://h/api/v2/torrents/info");
    let filtered = TorrentRequestBuilder::new()
        .filter(qbittorrent::queries::TorrentFilter::Completed)
        .build();
    assert_eq!(s.torrent_list_url(&filtered), "http://h/api/v2/torrents/info?filter=completed");
}

#[test]
fn log_address_carries_the_request_query() {
    let s = session();
    let req = LogRequestBuilder::new().warning(true).build();
    assert_eq!(
        s.log_url(&req),
        "http://h/api/v2/log/main?normal=false&info=false&warning=true&critical=false&last_known_id=0"
    );
}

#[test]
fn add_category_address_concatenates_name_and_path() {
    let s = session();
    assert_eq!(
        s.add_category_url("films", "/data/films"),
        "http://h/api/v2/torrents/createCategory?savePath=/data/films&category=films"
    );
}

#[test]
fn success_statuses_pass_the_status_check() {
    assert!(check_status(200, &Vec::new()).is_ok());
    assert!(check_status(204, &Vec::new()).is_ok());
    assert!(check_status(299, &Vec::new()).is_ok());
}

#[test]
fn failure_statuses_carry_status_and_body_text() {
    let r = check_status(404, &b"not found".to_vec());
    match r {
        Err(Error::RemoteRequestFailed { status, body }) => {
            assert_eq!(status, 404);
            assert_eq!(body, "not found");
        },
        _ => panic!("expected a remote-request failure"),
    }
    assert!(check_status(199, &Vec::new()).is_err());
    assert!(check_status(300, &Vec::new()).is_err());
}

#[test]
fn speed_limits_response_fixes_each_failure() {
    assert!(matches!(
        alternate_limits_response(500, &b"x".to_vec()),
        Err(Error::RemoteRequestFailed { .. })
    ));
    assert!(matches!(
        alternate_limits_response(200, &b"x".to_vec()),
        Err(Error::DecodeFailure(_))
    ));
    assert_eq!(
        alternate_limits_response(200, &b"1".to_vec()).unwrap(),
        qbittorrent::data::AlternateLimits::Enabled
    );
}

#[test]
fn error_descriptions_are_nonempty() {
    let e = Error::AuthenticationFailure(AuthenticationFailure::MissingCredentialHeader);
    assert!(!e.description().is_empty());
}
