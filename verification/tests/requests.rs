//! Tests of the request descriptors and their canonical encodings.

use qbittorrent::queries::{
    LogRequestBuilder, TorrentDownloadBuilder, TorrentFilter, TorrentRequestBuilder,
    TagsUrlHelper,
};

#[test]
fn empty_torrent_request_emits_nothing() {
    let req = TorrentRequestBuilder::new().build();
    assert_eq!(req.url(), "");
}

#[test]
fn torrent_request_emits_set_fields_in_order() {
    let req = TorrentRequestBuilder::new()
        .filter(TorrentFilter::Completed)
        .reverse(true)
        .limit(25)
        .hash(qbittorrent::data::Hash::from("58e6a9fa".to_string()))
        .build();
    assert_eq!(req.url(), "filter=completed&reverse=true&limit=25&hashes=58e6a9fa");
}

#[test]
fn torrent_request_never_emits_unset_fields() {
    let req = TorrentRequestBuilder::new().category("films".to_string()).build();
    let url = req.url();
    assert_eq!(url, "category=films");
    assert!(!url.contains("filter"));
    assert!(!url.contains("sort"));
    assert!(!url.contains("reverse"));
    assert!(!url.contains("limit"));
    assert!(!url.contains("offset"));
    assert!(!url.contains("hashes"));
}

#[test]
fn torrent_request_percent_encodes_values() {
    let req = TorrentRequestBuilder::new().category("my films".to_string()).build();
    assert_eq!(req.url(), "category=my%20films");
}

#[test]
fn torrent_request_negative_offset() {
    let req = TorrentRequestBuilder::new().offset(-5).build();
    assert_eq!(req.url(), "offset=%2D5");
}

#[test]
fn filter_tokens_are_lowercase() {
    assert_eq!(TorrentRequestBuilder::new().filter(TorrentFilter::All).build().url(), "filter=all");
    assert_eq!(
        TorrentRequestBuilder::new().filter(TorrentFilter::Downloading).build().url(),
        "filter=downloading"
    );
    assert_eq!(
        TorrentRequestBuilder::new().filter(TorrentFilter::Paused).build().url(),
        "filter=paused"
    );
    assert_eq!(
        TorrentRequestBuilder::new().filter(TorrentFilter::Active).build().url(),
        "filter=active"
    );
}

#[test]
fn log_request_always_emits_all_fields() {
    let req = LogRequestBuilder::new().build();
    assert_eq!(req.url(), "normal=false&info=false&warning=false&critical=false&last_known_id=0");
}

#[test]
fn log_request_reflects_builder_settings() {
    let req = LogRequestBuilder::new().normal(true).critical(true).last_known_id(42).build();
    assert_eq!(req.url(), "normal=true&info=false&warning=false&critical=true&last_known_id=42");
}

#[test]
fn torrent_download_emits_only_set_fields() {
    let dl = TorrentDownloadBuilder::new()
        .urls("abc".to_string())
        .upload_limit(300)
        .download_limit(200)
        .build();
    assert_eq!(dl.form_body(), "urls=abc&upLimit=300&dlLimit=200");
}

#[test]
fn torrent_download_uses_wire_names() {
    let dl = TorrentDownloadBuilder::new()
        .automatic_management(true)
        .sequential_download("true".to_string())
        .first_last_piece_prio("false".to_string())
        .build();
    assert_eq!(
        dl.form_body(),
        "autoTMM=true&sequentialDownload=true&firstLastPiecePrio=false"
    );
}

#[test]
fn add_new_torrent_form_encodes_magnet() {
    let mut magnet = String::with_capacity(200);
    magnet.push_str("magnet");
    magnet.push_str(":?xt=urn:");
    magnet.push_str("btih:58e6a9fa8af954342c5a31a1793943bae45496aa");
    let dl = TorrentDownloadBuilder::new()
        .urls(magnet)
        .savepath("E:\\Torrents".to_string())
        .upload_limit(300)
        .category("add_new_torrent_test_category".to_string())
        .sequential_download("true".to_string())
        .download_limit(200)
        .build();
    let body = dl.form_body();
    assert!(body.starts_with("urls=magnet%3A%3Fxt%3Durn%3Abtih%3A58e6a9fa"));
    assert!(body.contains("&savepath=E%3A%5CTorrents&"));
    assert!(body.contains("&category=add%5Fnew%5Ftorrent%5Ftest%5Fcategory&"));
    assert!(body.contains("&upLimit=300&"));
    assert!(body.ends_with("&dlLimit=200&sequentialDownload=true"));
    assert!(!body.contains("cookie"));
    assert!(!body.contains("paused"));
}

#[test]
fn tags_url_helper_joins_both_lists() {
    let hashes = vec![qbittorrent::data::Hash::from("h1".to_string()), qbittorrent::data::Hash::from("h2".to_string())];
    let tags = vec!["bad".to_string(), "stale".to_string()];
    let helper = TagsUrlHelper { hashes: &hashes, tags: &tags };
    assert_eq!(helper.url().unwrap(), "hashes=h1|h2&tags=bad,stale");
}

#[test]
fn default_filter_is_all() {
    assert_eq!(TorrentFilter::default(), TorrentFilter::All);
}
