//! Tree listings, substring filters, destination resolution, the
//! token cache, and the cache layout.

use xet::cas_cache::cache_subdirectories;
use xet::cas_cache::endpoint_tag;
use xet::cas_cache::xet_cache_root;
use xet::client::resolve_endpoint;
use xet::client::resolve_max_concurrent;
use xet::is_cancelled;
use xet::listing::files_from_tree;
use xet::listing::filter_files;
use xet::listing::resolve_revision;
use xet::listing::resolve_url;
use xet::listing::select_file;
use xet::listing::total_size;
use xet::listing::tree_url;
use xet::listing::HfFileInfo;
use xet::listing::HfTreeItem;
use xet::paths::determine_destination;
use xet::token::XetTokenManager;
use xet::token::RefreshAction;
use xet::xet_integration::ResponseHeaders;
use xet::xet_integration::XetFileData;

fn info(path: &str, size: u64) -> HfFileInfo {
    HfFileInfo {
        path: path.to_string(),
        hash: "h".to_string(),
        size,
        xet_hash: None,
    }
}

#[test]
fn listing_keeps_files_and_drops_directories() {
    let items = vec![
        HfTreeItem {
            item_type: "file".to_string(),
            oid: "a1".to_string(),
            size: 5,
            path: "README.md".to_string(),
            xet_hash: None,
        },
        HfTreeItem {
            item_type: "directory".to_string(),
            oid: "d1".to_string(),
            size: 0,
            path: "sub".to_string(),
            xet_hash: None,
        },
    ];
    let files = files_from_tree(items);
    assert_eq!(files.len(), 1);
    assert_eq!(files[0].path, "README.md");
    assert_eq!(files[0].hash, "a1");
    assert_eq!(files[0].size, 5);
}

#[test]
fn select_file_finds_by_path_or_reports_not_found() {
    let files = vec![info("a.bin", 1), info("b.bin", 2)];
    let found = select_file(&files, "b.bin").unwrap();
    assert_eq!(found.size, 2);

    let missing = select_file(&files, "c.bin").unwrap_err();
    assert_eq!(missing.code().as_i32(), 4);
    assert_eq!(missing.message(), "File c.bin not found in repository");
}

#[test]
fn filters_are_substring_based() {
    let files = vec![info("model.safetensors", 1), info("README.md", 2), info("logs/run.txt", 3)];
    let allow = Some(vec!["safetensors".to_string(), "README".to_string()]);
    let ignore = Some(vec!["logs".to_string()]);
    let kept = filter_files(files, &allow, &ignore);
    assert_eq!(kept.len(), 2);
    assert_eq!(kept[0].path, "model.safetensors");
    assert_eq!(kept[1].path, "README.md");
}

#[test]
fn empty_filter_lists() {
    let files = vec![info("a", 1), info("b", 2)];
    // An empty allow list keeps nothing.
    let none_kept = filter_files(files.clone(), &Some(vec![]), &None);
    assert_eq!(none_kept.len(), 0);
    // An empty ignore list drops nothing.
    let all_kept = filter_files(files, &None, &Some(vec![]));
    assert_eq!(all_kept.len(), 2);
}

#[test]
fn total_size_sums_the_listing() {
    let files = vec![info("a", 1024), info("b", 1024)];
    assert_eq!(total_size(&files), 2048);
    let big = vec![info("a", u64::MAX), info("b", 2)];
    assert_eq!(total_size(&big), u64::MAX);
}

#[test]
fn urls_follow_the_hub_layout() {
    assert_eq!(
        tree_url("https://hub.example", "org/model", "main"),
        "https://hub.example/api/models/org/model/tree/main"
    );
    assert_eq!(
        resolve_url("https://hub.example", "org/model", "main", "w.bin"),
        "https://hub.example/org/model/resolve/main/w.bin"
    );
    assert_eq!(resolve_revision(None), "main");
    assert_eq!(resolve_revision(Some("v1.0")), "v1.0");
}

#[test]
fn destination_resolution_cases() {
    // A local directory wins.
    assert_eq!(
        determine_destination(Some("/data"), Some("/tmp/c"), "org/model", "main", "w.bin"),
        "/data/w.bin"
    );
    // The cache keyed by repository and revision comes second.
    assert_eq!(
        determine_destination(None, Some("/tmp/c"), "org/model", "main", "w.bin"),
        "/tmp/c/org--model/main/w.bin"
    );
    // With neither, the bare filename.
    assert_eq!(
        determine_destination(None, None, "org/model", "main", "w.bin"),
        "w.bin"
    );
}

#[test]
fn destination_resolution_is_deterministic() {
    let a = determine_destination(None, Some("/tmp/c"), "org/model", "main", "w.bin");
    let b = determine_destination(None, Some("/tmp/c"), "org/model", "main", "w.bin");
    assert_eq!(a, b);
}

#[test]
fn token_cache_serves_valid_same_route() {
    let mut manager = XetTokenManager::new(Some("hf_token".to_string()));
    let file_data = XetFileData {
        file_hash: "deadbeef".to_string(),
        refresh_route: "https://hub/xet-auth".to_string(),
    };
    let now: u64 = 1000;

    // Nothing cached: the route must be fetched.
    assert!(matches!(manager.refresh_action(&file_data, now), RefreshAction::FetchRoute));

    // A fetched response is cached.
    let headers = ResponseHeaders {
        xet_hash: None,
        link: None,
        xet_refresh_route: None,
        cas_url: Some("https://cas".to_string()),
        access_token: Some("tok".to_string()),
        token_expiration: Some("2000".to_string()),
    };
    let info = manager.ingest_refresh_response(&headers, "https://hub/xet-auth").unwrap();
    assert_eq!(info.access_token, "tok");

    // While valid, the same route is served from the cache: a second
    // refresh sends nothing out.
    match manager.refresh_action(&file_data, now) {
        RefreshAction::UseCached { info } => assert_eq!(info.access_token, "tok"),
        RefreshAction::FetchRoute => panic!("a valid cached token must be reused"),
    }

    // Within the safety margin of expiration it is fetched anew.
    assert!(matches!(manager.refresh_action(&file_data, 1941), RefreshAction::FetchRoute));

    // A different route is never served from the cache.
    let other = XetFileData {
        file_hash: "deadbeef".to_string(),
        refresh_route: "https://hub/other".to_string(),
    };
    assert!(matches!(manager.refresh_action(&other, now), RefreshAction::FetchRoute));
}

#[test]
fn refresh_without_headers_is_fatal() {
    let mut manager = XetTokenManager::new(None);
    let headers = ResponseHeaders {
        xet_hash: None,
        link: None,
        xet_refresh_route: None,
        cas_url: Some("https://cas".to_string()),
        access_token: None,
        token_expiration: Some("2000".to_string()),
    };
    let err = manager.ingest_refresh_response(&headers, "https://hub/xet-auth").unwrap_err();
    assert_eq!(err.message(), "XET headers not found in response");
    assert_eq!(err.code().as_i32(), 99);
}

#[test]
fn cache_root_first_of_environment() {
    assert_eq!(xet_cache_root(Some("/xc"), Some("/hf"), Some("/xdg"), "/home/u"), "/xc");
    assert_eq!(xet_cache_root(None, Some("/hf"), Some("/xdg"), "/home/u"), "/hf/xet");
    assert_eq!(
        xet_cache_root(None, None, Some("/xdg"), "/home/u"),
        "/xdg/huggingface/xet"
    );
    assert_eq!(
        xet_cache_root(None, None, None, "/home/u"),
        "/home/u/.cache/huggingface/xet"
    );
}

#[test]
fn endpoint_tag_shape() {
    let tag = endpoint_tag("https://cas-server.xethub.hf.co");
    assert_eq!(tag.len(), 33);
    assert!(tag.starts_with("https___cas_serv-"));
    // The tag is a pure function of the endpoint.
    assert_eq!(tag, endpoint_tag("https://cas-server.xethub.hf.co"));
    // Different endpoints land in different tag directories.
    assert_ne!(tag, endpoint_tag("https://other.example"));

    let short = endpoint_tag("cas");
    assert!(short.starts_with("cas-"));
    assert_eq!(short.len(), 20);
}

#[test]
fn cache_subdirectories_layout() {
    let (chunk, shard, staging, session) = cache_subdirectories("/root/xet/tag");
    assert_eq!(chunk, "/root/xet/tag/chunk-cache");
    assert_eq!(shard, "/root/xet/tag/shard-cache");
    assert_eq!(staging, "/root/xet/tag/staging");
    assert_eq!(session, "/root/xet/tag/staging/shard-session");
}

#[test]
fn client_defaults() {
    assert_eq!(resolve_endpoint(None), "https://huggingface.co");
    assert_eq!(resolve_endpoint(Some("https://hub.example".to_string())), "https://hub.example");
    assert_eq!(resolve_max_concurrent(0), 4);
    assert_eq!(resolve_max_concurrent(3), 3);
    assert!(!is_cancelled(None));
    assert!(!is_cancelled(Some(false)));
    assert!(is_cancelled(Some(true)));
}
