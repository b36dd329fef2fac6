use spotify_dl::index::{check_cache, index_dir, link_path, CacheDecision, LinkState};

#[test]
fn entries_live_in_the_hidden_directory() {
    assert_eq!(index_dir("/music"), "/music/.index");
    assert_eq!(link_path("/music", 42), "/music/.index/42");
    assert_eq!(link_path("/music/", 42), "/music/.index/42");
    assert_eq!(link_path("", 0), ".index/0");
}

#[test]
fn entries_are_named_by_the_whole_identifier() {
    assert_eq!(link_path("d", u128::MAX), "d/.index/340282366920938463463374607431768211455");
    assert_ne!(link_path("d", 1), link_path("d", 10));
    assert_ne!(link_path("d", 12), link_path("d", 21));
}

#[test]
fn missing_entry_means_download() {
    assert_eq!(check_cache(&LinkState::Missing), CacheDecision::Download);
}

#[test]
fn valid_entry_means_skip() {
    let found = LinkState::Present { target: "/music/a.flac".to_string(), target_exists: true };
    assert_eq!(check_cache(&found), CacheDecision::Skip);
}

#[test]
fn stale_entry_means_invalidate() {
    let found = LinkState::Present { target: "/music/a.flac".to_string(), target_exists: false };
    assert_eq!(check_cache(&found), CacheDecision::Invalidate);
}
