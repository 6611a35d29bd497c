use swgoh_tb::site::asset_origin;

#[test]
fn a_page_is_its_own_base_without_its_fragment() {
    assert_eq!(
        asset_origin("https://arckypn.github.io/swgoh-tb/#3", "https://arckypn.github.io"),
        "https://arckypn.github.io/swgoh-tb/"
    );
    assert_eq!(asset_origin("https://example.org/tb/", "https://example.org"), "https://example.org/tb/");
    assert_eq!(asset_origin("https://example.org/#a#b", "o"), "https://example.org/");
    assert_eq!(asset_origin("#1", "o"), "");
    assert_eq!(asset_origin("", "o"), "");
}

#[test]
fn a_development_server_serves_from_its_origin() {
    assert_eq!(asset_origin("http://dev.local:8080/index.html#2", "http://dev.local:8080"), "http://dev.local:8080");
    assert_eq!(asset_origin("http://localhost/#dev", "http://localhost"), "http://localhost");
    assert_eq!(asset_origin("http://localhost/developers", ""), "");
}

#[test]
fn the_marker_is_read_in_lower_case_only() {
    assert_eq!(asset_origin("http://DEV.local/#2", "http://DEV.local"), "http://DEV.local/");
    assert_eq!(asset_origin("http://de.v/#2", "x"), "http://de.v/");
}
