use onepanel_ci::client::{api_url, host_clean, signed_request, OnePanelClient};
use onepanel_ci::signing::sign_token;

#[test]
fn token_matches_the_documented_formula() {
    // hex(md5("1panel" + "secret" + "1234567890"))
    assert_eq!(sign_token("secret", 1234567890), "d0c4e8dda02643c06e9188c2925211c6");
}

#[test]
fn token_is_deterministic() {
    let a = sign_token("key", 42);
    let b = sign_token("key", 42);
    assert_eq!(a, b);
    // hex(md5("1panelkey42"))
    assert_eq!(a, "fa74be08d93a6417b0b612838678599c");
}

#[test]
fn credential_is_trimmed_before_signing() {
    assert_eq!(
        sign_token("  secret\n", 1234567890),
        "d0c4e8dda02643c06e9188c2925211c6"
    );
}

#[test]
fn zero_timestamp_signs_too() {
    // hex(md5("1panelabc0"))
    assert_eq!(sign_token("abc", 0), "d171c5bb25ef20f480913f80f599f3b9");
}

#[test]
fn negative_timestamps_sign_with_their_sign() {
    // hex(md5("1panelk-1"))
    assert_eq!(sign_token("k", -1), "e1b91ba2a95e0d857f916afdaaab13dd");
}

#[test]
fn listed_servers_never_carry_the_credential() {
    let s = onepanel_ci::models::Server {
        id: 4,
        name: "prod".to_string(),
        host: "h".to_string(),
        port: 81,
        api_key: "secret".to_string(),
    };
    let r = s.response();
    assert_eq!(r.id, 4);
    assert_eq!(r.name, "prod");
    assert_eq!(r.host, "h");
    assert_eq!(r.port, 81);
}

#[test]
fn host_addresses_are_normalized() {
    assert_eq!(host_clean("https://example.com/"), "example.com");
    assert_eq!(host_clean(" http://10.0.0.5 "), "10.0.0.5");
    assert_eq!(host_clean("plain-host"), "plain-host");
    assert_eq!(host_clean("http://http://twice//"), "twice");
}

#[test]
fn urls_use_plain_http_against_the_cleaned_address() {
    assert_eq!(
        api_url("https://1.2.3.4/", 8080, "/api/v1/containers/compose/search"),
        "http://1.2.3.4:8080/api/v1/containers/compose/search"
    );
}

#[test]
fn signed_requests_agree_on_the_instant() {
    let r = signed_request("h", 9999, "secret", 1234567890, "/api/v1/files/content");
    assert_eq!(r.url, "http://h:9999/api/v1/files/content");
    assert_eq!(r.token, "d0c4e8dda02643c06e9188c2925211c6");
    assert_eq!(r.timestamp, "1234567890");
}

#[test]
fn each_operation_has_its_endpoint() {
    let r = OnePanelClient::list_composes("https://h/", 81, "secret", 1234567890);
    assert_eq!(r.url, "http://h:81/api/v1/containers/compose/search");
    assert_eq!(r.token, "d0c4e8dda02643c06e9188c2925211c6");
    let r = OnePanelClient::read_file("h", 81, "k", 7);
    assert_eq!(r.url, "http://h:81/api/v1/files/content");
    let r = OnePanelClient::save_file("h", 81, "k", 7);
    assert_eq!(r.url, "http://h:81/api/v1/files/save");
    let r = OnePanelClient::load_image("h", 81, "k", 7);
    assert_eq!(r.url, "http://h:81/api/v1/containers/image/load");
    let r = OnePanelClient::operate_compose("h", 81, "k", 7);
    assert_eq!(r.url, "http://h:81/api/v1/containers/compose/operate");
    let r = OnePanelClient::upload_file("h", 81, "k", 7);
    assert_eq!(r.url, "http://h:81/api/v1/files/upload");
}

#[test]
fn log_requests_name_the_container_in_the_query() {
    let r = OnePanelClient::get_container_logs("h", 81, "k", 7, "web-1");
    assert_eq!(
        r.url,
        "http://h:81/api/v1/containers/search/log?container=web-1&tail=100"
    );
}

#[test]
fn the_connection_probe_uses_the_address_as_written() {
    let r = OnePanelClient::test_connection("example.com/", 8080, "k", 7);
    assert_eq!(r.url, "http://example.com/:8080/api/v1/system/info");
}

#[test]
fn remote_paths_lose_one_trailing_slash() {
    assert_eq!(OnePanelClient::remote_path_clean("/opt/1panel/tmp/"), "/opt/1panel/tmp");
    assert_eq!(OnePanelClient::remote_path_clean("/opt/1panel/tmp"), "/opt/1panel/tmp");
    assert_eq!(OnePanelClient::remote_path_clean(""), "");
}
