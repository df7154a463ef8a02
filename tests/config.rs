use activity_sync::config::{headers_modifier, Header, RequestConfig, RequestConfigJson};

fn header(name: &str, value: &str) -> Header {
    Header { name: name.to_string(), value: value.to_string() }
}

fn layer(url: &str, calendar: &str, headers: Vec<Header>) -> RequestConfigJson {
    RequestConfigJson { url: url.to_string(), calendar_id: calendar.to_string(), headers }
}

fn lookup<'a>(headers: &'a [Header], name: &str) -> Option<&'a str> {
    headers.iter().find(|h| h.name == name).map(|h| h.value.as_str())
}

#[test]
fn custom_layer_overrides_default() {
    let default = layer("https://default", "cal-default", vec![header("accept", "*/*"), header("cookie", "a=1")]);
    let custom = layer("https://custom", "cal-custom", vec![header("cookie", "a=2"), header("dnt", "1")]);
    let config = RequestConfig::from_layers(default, custom, None).unwrap();
    assert_eq!(config.url, "https://custom");
    assert_eq!(config.calendar_id, "cal-custom");
    assert_eq!(config.headers.len(), 3);
    assert_eq!(lookup(&config.headers, "accept"), Some("*/*"));
    assert_eq!(lookup(&config.headers, "cookie"), Some("a=2"));
    assert_eq!(lookup(&config.headers, "dnt"), Some("1"));
}

#[test]
fn calendar_given_on_start_up_wins() {
    let config = RequestConfig::from_layers(
        layer("u", "c1", vec![]),
        layer("u", "c2", vec![]),
        Some("test-calendar".to_string()),
    )
    .unwrap();
    assert_eq!(config.calendar_id, "test-calendar");
}

#[test]
fn unknown_header_is_refused() {
    let err = RequestConfig::from_layers(layer("u", "c", vec![header("x-secret", "1")]), layer("u", "c", vec![]), None)
        .unwrap_err();
    assert_eq!(err.name, "x-secret");
    let mut map = vec![];
    let r = headers_modifier(&vec![header("user-agent", "me"), header("Accept", "x")], &mut map);
    assert_eq!(r.unwrap_err().name, "Accept");
    assert_eq!(lookup(&map, "user-agent"), Some("me"));
}
