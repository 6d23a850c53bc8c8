use clouddesk::office::{
    discovery_from_body, parse_discovery_xml, path_and_query, select_action, DiscoveredAction,
    DiscoveryCache, DiscoveryError, DISCOVERY_TTL_MILLIS, MAX_CACHE_ENTRIES,
};

const DISCOVERY_XML: &str = r#"<?xml version="1.0"?>
<wopi-discovery>
  <net-zone name="external-http">
    <app name="writer">
      <action ext="odt" name="edit" urlsrc="http://collab/browser/x/cool.html?"/>
      <action ext="odt" name="view" urlsrc="http://collab/browser/x/view.html?"/>
      <action ext="pdf" name="view"/>
    </app>
  </net-zone>
</wopi-discovery>"#;

fn action(ext: &str, name: &str, url: &str) -> DiscoveredAction {
    DiscoveredAction { extension: ext.into(), name: name.into(), urlsrc: url.into() }
}

#[test]
fn parses_complete_action_tags_in_order() {
    let actions = parse_discovery_xml(DISCOVERY_XML.as_bytes()).unwrap();
    assert_eq!(actions.len(), 2);
    assert_eq!(actions[0].extension, "odt");
    assert_eq!(actions[0].name, "edit");
    assert_eq!(actions[0].urlsrc, "http://collab/browser/x/cool.html?");
    assert_eq!(actions[1].name, "view");
}

#[test]
fn malformed_discovery_is_a_parse_error() {
    let bad = b"<wopi-discovery><action ext=\"odt\" name=\"edit\" urlsrc=\"u\"/></oops>";
    assert!(matches!(parse_discovery_xml(bad), Err(DiscoveryError::Parse(_))));
    let big = vec![b' '; 4 * 1024 * 1024 + 1];
    assert!(matches!(discovery_from_body(&big), Err(DiscoveryError::TooLarge)));
}

#[test]
fn read_only_documents_never_get_edit() {
    let actions = vec![
        action("odt", "edit", "e"),
        action("ODT", "view", "v"),
        action("docx", "view", "d"),
    ];
    assert_eq!(select_action(&actions, "ODT", true).unwrap().urlsrc, "e");
    assert_eq!(select_action(&actions, "odt", false).unwrap().urlsrc, "v");
    assert_eq!(select_action(&actions, "DOCX", true).unwrap().urlsrc, "d");
    assert!(select_action(&actions, "xlsx", true).is_none());
}

#[test]
fn editor_urls_lose_scheme_and_host() {
    assert_eq!(
        path_and_query("http://collab:9980/browser/x/cool.html?a=b"),
        "/browser/x/cool.html?a=b"
    );
    assert_eq!(path_and_query("https://collab"), "/");
    assert_eq!(path_and_query("/already/relative"), "/already/relative");
}

#[test]
fn second_lookup_before_ttl_is_a_cache_hit() {
    let mut cache = DiscoveryCache::new();
    assert!(cache.lookup("http://a", 1, 0).is_none());
    cache.store("http://a", 1, 1_000, vec![action("odt", "edit", "e")]);
    assert_eq!(cache.lookup("http://a", 1, 1_000 + DISCOVERY_TTL_MILLIS - 1).unwrap().len(), 1);
    assert!(cache.lookup("http://a", 1, 1_000 + DISCOVERY_TTL_MILLIS).is_none());
}

#[test]
fn changed_generation_misses_and_clear_drops_everything() {
    let mut cache = DiscoveryCache::new();
    cache.store("http://a", 1, 0, vec![action("odt", "edit", "e")]);
    assert!(cache.lookup("http://a", 2, 0).is_none());
    cache.store("http://a", 2, 10, vec![]);
    assert_eq!(cache.lookup("http://a", 2, 10).unwrap().len(), 0);
    assert!(cache.lookup("http://a", 1, 10).is_none());
    cache.clear_for_test();
    assert!(cache.lookup("http://a", 2, 10).is_none());
}

#[test]
fn cache_stays_bounded() {
    let mut cache = DiscoveryCache::new();
    for i in 0..(MAX_CACHE_ENTRIES + 5) {
        cache.store(&format!("http://host{i}"), 1, 0, vec![]);
        assert!(cache.entries.len() <= MAX_CACHE_ENTRIES);
    }
    assert!(cache.lookup(&format!("http://host{}", MAX_CACHE_ENTRIES + 4), 1, 0).is_some());
}

#[test]
fn editor_url_goes_through_the_proxy_with_the_token() {
    let url = clouddesk::office::editor_url(
        "inst1",
        "http://collab:9980/browser/x/cool.html?lang=en",
        None,
        "file42",
        "tok",
    );
    assert_eq!(
        url,
        "/api/v1/runtime-instances/office/inst1/office-proxy/browser/x/cool.html?lang=en&WOPISrc=http%3A%2F%2Fhost.docker.internal%2Fwopi%2Ffiles%2Ffile42&access_token=tok"
    );
    let url = clouddesk::office::editor_url("i", "http://c/b/cool.html", Some("https://h"), "f", "t");
    assert_eq!(
        url,
        "/api/v1/runtime-instances/office/i/office-proxy/b/cool.html?WOPISrc=https%3A%2F%2Fh%2Fwopi%2Ffiles%2Ff&access_token=t"
    );
}
