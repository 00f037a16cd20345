use aria_player::links::{
    located, located_all, oauth_reply, oauth_response, opened_files, reply_from, starts_with_hyphen, value_of,
    UrlParts, OAUTH_PORT,
};
use url::Url;

fn pairs(list: &[(&str, &str)]) -> Vec<(String, String)> {
    list.iter().map(|(name, value)| (name.to_string(), value.to_string())).collect()
}

#[test]
fn redirect_is_awaited_on_its_port() {
    assert_eq!(OAUTH_PORT, 2742);
    assert_eq!(oauth_response(), "<html><script>close()</script></html>");
}

#[test]
fn value_of_takes_the_last_pair() {
    let list = pairs(&[("code", "1"), ("state", "s"), ("code", "2")]);
    assert_eq!(value_of(&list, "code"), "2");
    assert_eq!(value_of(&list, "state"), "s");
    assert_eq!(value_of(&list, "other"), "");
    assert_eq!(value_of(&Vec::new(), "code"), "");
}

#[test]
fn local_redirect_brings_code_and_state() {
    let reply = oauth_reply("http://127.0.0.1:2742/?code=abc&state=xyz").unwrap();
    assert_eq!(reply.code, "abc");
    assert_eq!(reply.state, "xyz");
}

#[test]
fn query_is_decoded() {
    let reply = oauth_reply("http://127.0.0.1:2742/cb?state=a%20b&code=x%2Fy+z").unwrap();
    assert_eq!(reply.code, "x/y z");
    assert_eq!(reply.state, "a b");
}

#[test]
fn missing_names_are_empty() {
    let reply = oauth_reply("http://127.0.0.1:2742/").unwrap();
    assert_eq!(reply.code, "");
    assert_eq!(reply.state, "");
    let reply = oauth_reply("http://127.0.0.1/?code=1").unwrap();
    assert_eq!(reply.code, "1");
    assert_eq!(reply.state, "");
}

#[test]
fn repeated_name_gives_the_last_value() {
    let reply = oauth_reply("http://127.0.0.1/?code=1&code=2&state=a&state=b").unwrap();
    assert_eq!(reply.code, "2");
    assert_eq!(reply.state, "b");
}

#[test]
fn other_hosts_bring_nothing() {
    assert!(oauth_reply("http://localhost:2742/?code=abc").is_none());
    assert!(oauth_reply("http://example.com/?code=abc&state=x").is_none());
    assert!(oauth_reply("mailto:someone@example.com").is_none());
}

#[test]
fn text_that_is_no_url_brings_nothing() {
    assert!(oauth_reply("not a url").is_none());
    assert!(oauth_reply("").is_none());
}

#[test]
fn reply_is_read_from_the_parts_of_a_url() {
    let local =
        UrlParts { host: Some("127.0.0.1".to_string()), query: pairs(&[("state", "s")]) };
    let reply = reply_from(&local).unwrap();
    assert_eq!(reply.code, "");
    assert_eq!(reply.state, "s");
    let other = UrlParts { host: Some("10.0.0.1".to_string()), query: pairs(&[("code", "1")]) };
    assert!(reply_from(&other).is_none());
    let hostless = UrlParts { host: None, query: pairs(&[("code", "1")]) };
    assert!(reply_from(&hostless).is_none());
}

#[test]
fn options_start_with_a_hyphen() {
    assert!(starts_with_hyphen("-v"));
    assert!(starts_with_hyphen("--flag"));
    assert!(starts_with_hyphen("-"));
    assert!(!starts_with_hyphen(""));
    assert!(!starts_with_hyphen("a-b"));
    assert!(!starts_with_hyphen("/music/-x.mp3"));
}

#[test]
fn located_prefers_the_file_of_the_url() {
    assert_eq!(located("file:///a".to_string(), Some("/a".to_string())), "/a");
    assert_eq!(located("/a b".to_string(), None), "/a b");
}

#[test]
fn opened_files_skip_options_and_keep_paths() {
    let files = opened_files(vec![
        "--minimized".to_string(),
        "/music/a.mp3".to_string(),
        "-x".to_string(),
        "relative/b.flac".to_string(),
    ]);
    assert_eq!(files, vec!["/music/a.mp3", "relative/b.flac"]);
}

#[test]
fn opened_files_of_nothing_are_none() {
    assert!(opened_files(Vec::new()).is_empty());
    assert!(opened_files(vec!["-a".to_string(), "--b".to_string()]).is_empty());
}

#[test]
fn opened_file_url_names_its_path() {
    let files = opened_files(vec!["file:///music/a%20b.mp3".to_string()]);
    assert_eq!(files.len(), 1);
    let expected = Url::parse("file:///music/a%20b.mp3")
        .unwrap()
        .to_file_path()
        .ok()
        .map(|path| path.to_string_lossy().into_owned())
        .unwrap_or("file:///music/a%20b.mp3".to_string());
    assert_eq!(files[0], expected);
}

#[test]
fn url_that_names_no_file_is_taken_as_a_path() {
    let files = opened_files(vec!["http://example.com/a.mp3".to_string()]);
    assert_eq!(files, vec!["http://example.com/a.mp3"]);
}

#[test]
fn located_all_takes_the_lookup_or_the_argument() {
    let arguments = vec![
        "--flag".to_string(),
        "file:///a%20b.mp3".to_string(),
        "-x".to_string(),
        "c.flac".to_string(),
        "d.ogg".to_string(),
    ];
    let lookups = vec![Some("/a b.mp3".to_string()), None, Some("/elsewhere/d.ogg".to_string())];
    assert_eq!(located_all(arguments, lookups), vec!["/a b.mp3", "c.flac", "/elsewhere/d.ogg"]);
}

#[test]
fn located_all_of_options_alone_is_empty() {
    assert!(located_all(vec!["-a".to_string()], Vec::new()).is_empty());
    assert!(located_all(Vec::new(), Vec::new()).is_empty());
}
