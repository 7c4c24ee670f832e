use url_tokenizer::tokenizer::decompose;
use url_tokenizer::tokenizer::is_valid_protocol;
use url_tokenizer::tokenizer::is_valid_url;
use url_tokenizer::tokenizer::split_suffix;
use url_tokenizer::tokenizer::tokenize;

#[test]
fn protocol_is_letters_and_a_colon() {
    assert!(is_valid_protocol("http:"));
    assert!(is_valid_protocol("https:"));
    assert!(is_valid_protocol("FTP:"));
    assert!(is_valid_protocol("a:"));
}

#[test]
fn protocol_must_not_be_empty() {
    assert!(!is_valid_protocol(""));
}

#[test]
fn protocol_must_end_in_a_colon() {
    assert!(!is_valid_protocol("http"));
    assert!(!is_valid_protocol("http:/"));
    assert!(!is_valid_protocol("http:x"));
    assert!(!is_valid_protocol("a"));
}

#[test]
fn protocol_must_hold_letters_only_before_the_colon() {
    assert!(!is_valid_protocol("ht1p:"));
    assert!(!is_valid_protocol("h-p:"));
    assert!(!is_valid_protocol("http::"));
    assert!(!is_valid_protocol(" http:"));
    assert!(!is_valid_protocol("::"));
}

#[test]
fn protocol_may_be_a_lone_colon() {
    assert!(is_valid_protocol(":"));
}

#[test]
fn protocol_letters_may_be_of_any_script() {
    assert!(is_valid_protocol("é:"));
    assert!(is_valid_protocol("протокол:"));
}

#[test]
fn url_needs_three_tokens() {
    assert!(!is_valid_url(&[]));
    assert!(!is_valid_url(&["http:"]));
    assert!(!is_valid_url(&["http:", ""]));
    assert!(is_valid_url(&["http:", "", ""]));
    assert!(is_valid_url(&["http:", "", "host"]));
}

#[test]
fn url_needs_a_protocol_first() {
    assert!(!is_valid_url(&["http", "", "host"]));
    assert!(!is_valid_url(&["", "", "host"]));
    assert!(!is_valid_url(&["h1:", "", "host"]));
}

#[test]
fn url_needs_an_empty_second_token() {
    assert!(!is_valid_url(&["http:", "x", "host"]));
    assert!(!is_valid_url(&["http:", " ", "host"]));
}

#[test]
fn url_with_lone_colon_protocol_is_valid() {
    assert!(is_valid_url(&tokenize("://x/y")));
}

#[test]
fn url_stays_valid_when_segments_are_appended() {
    let mut tokens = vec!["ftp:", "", "host"];
    assert!(is_valid_url(&tokens));
    for segment in ["a", "", "b?c", "#", "last"] {
        tokens.push(segment);
        assert!(is_valid_url(&tokens));
    }
}

#[test]
fn url_validity_ignores_tokens_after_the_second() {
    assert_eq!(
        is_valid_url(&["http:", "", "a", "b"]),
        is_valid_url(&["http:", "", "?", "/"])
    );
    assert_eq!(
        is_valid_url(&["http", "", "a", "b"]),
        is_valid_url(&["http", "", "?", "/"])
    );
    assert_eq!(
        is_valid_url(&["http:", "x", "a"]),
        is_valid_url(&["http:", "x", "b"])
    );
}

#[test]
fn suffix_without_marker_is_empty() {
    assert_eq!(split_suffix("host"), ("host", ""));
    assert_eq!(split_suffix("www.example.com"), ("www.example.com", ""));
    assert_eq!(split_suffix(""), ("", ""));
    assert_eq!(split_suffix("a=b&c"), ("a=b&c", ""));
}

#[test]
fn suffix_starts_after_the_first_marker() {
    assert_eq!(split_suffix("123?category=technology"), ("123", "category=technology"));
    assert_eq!(split_suffix("page#top"), ("page", "top"));
    assert_eq!(
        split_suffix("123?category=technology#section2"),
        ("123", "category=technology#section2")
    );
    assert_eq!(split_suffix("a#b?c"), ("a", "b?c"));
}

#[test]
fn suffix_marker_at_either_end() {
    assert_eq!(split_suffix("?"), ("", ""));
    assert_eq!(split_suffix("#"), ("", ""));
    assert_eq!(split_suffix("?x"), ("", "x"));
    assert_eq!(split_suffix("x#"), ("x", ""));
    assert_eq!(split_suffix("??"), ("", "?"));
}

#[test]
fn suffix_split_loses_only_the_marker() {
    for token in ["a?b", "index.html#frag?x", "?", "x#", "é?ü#京"] {
        let (before, suffix) = split_suffix(token);
        let marker = token.chars().nth(before.chars().count()).unwrap();
        assert!(marker == '?' || marker == '#');
        assert_eq!(format!("{}{}{}", before, marker, suffix), token);
        assert!(!before.contains('?') && !before.contains('#'));
    }
}

#[test]
fn suffix_split_counts_characters_not_bytes() {
    assert_eq!(split_suffix("é?ü"), ("é", "ü"));
    assert_eq!(split_suffix("京都#東京"), ("京都", "東京"));
}

#[test]
fn decompose_gives_nothing_for_other_shapes() {
    assert!(decompose(&[]).is_none());
    assert!(decompose(&["not a url"]).is_none());
    assert!(decompose(&["http:", "", ]).is_none());
    assert!(decompose(&["http", "", "host"]).is_none());
    assert!(decompose(&["http:", "x", "host"]).is_none());
}

#[test]
fn decompose_with_path_takes_file_name_from_last_token() {
    let parts = decompose(&["https:", "", "www.example.com", "a", "b", "c.html?x=1#y"]).unwrap();
    assert_eq!(parts.protocol, "https");
    assert_eq!(parts.host, "www.example.com");
    assert_eq!(parts.directories, vec!["a", "b"]);
    assert_eq!(parts.filename, Some("c.html"));
    assert_eq!(parts.suffix, "x=1#y");
}

#[test]
fn decompose_with_path_leaves_markers_in_host_and_directories() {
    let parts = decompose(&["http:", "", "host?q", "dir#d", "file"]).unwrap();
    assert_eq!(parts.host, "host?q");
    assert_eq!(parts.directories, vec!["dir#d"]);
    assert_eq!(parts.filename, Some("file"));
    assert_eq!(parts.suffix, "");
}

#[test]
fn decompose_with_one_token_after_host_has_no_directories() {
    let parts = decompose(&["http:", "", "host", "file"]).unwrap();
    assert!(parts.directories.is_empty());
    assert_eq!(parts.filename, Some("file"));
}

#[test]
fn decompose_with_trailing_slash_has_empty_file_name() {
    let parts = decompose(&tokenize("http://host/dir/")).unwrap();
    assert_eq!(parts.host, "host");
    assert_eq!(parts.directories, vec!["dir"]);
    assert_eq!(parts.filename, Some(""));
    assert_eq!(parts.suffix, "");
}

#[test]
fn decompose_host_only_parts_the_host() {
    let parts = decompose(&["ftp:", "", "host?list#end"]).unwrap();
    assert_eq!(parts.protocol, "ftp");
    assert_eq!(parts.host, "host");
    assert!(parts.directories.is_empty());
    assert_eq!(parts.filename, None);
    assert_eq!(parts.suffix, "list#end");
}

#[test]
fn decompose_lone_colon_gives_empty_protocol() {
    let parts = decompose(&[":", "", "x", "y"]).unwrap();
    assert_eq!(parts.protocol, "");
    assert_eq!(parts.host, "x");
    assert_eq!(parts.filename, Some("y"));
}
