use url_tokenizer::tokenizer::tokenize;

#[test]
fn tokenize_splits_on_every_slash() {
    assert_eq!(
        tokenize("https://www.example.com/article/123"),
        vec!["https:", "", "www.example.com", "article", "123"]
    );
}

#[test]
fn tokenize_empty_input_gives_one_empty_token() {
    assert_eq!(tokenize(""), vec![""]);
}

#[test]
fn tokenize_without_slash_gives_the_input() {
    assert_eq!(tokenize("not a url"), vec!["not a url"]);
}

#[test]
fn tokenize_keeps_leading_and_trailing_empty_tokens() {
    assert_eq!(tokenize("/"), vec!["", ""]);
    assert_eq!(tokenize("/a"), vec!["", "a"]);
    assert_eq!(tokenize("a/"), vec!["a", ""]);
    assert_eq!(tokenize("//"), vec!["", "", ""]);
    assert_eq!(tokenize("/a//b/"), vec!["", "a", "", "b", ""]);
}

#[test]
fn tokenize_gives_one_token_more_than_slashes() {
    for input in ["", "a", "/", "a/b", "//x//", "https://h/p/q?r=/s", "é/ü/京"] {
        let slashes = input.chars().filter(|c| *c == '/').count();
        assert_eq!(tokenize(input).len(), slashes + 1);
    }
}

#[test]
fn tokenize_then_join_gives_the_input_back() {
    for input in [
        "",
        "/",
        "//",
        "plain",
        "a/b",
        "/a//b/",
        "https://www.example.com/article/123?category=technology#section2",
        "ftp://host",
        "é/ü/京",
    ] {
        assert_eq!(tokenize(input).join("/"), input);
    }
}

#[test]
fn tokenize_leaves_no_slash_in_a_token() {
    for input in ["/", "a/b/c", "https://h/p/", "//"] {
        for token in tokenize(input) {
            assert!(!token.contains('/'));
        }
    }
}

#[test]
fn tokenize_counts_characters_not_bytes() {
    assert_eq!(tokenize("é/ü"), vec!["é", "ü"]);
    assert_eq!(tokenize("京都/東京/"), vec!["京都", "東京", ""]);
}
