use url_tokenizer::render::format_tokens;
use url_tokenizer::tokenizer::TokensResult;

#[test]
fn format_tokens_of_empty_list() {
    assert_eq!(format_tokens(&vec![]), "[]\r\n");
}

#[test]
fn format_tokens_of_one_token() {
    assert_eq!(format_tokens(&vec!["article"]), "[\r\n    'article',\r\n]\r\n");
}

#[test]
fn format_tokens_of_several_tokens() {
    assert_eq!(
        format_tokens(&vec!["https", "www", "", "com"]),
        "[\r\n    'https',\r\n    'www',\r\n    '',\r\n    'com',\r\n]\r\n"
    );
}

#[test]
fn format_tokens_as_the_plain_formatter_does() {
    let tokens = vec!["a", "b'c", "é", " "];
    let mut expected = String::from("[");
    for token in &tokens {
        expected.push_str(format!("\r\n    '{}',", token).as_str());
    }
    expected.push_str("\r\n]\r\n");
    assert_eq!(format_tokens(&tokens), expected);
}

#[test]
fn granular_of_empty_input() {
    assert_eq!(TokensResult::new("").granular(), "[]\r\n");
}

#[test]
fn granular_of_one_character() {
    assert_eq!(TokensResult::new("a").granular(), "[\r\n    a => 'a'\r\n]\r\n");
}

#[test]
fn granular_spells_each_token() {
    assert_eq!(
        TokensResult::new("ab/c.12").granular(),
        "[\r\n    ab => 'a', 'b'\r\n    c => 'c'\r\n    . => '.'\r\n    12 => '1', '2'\r\n]\r\n"
    );
}

#[test]
fn granular_of_host_only_url() {
    assert_eq!(
        TokensResult::new("ftp://host").granular(),
        "[\r\n    ftp => 'f', 't', 'p'\r\n    : => ':'\r\n    host => 'h', 'o', 's', 't'\r\n]\r\n"
    );
}

#[test]
fn granular_puts_a_comma_between_characters_only() {
    assert_eq!(
        TokensResult::new("éa").granular(),
        "[\r\n    éa => 'é', 'a'\r\n]\r\n"
    );
}

#[test]
fn granular_writes_the_tokens_of_the_record() {
    let mut result = TokensResult::new("x");
    result.granular_tokens = vec!["", "yz"];
    assert_eq!(result.granular(), "[\r\n     => \r\n    yz => 'y', 'z'\r\n]\r\n");
}
