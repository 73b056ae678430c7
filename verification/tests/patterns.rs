use input_validation::{validate_url, validate_uuid};
use regex::Regex;

const UUID_PATTERN: &str =
    r"^[0-9a-fA-F]{8}-[0-9a-fA-F]{4}-5[0-9a-fA-F]{3}-[89aAbB][0-9a-fA-F]{3}-[0-9a-fA-F]{12}$";

const URL_PATTERN: &str =
    r"(?s)^([a-zA-Z0-9]+://)?[a-zA-Z0-9\-\.]+(?P<tld>\.[a-zA-Z0-9\.]+[a-zA-Z])([/#].*)?$";

const UUID_SAMPLES: [&str; 12] = [
    "",
    "asdasdasdd",
    "aaaaaaaa-aaaa-aaaa-aaaa-aaaaaaaaaaaa",
    "5301963a-065a-5962-99d2-85846dd846ef",
    "5301963A-065A-5962-B9D2-85846DD846EF",
    "3518e3fe-c3e6-11ec-9d64-0242ac120002",
    "f0df6355-29fa-36c4-89e4-c9a80042c866",
    "e4e14ea4-dbaf-4726-a666-1333f6922b00",
    "5301963a-065a-5962-c9d2-85846dd846ef",
    "5301963a-065a-5962-99d2-85846dd846ef ",
    "5301963a-065a-5962-99d2-85846dd846e",
    "5301963a_065a_5962_99d2_85846dd846ef",
];

const URL_SAMPLES: [&str; 40] = [
    "",
    ".",
    "..",
    "a",
    "a.b",
    "a.bc",
    ".bc",
    "a..b",
    "a...b",
    "a.b.c",
    "a.b-c",
    "a-.bc",
    "-.bc",
    "a.1b",
    "a.b1",
    "a.1",
    "example.com",
    "example.com.",
    "example.com/",
    "example.com#",
    "example.com/x.y#z",
    "example.com?",
    "example.pt.br",
    "ex...amp-le..com",
    "...com",
    ".&..com",
    "http://example.com",
    "HTTP://example.com",
    "http:/example.com",
    "http//example.com",
    "://example.com",
    "a://b://c.de",
    "a://b.cd://e",
    "a://b.cd/://e",
    "1://2.3c",
    "a:b.cd",
    "a.bc:",
    "a.bc/\n",
    "a.bc\n",
    "a.b_c",
];

const WHITELISTS: [&[&str]; 5] =
    [&[], &[".com"], &[".net", ".org"], &[".pt.br", ".br", ".a.a"], &["", ".", ".b", "com"]];

fn expected_url(pattern: &Regex, url: &str, whitelist: &[String]) -> bool {
    match pattern.captures(url) {
        Some(found) => whitelist.is_empty() || whitelist.contains(&found["tld"].to_string()),
        None => false,
    }
}

#[test]
fn uuid_agrees_with_the_pattern() {
    let pattern = Regex::new(UUID_PATTERN).unwrap();
    for text in UUID_SAMPLES {
        assert_eq!(validate_uuid(&text.to_string()), pattern.is_match(text), "{:?}", text);
    }
}

#[test]
fn url_agrees_with_the_pattern() {
    let pattern = Regex::new(URL_PATTERN).unwrap();
    for entries in WHITELISTS {
        let whitelist: Vec<String> = entries.iter().map(|e| e.to_string()).collect();
        for text in URL_SAMPLES {
            assert_eq!(
                validate_url(&text.to_string(), &whitelist),
                expected_url(&pattern, text, &whitelist),
                "{:?} with {:?}",
                text,
                whitelist
            );
        }
    }
}

#[test]
fn url_agrees_with_the_pattern_on_every_short_text() {
    let pattern = Regex::new(URL_PATTERN).unwrap();
    let alphabet = ['a', 'Z', '7', '.', '-', ':', '/', '#', '&'];
    let whitelist = [".a7a".to_string(), ".aZ".to_string(), "..a".to_string()];
    let mut texts: Vec<String> = vec![String::new()];
    for _ in 0..5 {
        let mut longer = Vec::new();
        for text in &texts {
            for c in alphabet {
                let mut next = text.clone();
                next.push(c);
                longer.push(next);
            }
        }
        for text in &longer {
            assert_eq!(validate_url(text, &[]), pattern.is_match(text), "{:?}", text);
            assert_eq!(
                validate_url(text, &whitelist),
                expected_url(&pattern, text, &whitelist),
                "{:?}",
                text
            );
        }
        texts = longer;
    }
}
