use discord_bots::mentions::{parse_config, Mentions};

const CONFIG: &str = "  orphan\n# a comment\n:smile:\n  hello\n\tbye+\n\n   # not a pattern\n:wave:\n  (unclosed\n  hi\n";

fn pair(a: &str, b: &str) -> (String, String) {
    (a.to_string(), b.to_string())
}

#[test]
fn config_rules_in_order() {
    assert_eq!(
        parse_config(CONFIG),
        vec![
            pair("hello", ":smile:"),
            pair("bye+", ":smile:"),
            pair("(unclosed", ":wave:"),
            pair("hi", ":wave:"),
        ]
    );
    assert!(parse_config("").is_empty());
    assert_eq!(parse_config(":a:\r\n  x\r\n"), vec![pair("x", ":a:")]);
}

#[test]
fn first_matching_rule_wins() {
    let mentions = Mentions::from_config(CONFIG);
    assert_eq!(mentions.first_match(b"well HELLO there"), Some(":smile:".to_string()));
    assert_eq!(mentions.first_match(b"byeee"), Some(":smile:".to_string()));
    assert_eq!(mentions.first_match(b"oh hi"), Some(":wave:".to_string()));
    assert_eq!(mentions.first_match(b"(unclosed"), None);
    assert_eq!(mentions.first_match(b"xyz"), None);
}
