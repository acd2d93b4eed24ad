use cohoard::parse_posts;
use cohoard::ChatlogBlock;
use cohoard::Config;
use cohoard::User;

fn empty_config() -> Config {
    Config { people: Vec::new() }
}

fn user_of(entries: &[(&str, &str)]) -> User {
    User {
        fields: entries.iter().map(|(k, v)| (k.to_string(), v.to_string())).collect(),
    }
}

fn field<'a>(user: &'a User, name: &str) -> &'a str {
    user.fields
        .iter()
        .find(|(k, _)| k == name)
        .map(|(_, v)| v.as_str())
        .expect("field missing")
}

#[test]
fn blank_lines_parse_to_nothing() {
    let config = empty_config();
    let blocks = parse_posts(&config, "\n   \n\t\n\n".to_string());
    assert!(blocks.is_empty());
}

#[test]
fn empty_input_parses_to_nothing() {
    let config = empty_config();
    let blocks = parse_posts(&config, String::new());
    assert!(blocks.is_empty());
}

#[test]
fn timestamp_line_yields_one_timestamp_block() {
    let config = empty_config();
    let blocks = parse_posts(&config, "@ Today".to_string());
    assert_eq!(blocks.len(), 1);
    match &blocks[0] {
        ChatlogBlock::Timestamp { message } => assert_eq!(message, "Today"),
        other => panic!("expected a timestamp block, got {:?}", other),
    }
}

#[test]
fn empty_timestamp_still_emits_a_block() {
    let config = empty_config();
    let blocks = parse_posts(&config, "@".to_string());
    assert_eq!(blocks.len(), 1);
    match &blocks[0] {
        ChatlogBlock::Timestamp { message } => assert_eq!(message, ""),
        other => panic!("expected a timestamp block, got {:?}", other),
    }
}

#[test]
fn repeated_speaker_lines_make_separate_posts() {
    let config = empty_config();
    let blocks = parse_posts(&config, "A: Hello!\nA: Hi!\n".to_string());
    assert_eq!(blocks.len(), 2);
    match &blocks[0] {
        ChatlogBlock::Post { user, message } => {
            assert_eq!(message, "Hello!\n");
            assert_eq!(field(user, "name"), "A");
            assert_eq!(field(user, "key"), "A");
        }
        other => panic!("expected a post block, got {:?}", other),
    }
    match &blocks[1] {
        ChatlogBlock::Post { message, .. } => assert_eq!(message, "Hi!\n"),
        other => panic!("expected a post block, got {:?}", other),
    }
}

#[test]
fn continuation_line_merges_into_open_post() {
    let config = empty_config();
    let blocks = parse_posts(&config, "A: Hello\nworld\n".to_string());
    assert_eq!(blocks.len(), 1);
    match &blocks[0] {
        ChatlogBlock::Post { message, .. } => assert_eq!(message, "Hello\nworld\n"),
        other => panic!("expected a post block, got {:?}", other),
    }
}

#[test]
fn orphan_continuation_line_is_dropped() {
    let config = empty_config();
    let blocks = parse_posts(&config, "not a speaker line\n".to_string());
    assert!(blocks.is_empty());
}

#[test]
fn known_speaker_uses_stored_record() {
    let config = Config {
        people: vec![(
            "A".to_string(),
            user_of(&[("name", "Alice"), ("key", "A"), ("color", "#123456")]),
        )],
    };
    let blocks = parse_posts(&config, "A: hi\n".to_string());
    assert_eq!(blocks.len(), 1);
    match &blocks[0] {
        ChatlogBlock::Post { user, message } => {
            assert_eq!(message, "hi\n");
            assert_eq!(field(user, "name"), "Alice");
            assert_eq!(field(user, "color"), "#123456");
        }
        other => panic!("expected a post block, got {:?}", other),
    }
}

#[test]
fn timestamp_closes_open_post() {
    let config = empty_config();
    let blocks = parse_posts(&config, "A: x\n@ T\nA: y\n".to_string());
    assert_eq!(blocks.len(), 3);
    assert!(matches!(&blocks[0], ChatlogBlock::Post { .. }));
    assert!(matches!(&blocks[1], ChatlogBlock::Timestamp { .. }));
    assert!(matches!(&blocks[2], ChatlogBlock::Post { .. }));
}

#[test]
fn colon_without_space_is_not_a_speaker_line() {
    let config = empty_config();
    let blocks = parse_posts(&config, "A:x\n".to_string());
    assert!(blocks.is_empty());
}

#[test]
fn non_alphanumeric_token_is_not_a_speaker() {
    let config = empty_config();
    let blocks = parse_posts(&config, "A B: hi\n".to_string());
    assert!(blocks.is_empty());
}

#[test]
fn crlf_line_endings_are_handled() {
    let config = empty_config();
    let blocks = parse_posts(&config, "A: hi\r\nthere\r\n".to_string());
    assert_eq!(blocks.len(), 1);
    match &blocks[0] {
        ChatlogBlock::Post { message, .. } => assert_eq!(message, "hi\nthere\n"),
        other => panic!("expected a post block, got {:?}", other),
    }
}

#[test]
fn blank_line_does_not_close_a_post() {
    let config = empty_config();
    let blocks = parse_posts(&config, "A: one\n\n   \ntwo\n".to_string());
    assert_eq!(blocks.len(), 1);
    match &blocks[0] {
        ChatlogBlock::Post { message, .. } => assert_eq!(message, "one\ntwo\n"),
        other => panic!("expected a post block, got {:?}", other),
    }
}
