use mini_redis_rs::parser::{
    extract_get, extract_ping_with_value, extract_set, extract_subscribe, is_exit, is_get,
    is_ping, is_ping_value, is_set, is_subscribe, is_unsubscribe,
    parse_non_subscription_command, parse_non_subscription_text, parse_subscription_command,
    parse_subscription_text, trim, NonSubscriptionCmdType, SubscriptionCmdType,
};
use regex::Regex;

#[test]
fn test_parse_exit() {
    let cmd = "exit".as_bytes().to_vec();
    let cmd_type = parse_non_subscription_command(cmd);
    assert_eq!(cmd_type, NonSubscriptionCmdType::Exit);
}

#[test]
fn test_parse_ping() {
    let cmd = "ping".as_bytes().to_vec();
    let cmd_type = parse_non_subscription_command(cmd);
    assert_eq!(cmd_type, NonSubscriptionCmdType::Ping);
}

#[test]
fn test_parse_ping_value() {
    let cmd = "ping xxx".as_bytes().to_vec();
    let cmd_type = parse_non_subscription_command(cmd);
    assert_eq!(
        cmd_type,
        NonSubscriptionCmdType::PingValue("xxx".as_bytes().to_vec())
    );
}

#[test]
fn test_parse_get() {
    let cmd = "get a".as_bytes().to_vec();
    let cmd_type = parse_non_subscription_command(cmd);
    assert_eq!(cmd_type, NonSubscriptionCmdType::Get("a".to_owned()));
}

#[test]
fn test_parse_set() {
    let cmd = "set a a".as_bytes().to_vec();
    let cmd_type = parse_non_subscription_command(cmd);
    assert_eq!(
        cmd_type,
        NonSubscriptionCmdType::SetValue("a".to_owned(), "a".as_bytes().to_vec())
    );
}

#[test]
fn test_parse_subscribe() {
    let cmd = "subscribe topic1".as_bytes().to_vec();
    let cmd_type = parse_non_subscription_command(cmd);
    assert_eq!(
        cmd_type,
        NonSubscriptionCmdType::Subscribe("topic1".to_owned())
    );
}

#[test]
fn test_parse_other() {
    let cmd = "xxx".as_bytes().to_vec();
    let cmd_type = parse_non_subscription_command(cmd);
    assert_eq!(cmd_type, NonSubscriptionCmdType::Other);
}

#[test]
fn test_parse_unsubscribe() {
    let cmd = "unsubscribe".as_bytes().to_vec();
    let cmd_type = parse_subscription_command(cmd);
    assert_eq!(cmd_type, SubscriptionCmdType::Unsubscribe);
}

#[test]
fn test_parse_publish() {
    let cmd = "hello 123".as_bytes().to_vec();
    let cmd_type = parse_subscription_command(cmd);
    assert_eq!(
        cmd_type,
        SubscriptionCmdType::Publish("hello 123".as_bytes().to_vec())
    );
}

fn parse(text: &str) -> NonSubscriptionCmdType {
    parse_non_subscription_command(text.as_bytes().to_vec())
}

fn set(key: &str, value: &str) -> NonSubscriptionCmdType {
    NonSubscriptionCmdType::SetValue(key.to_owned(), value.as_bytes().to_vec())
}

fn ping_value(value: &str) -> NonSubscriptionCmdType {
    NonSubscriptionCmdType::PingValue(value.as_bytes().to_vec())
}

#[test]
fn keywords_are_taken_in_any_case() {
    assert_eq!(parse("EXIT"), NonSubscriptionCmdType::Exit);
    assert_eq!(parse("Exit"), NonSubscriptionCmdType::Exit);
    assert_eq!(parse("PING"), NonSubscriptionCmdType::Ping);
    assert_eq!(parse("pInG"), NonSubscriptionCmdType::Ping);
    assert_eq!(parse("PING Hello"), ping_value("Hello"));
    assert_eq!(parse("GET Key1"), NonSubscriptionCmdType::Get("Key1".to_owned()));
    assert_eq!(parse("Set Key1 Some Value"), set("Key1", "Some Value"));
    assert_eq!(
        parse("SUBSCRIBE TopicA"),
        NonSubscriptionCmdType::Subscribe("TopicA".to_owned())
    );
}

#[test]
fn arguments_keep_their_case() {
    assert_eq!(parse("get aBc"), NonSubscriptionCmdType::Get("aBc".to_owned()));
    assert_eq!(parse("set aBc DeF"), set("aBc", "DeF"));
    assert_eq!(parse("ping AbC"), ping_value("AbC"));
}

#[test]
fn the_long_s_stands_for_s_in_a_keyword() {
    assert_eq!(parse("\u{17f}et a b"), set("a", "b"));
    assert_eq!(
        parse("\u{17f}ub\u{17f}cribe t1"),
        NonSubscriptionCmdType::Subscribe("t1".to_owned())
    );
    assert_eq!(parse("get \u{17f}"), NonSubscriptionCmdType::Other);
}

#[test]
fn input_is_trimmed_of_white_space() {
    assert_eq!(parse("  ping  "), NonSubscriptionCmdType::Ping);
    assert_eq!(parse("exit\r\n"), NonSubscriptionCmdType::Exit);
    assert_eq!(parse("\t get a \n"), NonSubscriptionCmdType::Get("a".to_owned()));
    assert_eq!(parse("ping hello world\n"), ping_value("hello world"));
    assert_eq!(parse("ping "), NonSubscriptionCmdType::Ping);
    assert_eq!(parse("\u{a0}\u{2003}ping\u{3000}\u{85}"), NonSubscriptionCmdType::Ping);
    assert_eq!(parse(""), NonSubscriptionCmdType::Other);
    assert_eq!(parse("   "), NonSubscriptionCmdType::Other);
}

#[test]
fn trim_takes_white_space_from_both_ends_only() {
    assert_eq!(trim("  a b  "), "a b");
    assert_eq!(trim("a"), "a");
    assert_eq!(trim(""), "");
    assert_eq!(trim(" \t\r\n"), "");
    assert_eq!(trim("\u{2028}x\u{2029}"), "x");
    assert_eq!(trim("\u{200b}x"), "\u{200b}x");
    assert_eq!(trim("\u{1680}\u{202f}\u{205f}né\u{2000}\u{200a}"), "né");
}

#[test]
fn the_value_of_ping_is_all_after_the_first_space() {
    assert_eq!(parse("ping hello world"), ping_value("hello world"));
    assert_eq!(parse("ping  x"), ping_value(" x"));
    assert_eq!(parse("ping ünï"), ping_value("ünï"));
    assert_eq!(parse("pingx"), NonSubscriptionCmdType::Other);
    assert_eq!(parse("ping\tx"), NonSubscriptionCmdType::Other);
}

#[test]
fn a_value_stays_on_one_line() {
    assert_eq!(parse("ping a\nb"), NonSubscriptionCmdType::Other);
    assert_eq!(parse("set a b\nc"), NonSubscriptionCmdType::Other);
    assert_eq!(parse("ping a\rb"), ping_value("a\rb"));
}

#[test]
fn a_key_is_letters_and_digits() {
    assert_eq!(parse("get abc123"), NonSubscriptionCmdType::Get("abc123".to_owned()));
    assert_eq!(parse("get"), NonSubscriptionCmdType::Other);
    assert_eq!(parse("get a b"), NonSubscriptionCmdType::Other);
    assert_eq!(parse("get a-b"), NonSubscriptionCmdType::Other);
    assert_eq!(parse("get  a"), NonSubscriptionCmdType::Other);
    assert_eq!(parse("get é"), NonSubscriptionCmdType::Other);
    assert_eq!(parse("subscribe a b"), NonSubscriptionCmdType::Other);
    assert_eq!(parse("subscribe"), NonSubscriptionCmdType::Other);
    assert_eq!(parse("subscribe topic_a"), NonSubscriptionCmdType::Other);
}

#[test]
fn set_takes_a_key_and_the_rest_of_the_line() {
    assert_eq!(parse("set a hello world"), set("a", "hello world"));
    assert_eq!(parse("set ab cd ef"), set("ab", "cd ef"));
    assert_eq!(parse("set a  b"), set("a", " b"));
    assert_eq!(parse("set a"), NonSubscriptionCmdType::Other);
    assert_eq!(parse("set a "), NonSubscriptionCmdType::Other);
    assert_eq!(parse("set  a b"), NonSubscriptionCmdType::Other);
    assert_eq!(parse("set a-b c"), NonSubscriptionCmdType::Other);
    assert_eq!(parse("set"), NonSubscriptionCmdType::Other);
}

#[test]
fn the_first_form_that_fits_decides() {
    assert_eq!(parse("ping"), NonSubscriptionCmdType::Ping);
    assert_eq!(parse("ping ping"), ping_value("ping"));
    assert_eq!(parse("exit now"), NonSubscriptionCmdType::Other);
    assert_eq!(parse("unsubscribe"), NonSubscriptionCmdType::Other);
}

#[test]
fn what_is_not_utf8_is_replaced() {
    let cmd = parse_non_subscription_command(vec![112, 105, 110, 103, 32, 0xff, 97]);
    assert_eq!(cmd, ping_value("\u{fffd}a"));
    let cmd = parse_non_subscription_command(vec![103, 101, 116, 32, 0xff]);
    assert_eq!(cmd, NonSubscriptionCmdType::Other);
}

#[test]
fn text_and_bytes_are_parsed_alike() {
    for text in ["ping", " get a ", "set k v w", "subscribe t", "nonsense", "EXIT"] {
        assert_eq!(
            parse_non_subscription_text(text),
            parse_non_subscription_command(text.as_bytes().to_vec())
        );
    }
}

#[test]
fn with_a_subscription_only_unsubscribe_is_a_command() {
    let publish = |text: &str| SubscriptionCmdType::Publish(text.as_bytes().to_vec());
    let parse = |text: &str| parse_subscription_command(text.as_bytes().to_vec());
    assert_eq!(parse("unsubscribe"), SubscriptionCmdType::Unsubscribe);
    assert_eq!(parse("  unsubscribe\r\n"), SubscriptionCmdType::Unsubscribe);
    assert_eq!(parse("UNSUBSCRIBE"), publish("UNSUBSCRIBE"));
    assert_eq!(parse("Unsubscribe"), publish("Unsubscribe"));
    assert_eq!(parse("unsubscribe now"), publish("unsubscribe now"));
    assert_eq!(parse("ping"), publish("ping"));
    assert_eq!(parse("get a"), publish("get a"));
    assert_eq!(parse("exit"), publish("exit"));
    assert_eq!(parse(""), publish(""));
}

#[test]
fn a_message_is_published_as_it_came() {
    assert_eq!(
        parse_subscription_command("  hello there \n".as_bytes().to_vec()),
        SubscriptionCmdType::Publish("  hello there \n".as_bytes().to_vec())
    );
    assert_eq!(
        parse_subscription_command(vec![0xff, 0xfe, 10]),
        SubscriptionCmdType::Publish(vec![0xff, 0xfe, 10])
    );
    assert_eq!(
        parse_subscription_text("ignored", vec![1, 2, 3]),
        SubscriptionCmdType::Publish(vec![1, 2, 3])
    );
    assert_eq!(
        parse_subscription_text(" unsubscribe ", vec![1, 2, 3]),
        SubscriptionCmdType::Unsubscribe
    );
}

#[test]
fn the_single_forms_are_told_apart() {
    assert!(is_exit("exit"));
    assert!(!is_exit("exit "));
    assert!(is_ping("ping"));
    assert!(!is_ping("ping x"));
    assert!(is_ping_value("ping x"));
    assert!(!is_ping_value("ping"));
    assert!(is_get("get a"));
    assert!(!is_get("get"));
    assert!(is_set("set a b"));
    assert!(!is_set("set a"));
    assert!(is_subscribe("subscribe t"));
    assert!(!is_subscribe("subscribe"));
    assert!(is_unsubscribe("unsubscribe"));
    assert!(!is_unsubscribe("Unsubscribe"));
    assert!(!is_unsubscribe("unsubscribe "));
}

#[test]
fn the_arguments_are_taken_out() {
    assert_eq!(extract_ping_with_value("ping a b"), Some("a b".as_bytes().to_vec()));
    assert_eq!(extract_ping_with_value("ping"), None);
    assert_eq!(extract_ping_with_value("pong a"), None);
    assert_eq!(extract_get("get key9"), "key9");
    assert_eq!(extract_get("GeT key9"), "key9");
    assert_eq!(extract_set("set k v w"), ("k", "v w".as_bytes().to_vec()));
    assert_eq!(extract_set("set key ü"), ("key", "ü".as_bytes().to_vec()));
    assert_eq!(extract_subscribe("subscribe topicA"), "topicA");
}

const PING_VALUE_REGEX: &str = "^(?i)ping(?-i) (.+)$";
const GET_REGEX: &str = "^(?i)get(?-i) ([a-zA-Z0-9]+)$";
const SET_REGEX: &str = "^(?i)set(?-i) ([a-zA-Z0-9]+) (.+)$";
const SUBSCRIBE_REGEX: &str = "^(?i)subscribe(?-i) ([a-zA-Z0-9]+)$";

fn groups(pattern: &str, line: &str) -> Option<Vec<String>> {
    Regex::new(pattern).unwrap().captures(line).map(|c| {
        c.iter()
            .skip(1)
            .map(|m| m.unwrap().as_str().to_owned())
            .collect()
    })
}

fn lines() -> Vec<String> {
    let keywords = [
        "ping", "PING", "Ping", "get", "GET", "gEt", "set", "SET", "\u{17f}et", "\u{17f}ET",
        "subscribe", "SUBSCRIBE", "\u{17f}ub\u{17f}cribe", "Sub\u{17f}cribe", "subscribd",
        "pin", "ge", "sett", "\u{212a}", "p\u{131}ng", "p\u{130}ng", "",
    ];
    let seps = [" ", "  ", "", "\t", "\n", "\u{a0}"];
    let args = [
        "a", "abc", "ABC123", "a b", "a  b", "a b c", "a\nb", "a b\nc", "a\rb", "a-b", "a_b c",
        "é", "a é", "", " ", " a", "a ", "0", "k v\t", "k\u{a0}v", "k \n", "\n", "k \u{0}",
        "z\u{17f} v", "Z9 \u{1f600}",
    ];
    let mut lines = Vec::new();
    for keyword in keywords {
        for sep in seps {
            for arg in args {
                lines.push(format!("{}{}{}", keyword, sep, arg));
            }
        }
    }
    lines
}

#[test]
fn ping_with_a_value_is_what_its_pattern_matches() {
    for line in lines() {
        let expected = groups(PING_VALUE_REGEX, &line);
        assert_eq!(is_ping_value(&line), expected.is_some(), "{:?}", line);
        assert_eq!(
            extract_ping_with_value(&line),
            expected.map(|g| g[0].clone().into_bytes()),
            "{:?}",
            line
        );
    }
}

#[test]
fn get_is_what_its_pattern_matches() {
    for line in lines() {
        let expected = groups(GET_REGEX, &line);
        assert_eq!(is_get(&line), expected.is_some(), "{:?}", line);
        if let Some(found) = expected {
            assert_eq!(extract_get(&line), found[0], "{:?}", line);
        }
    }
}

#[test]
fn set_is_what_its_pattern_matches() {
    for line in lines() {
        let expected = groups(SET_REGEX, &line);
        assert_eq!(is_set(&line), expected.is_some(), "{:?}", line);
        if let Some(found) = expected {
            let (key, value) = extract_set(&line);
            assert_eq!(key, found[0], "{:?}", line);
            assert_eq!(value, found[1].clone().into_bytes(), "{:?}", line);
        }
    }
}

#[test]
fn subscribe_is_what_its_pattern_matches() {
    for line in lines() {
        let expected = groups(SUBSCRIBE_REGEX, &line);
        assert_eq!(is_subscribe(&line), expected.is_some(), "{:?}", line);
        if let Some(found) = expected {
            assert_eq!(extract_subscribe(&line), found[0], "{:?}", line);
        }
    }
}

#[test]
fn trim_is_what_the_standard_library_trims() {
    for line in lines() {
        for padded in [format!(" {}\r\n", line), format!("\u{2003}{}\u{85}", line), line] {
            assert_eq!(trim(&padded), padded.trim(), "{:?}", padded);
        }
    }
    for code in 0..0x3100u32 {
        if let Some(c) = char::from_u32(code) {
            let padded = format!("{}x{}", c, c);
            assert_eq!(trim(&padded), padded.trim(), "{:?}", padded);
        }
    }
}
