use chat_ingest::number::parse_i32;
use chat_ingest::pattern::group;
use chat_ingest::tag_map::TagMap;
use chat_ingest::text::{chars_of, find, slice, split, trim_end, unescape};

fn chars(s: &str) -> Vec<char> {
    s.chars().collect()
}

fn text(v: &Vec<char>) -> String {
    v.iter().collect()
}

fn split_text(s: &str, sep: char) -> Vec<String> {
    split(&chars(s), sep).iter().map(text).collect()
}

#[test]
fn chars_of_lists_every_character() {
    assert_eq!(chars_of(""), Vec::<char>::new());
    assert_eq!(chars_of("a=b"), vec!['a', '=', 'b']);
    assert_eq!(chars_of("h\u{e9}\u{1F600}"), vec!['h', '\u{e9}', '\u{1F600}']);
}

#[test]
fn find_gives_first_position() {
    assert_eq!(find(&chars("a=b=c"), '='), Some(1));
    assert_eq!(find(&chars("=x"), '='), Some(0));
    assert_eq!(find(&chars("abc"), '='), None);
    assert_eq!(find(&chars(""), '='), None);
}

#[test]
fn slice_copies_the_range() {
    let s = chars("hello");
    assert_eq!(text(&slice(&s, 1, 3)), "el");
    assert_eq!(text(&slice(&s, 0, 5)), "hello");
    assert_eq!(text(&slice(&s, 2, 2)), "");
    assert_eq!(text(&slice(&s, 5, 5)), "");
}

#[test]
fn split_agrees_with_std_split() {
    for s in ["", ";", "a", "a;b", "a;;b", ";a;", "k=v;k2=v2;k3=", ";;;"] {
        let expected: Vec<String> = s.split(';').map(|p| p.to_string()).collect();
        assert_eq!(split_text(s, ';'), expected, "splitting {:?}", s);
    }
    assert_eq!(split_text("", ';'), vec![String::new()]);
    assert_eq!(split_text("a;b", ';'), vec!["a".to_string(), "b".to_string()]);
}

#[test]
fn unescape_agrees_with_std_replace() {
    for s in ["", "\\s", "a\\sb", "\\\\s", "\\s\\s", "\\", "s\\", "\\ss", "\\n\\s", "no escapes", "\\\\\\s"] {
        let expected = s.replace("\\s", " ");
        assert_eq!(text(&unescape(&chars(s))), expected, "unescaping {:?}", s);
    }
    assert_eq!(text(&unescape(&chars("hi\\sthere"))), "hi there");
}

#[test]
fn trim_end_agrees_with_std_trim_end_matches() {
    for s in ["", "\r", "\r\r", "a", "a\r", "a\r\r", "a\rb", "a\rb\r", "\ra", "\ra\r", "x\ry\r", "ab\n\r"] {
        let expected = s.trim_end_matches('\r');
        assert_eq!(text(&trim_end(&chars(s), '\r')), expected, "trimming {:?}", s);
    }
    assert_eq!(text(&trim_end(&chars("x\ry\r"), '\r')), "x\ry");
    assert_eq!(text(&trim_end(&chars("\r\r"), '\r')), "");
    assert_eq!(text(&trim_end(&chars("abc"), '\r')), "abc");
}

#[test]
fn parse_i32_agrees_with_std_parse() {
    let cases = [
        "", "0", "1", "-1", "+1", "-", "+", "--1", "+-1", "-+1", "007", "-007", "+0", "-0",
        "2147483647", "2147483648", "-2147483648", "-2147483649", "+2147483647", "+2147483648",
        "99999999999999999999999999", "-99999999999999999999999999", "12a", "a12", "1 2", " 1",
        "1 ", "1.0", "0x10", "1_000", "\u{661}", "1-", "1+", "00000000000000000000000000012",
    ];
    for s in cases {
        let expected: Option<i32> = s.parse::<i32>().ok();
        assert_eq!(parse_i32(&chars(s)), expected, "parsing {:?}", s);
    }
    assert_eq!(parse_i32(&chars("42")), Some(42));
    assert_eq!(parse_i32(&chars("-2147483648")), Some(i32::MIN));
    assert_eq!(parse_i32(&chars("2147483647")), Some(i32::MAX));
    assert_eq!(parse_i32(&chars("2147483648")), None);
}

#[test]
fn group_copies_out_a_capture() {
    let caps = Some(vec![Some("whole".to_string()), None, Some("x".to_string())]);
    assert_eq!(group(&caps, 0), Some("whole".to_string()));
    assert_eq!(group(&caps, 1), None);
    assert_eq!(group(&caps, 2), Some("x".to_string()));
    assert_eq!(group(&caps, 3), None);
    assert_eq!(group(&None, 0), None);
}

#[test]
fn tag_map_insert_and_get() {
    let mut map = TagMap::new();
    assert_eq!(map.len(), 0);
    assert!(map.get("a").is_none());
    map.insert("a".to_string(), "1".to_string());
    map.insert("b".to_string(), "2".to_string());
    assert_eq!(map.len(), 2);
    assert_eq!(map.get("a").unwrap(), "1");
    assert_eq!(map.get("b").unwrap(), "2");
    map.insert("a".to_string(), "3".to_string());
    assert_eq!(map.len(), 2);
    assert_eq!(map.get("a").unwrap(), "3");
    assert_eq!(map.get("b").unwrap(), "2");
    assert!(map.get("").is_none());
}

#[test]
fn tag_map_json_is_ordered_and_escaped() {
    let mut map = TagMap::new();
    assert_eq!(map.to_json(), "{}");
    map.insert("b".to_string(), "2".to_string());
    map.insert("a".to_string(), "say \"hi\"".to_string());
    assert_eq!(map.to_json(), "{\"a\":\"say \\\"hi\\\"\",\"b\":\"2\"}");
}
