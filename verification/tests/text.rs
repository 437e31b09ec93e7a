use okena::json::{parse_json, parse_json_bytes, parse_json_or_report, Json, JsonNumber};
use okena::path::{
    components, extension, file_name, file_stem, join_path, normalize_path, same_path, strip_base,
    Component,
};
use okena::text::{
    hex_string, join, less, lines, pad_right, parse_unsigned, replace, split, trim, trim_end, words,
};
use okena::text_map::TextMap;

fn texts(items: &[&str]) -> Vec<String> {
    items.iter().map(|s| s.to_string()).collect()
}

#[test]
fn splitting_and_joining_undo_each_other() {
    assert_eq!(split("a,b,,c", ","), ["a", "b", "", "c"]);
    assert_eq!(split("", ","), [""]);
    let parts = split("x--y--", "--");
    assert_eq!(parts, ["x", "y", ""]);
    assert_eq!(join(&parts, 0, 3, "--"), "x--y--");
    assert_eq!(replace("a/b/c", "/", "-"), "a-b-c");
}

#[test]
fn lines_are_those_of_the_standard_library() {
    for text in ["", "a", "a\n", "a\r\nb\r", "\n\n", "a\rb\n", "\r\n"] {
        assert_eq!(lines(text), text.lines().collect::<Vec<_>>(), "{:?}", text);
    }
}

#[test]
fn words_are_those_of_the_standard_library() {
    for text in ["", "  ", "a", " a  b\tc\n", "\u{2003}x\u{a0}y"] {
        assert_eq!(words(text), text.split_whitespace().collect::<Vec<_>>(), "{:?}", text);
    }
}

#[test]
fn trimming_is_that_of_the_standard_library() {
    for text in ["", " ", " a b ", "\u{2003}x\n", "x"] {
        assert_eq!(trim(text), text.trim(), "{:?}", text);
        assert_eq!(trim_end(text), text.trim_end(), "{:?}", text);
    }
}

#[test]
fn texts_are_ordered_as_strings_are() {
    let all = ["", "a", "ab", "b", "B", "\u{e9}", "\u{ffff}", "\u{10000}"];
    for a in all {
        for b in all {
            assert_eq!(less(a, b), a < b, "{:?} {:?}", a, b);
        }
    }
}

#[test]
fn numbers_are_read_as_the_standard_library_does() {
    for text in ["0", "7", "+7", "", "+", "-1", "007", "18446744073709551615", "1 ", "1_0"] {
        assert_eq!(parse_unsigned(text, u64::MAX), text.parse::<u64>().ok(), "{:?}", text);
        assert_eq!(
            parse_unsigned(text, 255),
            text.parse::<u8>().ok().map(u64::from),
            "{:?}",
            text
        );
    }
    assert_eq!(parse_unsigned("18446744073709551616", u64::MAX), None);
    assert_eq!(hex_string(&vec![0, 0xab, 0x9], 2), "00ab");
    assert_eq!(pad_right("ab", 4), "ab  ");
    assert_eq!(pad_right("abcde", 4), "abcde");
}

#[test]
fn paths_are_those_of_the_standard_library() {
    for text in ["", "/", "a", "a/", "/a//b/./c", "./a", "..", "a/..", "/a/.hidden", "x.tar.gz", "a."] {
        let path = std::path::Path::new(text);
        assert_eq!(file_name(text), path.file_name().map(|s| s.to_string_lossy().into_owned()), "{:?}", text);
        assert_eq!(extension(text), path.extension().map(|s| s.to_string_lossy().into_owned()), "{:?}", text);
        assert_eq!(file_stem(text), path.file_stem().map(|s| s.to_string_lossy().into_owned()), "{:?}", text);
        assert_eq!(components(text).len(), path.components().count(), "{:?}", text);
        for other in ["", "b", "/b", "b/../c"] {
            assert_eq!(
                join_path(text, other),
                path.join(other).to_string_lossy(),
                "{:?} {:?}",
                text,
                other
            );
        }
        for base in ["", "/", "a", "/a", "/a/b"] {
            assert_eq!(
                strip_base(text, base),
                path.strip_prefix(base).ok().map(|p| p.to_string_lossy().into_owned()),
                "{:?} {:?}",
                text,
                base
            );
            assert_eq!(same_path(text, base), path == std::path::Path::new(base));
        }
    }
    assert_eq!(components("/a"), [Component::Root, Component::Normal("a".to_string())]);
}

#[test]
fn normalizing_twice_changes_nothing() {
    for (text, normal) in [("/a/./b/../c", "/a/c"), ("a/../..", ""), ("/..", "/"), ("./x//y/", "x/y")] {
        assert_eq!(normalize_path(text), normal);
        assert_eq!(normalize_path(normal), normal);
    }
}

#[test]
fn documents_are_read_in_full() {
    let document = parse_json(r#"{"a":[1,-2,2.5,true,null,"x\n"]}"#).unwrap();
    let elements = document.get_array("a").unwrap();
    assert_eq!(elements[0].as_u64(), Some(1));
    assert_eq!(elements[1].as_i64(), Some(-2));
    assert_eq!(elements[1].as_u64(), None);
    assert_eq!(elements[2], Json::Number(JsonNumber::Float(2.5f64.to_bits())));
    assert_eq!(elements[3].as_bool(), Some(true));
    assert_eq!(elements[4], Json::Null);
    assert_eq!(elements[5].as_str(), Some("x\n"));
    assert_eq!(parse_json("{} {}"), None);
    let reason = serde_json::from_str::<serde_json::Value>("[1,").unwrap_err().to_string();
    assert_eq!(parse_json_or_report("[1,"), Err(reason));
    assert_eq!(parse_json_bytes(&b"\"a\"".to_vec()), Ok(Json::Text("a".to_string())));
    assert!(parse_json_bytes(&vec![b'"', 0xff, b'"']).is_err());
}

#[test]
fn documents_are_changed_member_by_member() {
    let document = parse_json(r#"{"a":1,"b":2}"#).unwrap();
    let changed = document.set("a", Json::Null).set("c", Json::Bool(true));
    assert_eq!(changed.get("a"), Some(&Json::Null));
    assert_eq!(changed.get("b").and_then(|v| v.as_u64()), Some(2));
    let (rest, taken) = changed.take("b");
    assert_eq!(taken.and_then(|v| v.as_u64()), Some(2));
    assert_eq!(rest.get("b"), Some(&Json::Null));
    assert_eq!(rest.get("c"), Some(&Json::Bool(true)));
    assert_eq!(Json::Null.set("a", Json::Null), Json::Null);
    assert_eq!(Json::Null.take("a"), (Json::Null, None));
}

#[test]
fn maps_remember_the_last_value() {
    let mut map = TextMap::new();
    map.insert("a", 1);
    map.insert("b", 2);
    map.insert("a", 3);
    assert_eq!(map.get("a"), Some(&3));
    assert!(map.contains_key("b"));
    let mut keys = map.keys();
    keys.sort();
    assert_eq!(keys, texts(&["a", "b"]));
    assert_eq!(map.remove("a"), Some(3));
    assert_eq!(map.remove("a"), None);
    map.clear();
    assert!(map.keys().is_empty());
}
