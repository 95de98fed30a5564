use std::collections::BTreeMap;

use microclaw::chars::{str_eq, to_chars, trim_exec};
use microclaw::gateway::join_path;
use microclaw::lines::{split_lines, to_ascii_lower};
use microclaw::parse::{parse_i64, parse_usize};
use microclaw::service::ServiceEnv;
use microclaw::text::floor_char_boundary;

const SAMPLES: [&str; 24] = [
    "",
    " ",
    "a",
    " a ",
    "\t a b \n",
    "\u{00a0}x\u{3000}",
    "\u{feff}x",
    "a\nb",
    "a\nb\n",
    "a\r\nb\r\n",
    "a\rb",
    "a\r",
    "\n",
    "\n\n",
    "\r\n",
    "x\n\r\ny",
    "caf\u{00e9}",
    "\u{1F600}\u{1F600}",
    "0",
    "-0",
    "+12",
    "12a",
    "9223372036854775807",
    "-9223372036854775808",
];

#[test]
fn test_trim_agrees_with_std() {
    for s in SAMPLES {
        assert_eq!(trim_exec(s), s.trim(), "{s:?}");
    }
    let mut code = 0u32;
    while code < 0x3100 {
        if let Some(c) = char::from_u32(code) {
            let s = format!("{c}x{c}");
            assert_eq!(trim_exec(&s), s.trim(), "U+{code:04X}");
        }
        code += 1;
    }
}

#[test]
fn test_split_lines_agrees_with_std() {
    for s in SAMPLES {
        let expected: Vec<String> = s.lines().map(|l| l.to_string()).collect();
        assert_eq!(split_lines(s), expected, "{s:?}");
    }
}

#[test]
fn test_parse_agrees_with_std() {
    for s in SAMPLES {
        assert_eq!(parse_i64(s), s.parse::<i64>().ok(), "{s:?}");
        assert_eq!(parse_usize(s), s.parse::<usize>().ok(), "{s:?}");
    }
    for s in ["18446744073709551615", "18446744073709551616", "000", "+", "-", "++1", "1 ", "٣"] {
        assert_eq!(parse_i64(s), s.parse::<i64>().ok(), "{s:?}");
        assert_eq!(parse_usize(s), s.parse::<usize>().ok(), "{s:?}");
    }
}

#[test]
fn test_floor_char_boundary_agrees_with_std() {
    for s in SAMPLES {
        let mut index = 0;
        while index <= s.len() + 1 {
            let mut expected = index.min(s.len());
            while !s.is_char_boundary(expected) {
                expected -= 1;
            }
            assert_eq!(floor_char_boundary(s, index), expected, "{s:?} {index}");
            index += 1;
        }
    }
}

#[test]
fn test_to_chars_and_str_eq_agree_with_std() {
    for a in SAMPLES {
        assert_eq!(to_chars(a), a.chars().collect::<Vec<char>>());
        for b in SAMPLES {
            assert_eq!(str_eq(a, b), a == b);
        }
    }
}

#[test]
fn test_to_ascii_lower_agrees_with_std() {
    for s in ["Running", "ABC xyz", "\u{00c9}COLE", "K\u{212a}", ""] {
        assert_eq!(to_ascii_lower(s), s.to_ascii_lowercase().chars().collect::<Vec<char>>());
    }
}

#[test]
fn test_join_path_agrees_with_std() {
    for dir in ["", "/", "/a", "/a/", "a", "a/b", "./x"] {
        for file in ["f", "logs", "x.md"] {
            let expected = std::path::Path::new(dir).join(file).to_string_lossy().to_string();
            assert_eq!(join_path(dir, file), expected, "{dir:?} {file:?}");
        }
    }
}

#[test]
fn test_service_env_order_agrees_with_btree_map() {
    let keys = ["b", "a", "ab", "", "B", "\u{00e9}", "z", "a", "\u{1F600}", "aa", "b"];
    let mut env = ServiceEnv::new();
    let mut map = BTreeMap::new();
    for (i, key) in keys.iter().enumerate() {
        env.insert(key, &i.to_string());
        map.insert(key.to_string(), i.to_string());
    }
    let ours: Vec<(String, String)> = (0..env.len())
        .filter_map(|i| env.entry(i))
        .map(|(k, v)| (k.to_string(), v.to_string()))
        .collect();
    let theirs: Vec<(String, String)> = map.into_iter().collect();
    assert_eq!(ours, theirs);
}
