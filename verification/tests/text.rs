use pelagos_tui::order::{is_le, sort};
use pelagos_tui::text::{
    contains, is_whitespace, join, lines, split_once, split_whitespace, str_eq, strip_prefix,
    trim, trim_end_of,
};

const SAMPLES: [&str; 16] = [
    "",
    " ",
    "a",
    " a ",
    "a b",
    "\t a \u{2009}b\u{a0}c \r\n",
    "a\nb",
    "a\r\nb\r\n",
    "a\rb\n\n",
    "\n",
    "a\r",
    "\r\n\r\n",
    "k = v",
    "k=v=w",
    "größe = \u{1f600} ",
    "no container named x",
];

#[test]
fn whitespace_is_that_of_unicode() {
    for u in 0..=0x10ffffu32 {
        if let Some(c) = char::from_u32(u) {
            assert_eq!(is_whitespace(c), c.is_whitespace(), "{:x}", u);
        }
    }
}

#[test]
fn text_functions_agree_with_std() {
    for s in SAMPLES {
        assert_eq!(trim(s), s.trim());
        assert_eq!(trim_end_of(s, '\n'), s.trim_end_matches('\n'));
        assert_eq!(lines(s), s.lines().collect::<Vec<_>>());
        assert_eq!(split_whitespace(s), s.split_whitespace().collect::<Vec<_>>());
        assert_eq!(split_once(s, '='), s.split_once('='));
        for t in SAMPLES {
            assert_eq!(contains(s, t), s.contains(t));
            assert_eq!(strip_prefix(s, t), s.strip_prefix(t));
            assert_eq!(str_eq(s, t), s == t);
            assert_eq!(is_le(s, t), s <= t);
            let pair = vec![s.to_string(), t.to_string()];
            assert_eq!(join(&pair, "; "), pair.join("; "));
        }
    }
    assert_eq!(join(&Vec::new(), "; "), "");
    assert_eq!(join(&vec!["x".to_string()], "; "), "x");
}

#[test]
fn sorting_agrees_with_std() {
    let v: Vec<String> = SAMPLES.iter().map(|s| s.to_string()).collect();
    let mut expected = v.clone();
    expected.sort();
    assert_eq!(sort(&v), expected);
    assert_eq!(
        sort(&vec!["b".to_string(), "".to_string(), "a".to_string(), "b".to_string()]),
        vec!["", "a", "b", "b"]
    );
}
