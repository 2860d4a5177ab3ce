use afkttv::text::{
    begins_with, contains, find, find_from, matches_at, piece_of, same_text, split_lines,
    split_text, to_chars, trim, trim_end,
};

fn chars(s: &str) -> Vec<char> {
    s.chars().collect()
}

fn texts(items: &[&str]) -> Vec<String> {
    items.iter().map(|s| s.to_string()).collect()
}

#[test]
fn characters_of_a_text() {
    assert_eq!(to_chars(""), Vec::<char>::new());
    assert_eq!(to_chars("aé€"), vec!['a', 'é', '€']);
}

#[test]
fn occurrence_at_a_position() {
    let text = chars("abcabc");
    assert!(matches_at(&text, &chars("abc"), 0));
    assert!(matches_at(&text, &chars("abc"), 3));
    assert!(!matches_at(&text, &chars("abc"), 1));
    assert!(!matches_at(&text, &chars("abc"), 4));
    assert!(matches_at(&text, &chars(""), 6));
    assert!(!matches_at(&text, &chars(""), 7));
    assert!(!matches_at(&chars("ab"), &chars("abc"), 0));
}

#[test]
fn prefix_of_a_text() {
    assert!(begins_with(&chars("PING :x"), &chars("PING")));
    assert!(!begins_with(&chars("PIN"), &chars("PING")));
    assert!(begins_with(&chars("abc"), &chars("")));
    assert!(begins_with(&chars("abc"), &chars("abc")));
    assert!(!begins_with(&chars("abc"), &chars("abcd")));
    assert!(!begins_with(&chars("xabc"), &chars("abc")));
}

#[test]
fn first_occurrence_in_a_text() {
    let text = chars("a--b--c");
    let mark = chars("--");
    assert_eq!(find(&text, &mark), Some(1));
    assert_eq!(find_from(&text, &mark, 1), Some(1));
    assert_eq!(find_from(&text, &mark, 2), Some(4));
    assert_eq!(find_from(&text, &mark, 5), None);
    assert_eq!(find_from(&text, &mark, 100), None);
    assert_eq!(find(&text, &chars("x")), None);
    assert_eq!(find(&text, &chars("")), Some(0));
    assert_eq!(find(&chars(""), &chars("")), Some(0));
    assert_eq!(find(&chars(""), &chars("a")), None);
    assert_eq!(find(&chars("aab"), &chars("ab")), Some(1));
}

#[test]
fn occurrence_somewhere() {
    assert!(contains("PASS oauth:abc", "oauth:"));
    assert!(!contains("PASS oauth", "oauth:"));
    assert!(contains("abc", ""));
    assert!(same_text("abc", "abc"));
    assert!(!same_text("abc", "abd"));
    assert!(!same_text("abc", "ab"));
    assert!(!same_text("ab", "abc"));
    assert!(same_text("", ""));
}

#[test]
fn pieces_of_a_text() {
    assert_eq!(piece_of("héllo", 1, 3), "él");
    assert_eq!(piece_of("héllo", 0, 5), "héllo");
    assert_eq!(piece_of("héllo", 2, 2), "");
}

#[test]
fn split_at_a_separator() {
    assert_eq!(split_text("a\r\nb", "\r\n"), texts(&["a", "b"]));
    assert_eq!(split_text("a\r\n\r\nb\r\n", "\r\n"), texts(&["a", "", "b", ""]));
    assert_eq!(split_text("", "\r\n"), texts(&[""]));
    assert_eq!(split_text("\r\n", "\r\n"), texts(&["", ""]));
    assert_eq!(split_text("abc", ""), texts(&["abc"]));
    assert_eq!(split_text("aaa", "aa"), texts(&["", "a"]));
    assert_eq!(split_text("a\rb\nc", "\r\n"), texts(&["a\rb\nc"]));
    for sample in ["", "x", "a\r\nb", "\r\n\r\n", "\r\r\n\n", "é\r\nü\r\n"] {
        let expected: Vec<String> = sample.split("\r\n").map(|s| s.to_string()).collect();
        assert_eq!(split_text(sample, "\r\n"), expected);
    }
}

#[test]
fn lines_of_a_frame() {
    assert_eq!(split_lines("a\r\nb\r\n"), texts(&["a", "b"]));
    assert_eq!(split_lines("\r\n\r\na\r\n\r\n\r\nb"), texts(&["a", "b"]));
    assert_eq!(split_lines(""), Vec::<String>::new());
    assert_eq!(split_lines("\r\n"), Vec::<String>::new());
    assert_eq!(split_lines("one line"), texts(&["one line"]));
    assert_eq!(split_lines("a\nb\r\nc\rd"), texts(&["a\nb", "c\rd"]));
    assert_eq!(split_lines(" \r\n"), texts(&[" "]));
}

#[test]
fn white_space_at_the_ends() {
    assert_eq!(trim_end("token\r\n"), "token");
    assert_eq!(trim_end("  a b \t\n"), "  a b");
    assert_eq!(trim_end(" \n "), "");
    assert_eq!(trim_end(""), "");
    assert_eq!(trim_end("a\u{3000}\u{a0}"), "a");
    assert_eq!(trim("  a b \t\n"), "a b");
    assert_eq!(trim("\r\n"), "");
    assert_eq!(trim("x"), "x");
    assert_eq!(trim("\u{2003}x y\u{2003}"), "x y");
    for sample in ["", " ", "a ", " a", " a b ", "\u{85}a\u{85}", "a\u{200b}"] {
        assert_eq!(trim(sample), sample.trim());
        assert_eq!(trim_end(sample), sample.trim_end());
    }
}

#[test]
fn white_space_is_what_the_list_says() {
    let listed = |c: char| {
        c == ' '
            || ('\t'..='\r').contains(&c)
            || c == '\u{85}'
            || c == '\u{a0}'
            || c == '\u{1680}'
            || ('\u{2000}'..='\u{200a}').contains(&c)
            || c == '\u{2028}'
            || c == '\u{2029}'
            || c == '\u{202f}'
            || c == '\u{205f}'
            || c == '\u{3000}'
    };
    let mut buffer = String::new();
    for code in 0..=0x10ffffu32 {
        if let Some(c) = char::from_u32(code) {
            buffer.clear();
            buffer.push(c);
            assert_eq!(trim_end(&buffer).is_empty(), listed(c), "U+{:04X}", code);
        }
    }
}
