use pup::matcher::MatchedLine;
use regex::Regex;

/// The range that the grammar gives when it is written as a regular
/// expression: the leftmost image link, its alt text as short as can be and
/// its path as short as can be.
fn by_regex(image: &Regex, line: &str) -> Option<(usize, usize)> {
    let path = image.captures(line)?.get(1)?;
    let (start, end) = (path.start(), path.end());
    if line[start..end].starts_with("https://") || line[start..end].is_empty() {
        None
    } else {
        Some((start, end))
    }
}

fn by_matcher(line: &str) -> Option<(usize, usize)> {
    let mut owned = String::from(line);
    let found = MatchedLine::new(&mut owned).map(|m| (m.range.start, m.range.end));
    assert_eq!(owned, line);
    found
}

fn pattern() -> Regex {
    Regex::new(r#"!\[.*?\]\((.*?)\)"#).unwrap()
}

/// Holds the matcher against the regular expression on every line of up
/// to `max_len` letters of `alphabet`; gives the numbers of lines and of matches.
fn compare_all(alphabet: &[char], max_len: u32) -> (u64, u64) {
    let image = pattern();
    let base = alphabet.len() as u64;
    let mut lines = 0u64;
    let mut matched = 0u64;
    let mut line = String::new();
    for len in 0..=max_len {
        for index in 0..base.pow(len) {
            line.clear();
            let mut rest = index;
            for _ in 0..len {
                line.push(alphabet[(rest % base) as usize]);
                rest /= base;
            }
            let expected = by_regex(&image, &line);
            assert_eq!(by_matcher(&line), expected, "{:?}", line);
            lines += 1;
            if expected.is_some() {
                matched += 1;
            }
        }
    }
    (lines, matched)
}

#[test]
fn agrees_with_regex_on_all_short_lines() {
    let (lines, matched) = compare_all(&['!', '[', ']', '(', ')', 'a', '\n', 'é'], 6);
    assert_eq!(lines, 1 + 8 + 64 + 512 + 4096 + 32768 + 262144);
    // At the least `![](a)` and `![](é)`.
    assert!(matched >= 2);
}

#[test]
fn agrees_with_regex_on_all_lines_of_marks() {
    let (lines, matched) = compare_all(&['!', '[', ']', '(', ')', 'a'], 7);
    assert_eq!(lines, 1 + 6 + 36 + 216 + 1296 + 7776 + 46656 + 279936);
    assert!(matched > 100);
}

#[test]
fn agrees_with_regex_on_longer_lines() {
    let image = pattern();
    let pieces = [
        "!", "[", "]", "(", ")", "![", "](", "\n", "a", "我", "https://", "https:/", " ", "\r", ".png",
        "![]", "()",
    ];
    let mut state: u64 = 0x9e37_79b9_7f4a_7c15;
    let mut matched = 0;
    for _ in 0..4000 {
        let mut line = String::new();
        state = state.wrapping_mul(6364136223846793005).wrapping_add(1442695040888963407);
        let n = 1 + (state >> 33) % 14;
        for _ in 0..n {
            state = state.wrapping_mul(6364136223846793005).wrapping_add(1442695040888963407);
            let k = ((state >> 33) % pieces.len() as u64) as usize;
            line.push_str(pieces[k]);
        }
        let expected = by_regex(&image, &line);
        assert_eq!(by_matcher(&line), expected, "{:?}", line);
        if expected.is_some() {
            matched += 1;
        }
    }
    assert!(matched > 100);
}

#[test]
fn agrees_with_regex_on_written_lines() {
    let image = pattern();
    for line in [
        "> ![title](/home/steve/doc.png)xx",
        "![]()",
        "![](/)",
        "![aaa[()",
        "> 我们不是![ppt](https://.....)xxxx这样",
        "![issustration](pic.png)",
        "![a](b) ![c](d)",
        "![a](b)) trailing)",
        "![a(b](c)",
        "![a]](b)",
        "![[a]](b)",
        "![a](b](c)",
        "!![a](b)",
        "![a](b\n)",
        "![a](b)\n![c](d)",
        "x\n![a](b)",
        "![a\n](b) then ![c](d)",
        "![a](https://x) ![c](d)",
        "![a]( https://x)",
        "![a](b) (https://x)",
    ] {
        assert_eq!(by_matcher(line), by_regex(&image, line), "{:?}", line);
    }
}
