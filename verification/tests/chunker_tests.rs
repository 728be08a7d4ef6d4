use rag_rust::indexing::chunker::{char_is_whitespace, chunk_text, text_is_blank};

fn chunks(text: &str, size: usize) -> Vec<String> {
    chunk_text(text, size)
}

/// The same packing written with the standard library's `lines` and `trim`.
fn reference_chunks(text: &str, size: usize) -> Vec<String> {
    let mut out = Vec::new();
    let mut current = String::new();
    for line in text.lines() {
        let gathered = current.chars().count();
        if gathered + line.chars().count() + 1 > size && gathered > 0 {
            out.push(current.trim().to_string());
            current = String::new();
        }
        if !current.is_empty() {
            current.push('\n');
        }
        current.push_str(line);
    }
    if !current.is_empty() {
        out.push(current.trim().to_string());
    }
    out
}

fn solid(text: &str) -> String {
    text.chars().filter(|c| !c.is_whitespace()).collect()
}

#[test]
fn two_short_lines_make_one_chunk() {
    assert_eq!(chunks("line1\nline2", 100), vec!["line1\nline2".to_string()]);
}

#[test]
fn empty_text_makes_no_chunk() {
    assert_eq!(chunks("", 10), Vec::<String>::new());
}

#[test]
fn lines_are_gathered_up_to_the_size() {
    assert_eq!(
        chunks("aaaa\nbbbb\ncccc", 9),
        vec!["aaaa\nbbbb".to_string(), "cccc".to_string()]
    );
}

#[test]
fn a_line_that_would_pass_the_size_starts_a_chunk() {
    assert_eq!(
        chunks("aaaa\nbbbb\ncccc", 8),
        vec!["aaaa".to_string(), "bbbb".to_string(), "cccc".to_string()]
    );
}

#[test]
fn a_long_line_is_a_chunk_of_its_own() {
    assert_eq!(chunks("abcdefghij", 3), vec!["abcdefghij".to_string()]);
    assert_eq!(
        chunks("ab\nabcdefghij\ncd", 3),
        vec!["ab".to_string(), "abcdefghij".to_string(), "cd".to_string()]
    );
}

#[test]
fn size_zero_gives_one_chunk_per_line() {
    assert_eq!(chunks("a\nb", 0), vec!["a".to_string(), "b".to_string()]);
}

#[test]
fn line_endings_do_not_belong_to_lines() {
    assert_eq!(chunks("a\r\nb\r\n", 100), vec!["a\nb".to_string()]);
    assert_eq!(chunks("a\n", 100), vec!["a".to_string()]);
    assert_eq!(chunks("a\rb", 100), vec!["a\rb".to_string()]);
}

#[test]
fn chunks_are_trimmed() {
    assert_eq!(chunks("  a  \n  b  ", 100), vec!["a  \n  b".to_string()]);
    assert_eq!(chunks("\u{3000}x\u{a0}", 100), vec!["x".to_string()]);
}

#[test]
fn blank_text_makes_an_empty_chunk() {
    assert_eq!(chunks("   \n  ", 100), vec!["".to_string()]);
}

#[test]
fn empty_lines_in_front_are_dropped() {
    assert_eq!(chunks("\n\nabc", 100), vec!["abc".to_string()]);
}

#[test]
fn the_size_counts_characters() {
    assert_eq!(chunks("éé\néé", 5), vec!["éé\néé".to_string()]);
    assert_eq!(chunks("éé\néé", 4), vec!["éé".to_string(), "éé".to_string()]);
}

#[test]
fn chunking_agrees_with_lines_and_trim() {
    let samples = [
        "",
        "\n",
        "\r\n",
        "a",
        "a\n\nb",
        "one two three\nfour five\n\nsix\r\nseven   \n   eight\n",
        "\t tab\u{2003}\n\u{85}next\u{2028}line\n",
        "trailing\r",
        "x\n\n\n\ny\n\n",
        "ünïcödé línes\nwith wide\u{3000}space\n",
    ];
    for text in samples {
        for size in 0..40 {
            assert_eq!(chunks(text, size), reference_chunks(text, size), "{:?} at {}", text, size);
        }
    }
}

#[test]
fn chunking_keeps_everything_but_white_space() {
    let text = "alpha beta\n  gamma\r\n\n delta\tepsilon \nzeta";
    for size in 0..60 {
        let joined: String = chunks(text, size).concat();
        assert_eq!(solid(&joined), solid(text));
    }
}

#[test]
fn chunks_over_the_size_are_single_lines() {
    let text = "alpha beta\ngamma\ndelta epsilon zeta eta theta\niota";
    for size in 1..40 {
        for chunk in chunks(text, size) {
            let fits = chunk.chars().count() <= size;
            let single = text.lines().any(|line| line.trim() == chunk);
            assert!(fits || single);
        }
    }
}

#[test]
fn chunking_is_deterministic() {
    let text = "a b c\nd e f\ng h i";
    assert_eq!(chunks(text, 7), chunks(text, 7));
}

#[test]
fn white_space_is_what_the_standard_library_says() {
    for code in 0..=0x10ffffu32 {
        if let Some(c) = char::from_u32(code) {
            assert_eq!(char_is_whitespace(c), c.is_whitespace(), "U+{:04X}", code);
        }
    }
}

#[test]
fn blank_texts_are_recognised() {
    assert!(text_is_blank(""));
    assert!(text_is_blank(" \t\r\n\u{a0}"));
    assert!(!text_is_blank(" x "));
}
