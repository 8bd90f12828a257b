use priklady::memory_map::{build_memory_map, wrap_description};

fn reference_wrap(desc: &str, max_w: usize) -> Vec<String> {
    let mut out = Vec::new();
    let mut current_line = String::new();
    for word in desc.split_whitespace() {
        if current_line.chars().count() + word.chars().count() + 1 > max_w {
            out.push(current_line.clone());
            current_line = word.to_string();
        } else {
            if !current_line.is_empty() {
                current_line.push(' ');
            }
            current_line.push_str(word);
        }
    }
    if !current_line.is_empty() {
        out.push(current_line);
    }
    out
}

#[test]
fn wraps_every_description_like_the_panel() {
    for cell in build_memory_map() {
        for w in [0usize, 5, 10, 26, 40, 100] {
            assert_eq!(wrap_description(cell.description, w), reference_wrap(cell.description, w));
        }
    }
}

#[test]
fn wrap_examples() {
    assert_eq!(
        wrap_description("let ptr: *mut u8 → ukazuje na HEAP 0x0040", 26),
        vec!["let ptr: *mut u8 → ukazuje", "na HEAP 0x0040"]
    );
    assert_eq!(wrap_description("   ", 26), Vec::<String>::new());
    assert_eq!(wrap_description("averyveryverylongword x", 5), vec!["", "averyveryverylongword", "x"]);
    assert_eq!(wrap_description("a\u{3000}b\tc", 100), vec!["a b c"]);
    assert_eq!(wrap_description("žžž ž", 5), vec!["žžž ž"]);
    assert_eq!(wrap_description("žžž ž", 4), vec!["žžž", "ž"]);
}

#[test]
fn wrap_counts_characters_not_bytes() {
    assert_eq!(
        wrap_description("nemapovaná pamäť — prístup = crash", 26),
        vec!["nemapovaná pamäť — prístup", "= crash"]
    );
}
