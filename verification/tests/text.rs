use terki_panes::link::{can_find_link, find_link, slug};
use terki_panes::text::{center, dashed, find, rfind, same, slice, splice};

#[test]
fn find_gives_the_first_byte_index() {
    assert_eq!(find("h\u{e9}llo", "l"), Some(3));
    assert_eq!(find("abcabc", "ca"), Some(2));
    assert_eq!(find("abc", ""), Some(0));
    assert_eq!(find("abc", "abcd"), None);
    assert_eq!(find("abc", "d"), None);
    assert_eq!(find("", ""), Some(0));
}

#[test]
fn rfind_gives_the_last_byte_index() {
    assert_eq!(rfind("[[[", "[["), Some(1));
    assert_eq!(rfind("[[a]] [[b]]", "[["), Some(6));
    assert_eq!(rfind("abc", ""), Some(3));
    assert_eq!(rfind("abc", "[["), None);
    assert_eq!(rfind("[", "[["), None);
}

#[test]
fn searches_agree_with_the_standard_library() {
    let texts = ["", "a", "aa", "aXa", "[[a]] [[b]]", "\u{20ac}[[\u{1f600}]]", "]]]"];
    let patterns = ["", "a", "aa", "[[", "]]", "\u{20ac}", "\u{1f600}]"];
    for text in texts.iter() {
        for pattern in patterns.iter() {
            assert_eq!(find(text, pattern), text.find(pattern));
            assert_eq!(rfind(text, pattern), text.rfind(pattern));
        }
    }
}

#[test]
fn slices_and_splices_by_bytes() {
    assert_eq!(slice("h\u{e9}llo", 1, 3), "\u{e9}");
    assert_eq!(slice("abc", 3, 3), "");
    assert_eq!(splice("h\u{e9}llo", 1, 3, "EE"), "hEEllo");
    assert_eq!(splice("abc", 0, 3, ""), "");
    assert_eq!(splice("abc", 1, 1, "-"), "a-bc");
}

#[test]
fn same_compares_whole_texts() {
    assert!(same("\u{e9}", "\u{e9}"));
    assert!(same("", ""));
    assert!(!same("a", "ab"));
    assert!(!same("ab", "ac"));
}

#[test]
fn center_puts_the_odd_blank_to_the_right() {
    assert_eq!(center("ab", 5), " ab  ");
    assert_eq!(center("ab", 6), "  ab  ");
    assert_eq!(center("ab", 2), "ab");
    assert_eq!(center("abc", 2), "abc");
    assert_eq!(center("", 0), "");
    for width in 0..9 {
        assert_eq!(center("h\u{e9}l", width), format!("{: ^1$}", "h\u{e9}l", width));
    }
}

#[test]
fn dashed_replaces_each_blank() {
    assert_eq!(dashed(" a  b\t"), "-a--b\t");
    assert_eq!(dashed(""), "");
}

#[test]
fn slug_is_lower_case_with_dashes() {
    assert_eq!(slug("Welcome Visitors"), "welcome-visitors");
    assert_eq!(slug("\u{c4}rger ODER Nicht"), "\u{e4}rger-oder-nicht");
    assert!(!slug("A B C").contains(' '));
}

#[test]
fn link_at_line_start_is_read_from_every_place_before_the_next() {
    let line = "[[Some P\u{e4}ge]] \u{e4}nd [[Other]]";
    let next = line.rfind("[[").unwrap();
    for x in 2..next + 2 {
        if line.is_char_boundary(x) {
            assert!(can_find_link(line, x));
            assert_eq!(find_link(line, x), Some("Some P\u{e4}ge".to_string()));
        } else {
            assert!(!can_find_link(line, x));
        }
    }
}

#[test]
fn no_link_before_the_brackets_or_without_their_end() {
    assert_eq!(find_link("[[a]]", 0), None);
    assert_eq!(find_link("[[a]]", 1), None);
    assert_eq!(find_link("plain text", 5), None);
    assert_eq!(find_link("[[open", 4), None);
    assert_eq!(find_link("[[]]", 3), Some(String::new()));
}

#[test]
fn link_inside_a_line_is_cut_by_its_distance() {
    let line = "ab [[a long title of a page]]";
    assert!(can_find_link(line, 10));
    assert_eq!(find_link(line, 10), Some("a long title of a p".to_string()));
    // A short link far from the start ends before it starts.
    assert!(!can_find_link("[[Foo]] and [[Bar]]", 15));
    // Beyond the line.
    assert!(!can_find_link("abc", 4));
}
