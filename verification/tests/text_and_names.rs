use videograb::base64::base64_encode;
use videograb::names::{sanitize_dir, sanitize_windows_filename};
use videograb::platform::{Arch, Os, Platform};
use videograb::text::{
    cat, cat3, char_is_whitespace, chars_of, contains, decimal_text, find, len_in_bytes,
    part_before, part_from, same, signed_text, starts_with, strip_leading,
    strip_prefix, trim,
};

fn on(os: Os) -> Platform {
    Platform { os, arch: Arch::X86_64 }
}

#[test]
fn whitespace_is_that_of_unicode() {
    for n in 0..=0x10ffffu32 {
        if let Some(c) = char::from_u32(n) {
            assert_eq!(char_is_whitespace(c), c.is_whitespace(), "{:x}", n);
        }
    }
}

#[test]
fn trimming_cuts_both_ends() {
    for s in ["", " ", "a", "  a b \t", "\u{3000}x\u{a0}", "\n\nline\r\n", "x y"] {
        assert_eq!(trim(s), s.trim());
        assert_eq!(trim(trim(s)), trim(s));
    }
}

#[test]
fn searching_finds_the_first_place() {
    assert_eq!(find("banana", "an"), Some(1));
    assert_eq!(find("banana", ""), Some(0));
    assert_eq!(find("", ""), Some(0));
    assert_eq!(find("banana", "nab"), None);
    assert_eq!(find("ab", "abc"), None);
    assert_eq!(find("äöü", "ü"), Some(2));
    assert!(contains("x [id].mp4", "[id]"));
    assert!(!contains("x id.mp4", "[id]"));
}

#[test]
fn prefixes_are_cut_off() {
    assert_eq!(strip_prefix("[info] x", "[info]"), Some(" x"));
    assert_eq!(strip_prefix("[inf", "[info]"), None);
    assert!(starts_with("äb", "ä"));
    assert!(!starts_with("ab", "b"));
    assert_eq!(strip_leading("vv1.2", 'v'), "1.2");
    assert_eq!(strip_leading("1.2v", 'v'), "1.2v");
    assert_eq!(part_before("a:b:c", ":"), "a");
    assert_eq!(part_before("abc", ":"), "abc");
    assert_eq!(part_from("äbc", 1), "bc");
}

#[test]
fn texts_are_joined_and_compared() {
    assert_eq!(cat("a", "b"), "ab");
    assert_eq!(cat3("a", "b", "c"), "abc");
    assert!(same("aä", "aä"));
    assert!(!same("a", "b"));
    assert!(!same("a", "ab"));
    assert_eq!(chars_of("наука"), vec!['н', 'а', 'у', 'к', 'а']);
    assert_eq!(len_in_bytes("наука"), 10);
}

#[test]
fn numbers_are_written_in_decimal() {
    for n in [0u64, 7, 10, 99, 100, 12345, u64::MAX] {
        assert_eq!(decimal_text(n), n.to_string());
    }
    for n in [0i32, -1, 42, i32::MAX, i32::MIN] {
        assert_eq!(signed_text(n), n.to_string());
    }
}

#[test]
fn file_names_lose_forbidden_characters() {
    assert_eq!(sanitize_windows_filename("a<b>c:d\"e/f\\g|h?i*j"), "a_b_c_d_e_f_g_h_i_j");
    assert_eq!(sanitize_windows_filename("plain name.mp4"), "plain name.mp4");
    let once = sanitize_windows_filename("what? when: \\now");
    assert_eq!(sanitize_windows_filename(&once), once);
}

#[test]
fn directories_keep_drive_and_backslashes() {
    let w = on(Os::Windows);
    assert_eq!(sanitize_dir(w, "C:\\Users\\me\\Videos"), "C:\\Users\\me\\Videos");
    assert_eq!(sanitize_dir(w, "C:\\a?b\\c:d"), "C:\\a_b\\c_d");
    assert_eq!(sanitize_dir(w, "D:/x|y"), "D:_x_y");
    assert_eq!(sanitize_dir(w, ":a:"), "_a_");
    assert_eq!(sanitize_dir(w, "1:x"), "1_x");
    assert_eq!(sanitize_dir(w, "?:x"), "__x");
    assert_eq!(sanitize_dir(w, "\\:x"), "\\_x");
    assert_eq!(sanitize_dir(w, "z:x"), "z:x");
    let once = sanitize_dir(w, "C:\\a?b\\c:d");
    assert_eq!(sanitize_dir(w, &once), once);
}

#[test]
fn directories_elsewhere_stay_as_they_are() {
    assert_eq!(sanitize_dir(on(Os::Other), "/home/me/a:b?c"), "/home/me/a:b?c");
    assert_eq!(sanitize_dir(on(Os::MacOs), "/Users/me/<x>"), "/Users/me/<x>");
}

#[test]
fn base64_of_known_texts() {
    assert_eq!(base64_encode(b""), "");
    assert_eq!(base64_encode(b"f"), "Zg==");
    assert_eq!(base64_encode(b"fo"), "Zm8=");
    assert_eq!(base64_encode(b"foo"), "Zm9v");
    assert_eq!(base64_encode(b"foob"), "Zm9vYg==");
    assert_eq!(base64_encode(b"fooba"), "Zm9vYmE=");
    assert_eq!(base64_encode(b"foobar"), "Zm9vYmFy");
    assert_eq!(base64_encode(&[0xfb, 0xff, 0xfe]), "+//+");
    assert_eq!(base64_encode(&[0x89, 0x50, 0x4e, 0x47, 0x0d]), "iVBORw0=");
}

#[test]
fn base64_length_is_four_for_three() {
    for n in 0..20usize {
        let bytes: Vec<u8> = (0..n).map(|i| (i * 37) as u8).collect();
        assert_eq!(base64_encode(&bytes).len(), (n + 2) / 3 * 4);
    }
}

#[test]
fn base64_padding_is_at_the_end() {
    for n in 0..20usize {
        let text = base64_encode(&vec![0xffu8; n]);
        let padding = (3 - n % 3) % 3;
        assert_eq!(text.matches('=').count(), padding);
        assert!(text.ends_with(&"=".repeat(padding)));
    }
}

#[test]
fn base64_of_full_groups_is_joined() {
    for rest in ["", "a", "ab", "abc", "abcd"] {
        let whole = format!("foobar{}", rest);
        let joined = format!("{}{}", base64_encode(b"foobar"), base64_encode(rest.as_bytes()));
        assert_eq!(base64_encode(whole.as_bytes()), joined);
    }
}
