use mem_cli::error::MemError;
use mem_cli::slug::{slug_from_items, slug_is_valid, slug_valid_with, slugify};
use mem_cli::tags::{normalize_tag, tag_char_is_valid, TAG_MAX_LEN};
use mem_cli::text::{ascii_lowercase, find_text, same_text, trim_end_set, trim_set, white_space, TrimSet};

#[test]
fn slugify_handles_unicode_and_separators() {
    assert_eq!(slugify("My Project"), "my-project");
    assert_eq!(slugify("a/b\\c:d"), "a-b-c-d");
    assert_eq!(slugify("  multiple   spaces  "), "multiple-spaces");
    assert_eq!(slugify("dots...and---dashes"), "dots-and-dashes");
    assert_eq!(slugify("Мой Проект"), "мой-проект");
    assert_eq!(slugify("///   ///"), "project");
    assert_eq!(slugify(""), "project");
}

#[test]
fn slug_validation() {
    assert!(slug_is_valid("my-proj-a1b2c3"));
    assert!(slug_is_valid("проект_1"));
    assert!(!slug_is_valid(""));
    assert!(!slug_is_valid(".."));
    assert!(!slug_is_valid("a/b"));
    assert!(!slug_is_valid("a b"));
    assert!(!slug_is_valid("a\nb"));
}

#[test]
fn normalize_tag_rules() {
    assert_eq!(normalize_tag("  Auth ").unwrap(), "auth");
    assert_eq!(normalize_tag("API-v2.0_x").unwrap(), "api-v2.0_x");
    assert!(normalize_tag("   ").is_err());
    assert!(normalize_tag("with space").is_err());
    assert!(normalize_tag("привет").is_err());
    assert!(normalize_tag(&"a".repeat(TAG_MAX_LEN + 1)).is_err());
}

#[test]
fn normalize_tag_is_idempotent() {
    for t in ["  Auth ", "API-v2.0_x", "a.b", "X_Y-z"] {
        let once = normalize_tag(t).unwrap();
        assert_eq!(normalize_tag(&once).unwrap(), once);
    }
}

#[test]
fn normalize_tag_errors() {
    assert_eq!(normalize_tag(" \t ").unwrap_err().message(), "empty tag");
    let long = "A".repeat(TAG_MAX_LEN + 1);
    assert_eq!(
        normalize_tag(&long).unwrap_err().message(),
        format!("tag is too long (max 64 characters): {:?}", "a".repeat(TAG_MAX_LEN + 1))
    );
    assert_eq!(
        normalize_tag("with space").unwrap_err().message(),
        "invalid tag \"with space\": allowed characters are [a-z0-9._-]"
    );
    assert_eq!(normalize_tag(&"b".repeat(TAG_MAX_LEN)).unwrap(), "b".repeat(TAG_MAX_LEN));
    assert!(tag_char_is_valid('.') && tag_char_is_valid('_') && tag_char_is_valid('-'));
    assert!(!tag_char_is_valid('A') && !tag_char_is_valid(' ') && !tag_char_is_valid('é'));
}

#[test]
fn error_messages() {
    assert_eq!(MemError::UnknownEntity("users".to_string()).message(), "unknown entity: users");
    assert_eq!(MemError::CorruptMarker("a\nb".to_string()).message(), "corrupt marker: invalid slug \"a\\nb\"");
    assert_eq!(MemError::NoRows.message(), "Query returned no rows");
}

#[test]
fn white_space_matches_std() {
    for u in 0u32..=0x10FFFF {
        if let Some(c) = char::from_u32(u) {
            assert_eq!(white_space(c), c.is_whitespace(), "U+{u:04X}");
        }
    }
}

#[test]
fn trimming_and_search() {
    assert_eq!(trim_set("\u{3000} a b \n", TrimSet::WhiteSpace), "a b");
    assert_eq!(trim_set("--a-b--", TrimSet::Dash), "a-b");
    assert_eq!(trim_end_set("  x  \n", TrimSet::WhiteSpace), "  x");
    assert_eq!(find_text("abcabc", "ca"), Some(2));
    assert_eq!(find_text("abc", "abcd"), None);
    assert_eq!(find_text("abc", ""), Some(0));
    assert_eq!(find_text("мир мир", "ир"), Some(1));
    assert_eq!(ascii_lowercase("Content-LENGTH Ä"), "content-length Ä");
    assert!(same_text("ab", "ab") && !same_text("ab", "abc"));
}

#[test]
fn slugify_lowers_unicode() {
    assert_eq!(slugify("ÀÉ Straße"), "àé-straße");
    assert_eq!(slugify(&"x".repeat(60)), "x".repeat(48));
    assert_eq!(slugify(&format!("{}-{}", "a".repeat(47), "b")), "a".repeat(47));
}

#[test]
fn slug_of_dotted_capital_i_is_not_a_valid_marker_slug() {
    let slug = slugify("İ");
    assert_eq!(slug, "i\u{307}");
    assert!(!slug_is_valid(&slug));
}

#[test]
fn slug_from_classified_characters() {
    let items = vec![
        (true, "a".to_string()),
        (false, "!".to_string()),
        (false, " ".to_string()),
        (true, "bc".to_string()),
        (false, "-".to_string()),
    ];
    assert_eq!(slug_from_items(&items), "a-bc");
    assert_eq!(slug_from_items(&vec![]), "project");
    assert_eq!(slug_from_items(&vec![(false, "x".to_string())]), "project");
    for name in ["My Project", "--x--", "", "Ω ω", &"é".repeat(70)] {
        let slug = slugify(name);
        assert!(!slug.is_empty() && slug.chars().count() <= 48);
        assert!(!slug.starts_with('-') && !slug.ends_with('-'));
    }
    assert!(slug_valid_with("a-b", &vec![true, false, true]));
    assert!(!slug_valid_with("a-b", &vec![true]));
    assert!(!slug_valid_with("..", &vec![true, true]));
}

#[test]
fn ascii_slugs_are_valid_and_fixed() {
    for name in ["My Project", "--Hello__World--", "x", "A1 b2 C3", "  tabs\tand\nlines  "] {
        let slug = slugify(name);
        assert!(!slug.is_empty() && slug.len() <= 48);
        assert!(slug.chars().all(|c| c.is_ascii_lowercase() || c.is_ascii_digit() || c == '-'));
        assert!(!slug.starts_with('-') && !slug.ends_with('-') && !slug.contains("--"));
        assert!(slug_is_valid(&slug));
        assert_eq!(slugify(&slug), slug);
    }
    assert_eq!(slugify("!!! ??? ..."), "project");
    let long = "ab-".repeat(30);
    let slug = slugify(&long);
    assert_eq!(slug.len(), 47);
    assert_eq!(slugify(&slug), slug);
}
