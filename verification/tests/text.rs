use asset_server::text::after_last;
use asset_server::text::contains_char;
use asset_server::text::ends_with_char;
use asset_server::text::find_last;
use asset_server::text::str_eq;
use asset_server::text::strip_leading;

#[test]
fn str_eq_compares_all_characters() {
    assert!(str_eq("", ""));
    assert!(str_eq("index.html", "index.html"));
    assert!(!str_eq("index.html", "index.htm"));
    assert!(!str_eq("index.html", "index.htmL"));
    assert!(!str_eq("a", ""));
    assert!(str_eq("données", "données"));
    assert!(!str_eq("données", "donnees"));
}

#[test]
fn find_last_counts_characters() {
    assert_eq!(find_last("", '.'), None);
    assert_eq!(find_last("abc", '.'), None);
    assert_eq!(find_last("a.b.c", '.'), Some(3));
    assert_eq!(find_last(".", '.'), Some(0));
    assert_eq!(find_last("é.é.", '.'), Some(3));
}

#[test]
fn contains_char_finds_the_character_anywhere() {
    assert!(contains_char("style.css", '.'));
    assert!(contains_char(".", '.'));
    assert!(!contains_char("about", '.'));
    assert!(!contains_char("", '.'));
}

#[test]
fn ends_with_char_looks_at_the_last_character() {
    assert!(ends_with_char("dir/", '/'));
    assert!(ends_with_char("/", '/'));
    assert!(!ends_with_char("dir/file", '/'));
    assert!(!ends_with_char("", '/'));
    assert!(ends_with_char("é/", '/'));
}

#[test]
fn strip_leading_removes_one_character() {
    assert_eq!(strip_leading("/about", '/'), "about");
    assert_eq!(strip_leading("//about", '/'), "/about");
    assert_eq!(strip_leading("about", '/'), "about");
    assert_eq!(strip_leading("/", '/'), "");
    assert_eq!(strip_leading("", '/'), "");
    assert_eq!(strip_leading("/é", '/'), "é");
}

#[test]
fn after_last_gives_the_tail() {
    assert_eq!(after_last("a/b/file.tar.gz", '.'), Some("gz"));
    assert_eq!(after_last("file.", '.'), Some(""));
    assert_eq!(after_last("file", '.'), None);
    assert_eq!(after_last("", '.'), None);
    assert_eq!(after_last("é.ö", '.'), Some("ö"));
}
