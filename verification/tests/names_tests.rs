use file_organizer::names::{extract_extension, extract_name_without_ext, is_extension_match, name_matches};
use file_organizer::strings::{concat3, eq_ignore_case, str_lt, to_ascii_lower};

#[test]
fn extension_of_simple_name() {
    assert_eq!(extract_extension("x.pdf"), Some(".pdf".to_string()));
}

#[test]
fn extension_is_lowercased() {
    assert_eq!(extract_extension("report.PDF"), Some(".pdf".to_string()));
}

#[test]
fn extension_uses_last_dot() {
    assert_eq!(extract_extension("archive.tar.GZ"), Some(".gz".to_string()));
}

#[test]
fn no_dot_means_no_extension() {
    assert_eq!(extract_extension("README"), None);
}

#[test]
fn leading_dot_is_an_extension() {
    assert_eq!(extract_extension(".gitignore"), Some(".gitignore".to_string()));
}

#[test]
fn trailing_dot_gives_bare_dot() {
    assert_eq!(extract_extension("name."), Some(".".to_string()));
}

#[test]
fn base_name_strips_last_extension() {
    assert_eq!(extract_name_without_ext("invoice.pdf"), "invoice");
    assert_eq!(extract_name_without_ext("archive.tar.gz"), "archive.tar");
}

#[test]
fn base_name_of_dotless_name_is_whole() {
    assert_eq!(extract_name_without_ext("README"), "README");
}

#[test]
fn names_match_on_base_name_only() {
    assert!(name_matches("invoice.pdf", "invoice.docx"));
    assert!(name_matches("README", "README.bak"));
    assert!(!name_matches("invoice.pdf", "receipt.pdf"));
}

#[test]
fn name_matching_is_case_sensitive() {
    assert!(!name_matches("Invoice.pdf", "invoice.docx"));
}

#[test]
fn whitelist_match_ignores_case() {
    let wl = vec![".pdf".to_string(), ".docx".to_string()];
    assert!(is_extension_match(".PDF", &wl));
    assert!(is_extension_match(".pdf", &wl));
    assert!(!is_extension_match(".png", &wl));
}

#[test]
fn whitelist_entries_may_be_upper_case() {
    let wl = vec![".PDF".to_string()];
    assert!(is_extension_match(".pdf", &wl));
}

#[test]
fn empty_whitelist_matches_nothing() {
    let wl: Vec<String> = Vec::new();
    assert!(!is_extension_match(".pdf", &wl));
}

#[test]
fn lowercasing_touches_ascii_letters_only() {
    assert_eq!(to_ascii_lower("AbC-12_Z"), "abc-12_z");
}

#[test]
fn case_insensitive_equality() {
    assert!(eq_ignore_case(".PdF", ".pdf"));
    assert!(!eq_ignore_case(".pdf", ".pdfx"));
    assert!(!eq_ignore_case(".pdf", ".png"));
}

#[test]
fn lexicographic_order_on_strings() {
    assert!(str_lt("link", "sub"));
    assert!(str_lt("a", "ab"));
    assert!(!str_lt("ab", "a"));
    assert!(!str_lt("same", "same"));
}

#[test]
fn concatenation_builds_paths() {
    assert_eq!(concat3("/root", "/", "src"), "/root/src");
}
