use rsop::error::HandlerError;
use rsop::template::build_cmd;
use rsop::template::count_pattern;
use rsop::template::substitute;
use rsop::template::term_size_fallback;

#[test]
fn test_count_pattern() {
    assert_eq!(count_pattern("aa ii ii", 'm'), 0);
    assert_eq!(count_pattern("aa ii ii", 'i'), 0);

    assert_eq!(count_pattern("a %i", 'm'), 0);
    assert_eq!(count_pattern("a %i", 'i'), 1);

    assert_eq!(count_pattern("a %i %i %m", 'm'), 1);
    assert_eq!(count_pattern("a %i %i %m", 'i'), 2);

    assert_eq!(count_pattern("a %%i %i %%m", 'm'), 0);
    assert_eq!(count_pattern("a %%i %i %%m", 'i'), 1);
}

#[test]
fn test_substitute() {
    let term_size = (85, 84);
    let path = "";

    assert_eq!(
        substitute("abc def", path, None, term_size).unwrap(),
        "abc def"
    );
    assert_eq!(
        substitute("ab%%c def", path, None, term_size).unwrap(),
        "ab%c def"
    );
    assert_eq!(
        substitute("ab%c def", path, None, term_size).unwrap(),
        "ab85 def"
    );
}

#[test]
fn test_substitute_rows_and_mime() {
    assert_eq!(
        substitute("h%l x", "", None, (85, 84)).unwrap(),
        "h84 x"
    );
    assert_eq!(
        substitute("view %m now", "", Some("text/plain"), (80, 24)).unwrap(),
        "view text/plain now"
    );
    // Without a MIME value the placeholder stays as it is.
    assert_eq!(
        substitute("view %m now", "", None, (80, 24)).unwrap(),
        "view %m now"
    );
}

#[test]
fn test_substitute_at_template_start() {
    // Nothing precedes a placeholder at the very start, so it is
    // substituted; a doubled `%` still escapes it there.
    assert_eq!(substitute("%c x", "", None, (85, 84)).unwrap(), "85 x");
    assert_eq!(substitute("%%c x", "", None, (85, 84)).unwrap(), "%c x");
}

#[test]
fn test_count_pattern_at_template_start() {
    assert_eq!(count_pattern("%i rest", 'i'), 1);
    assert_eq!(count_pattern("%%i rest", 'i'), 0);
    assert_eq!(count_pattern("%i %i", 'i'), 2);
}

#[test]
fn test_substitute_quotes_path() {
    // A path with a space is shell-quoted before it enters the template.
    assert_eq!(
        substitute("open %i", "a b", None, (80, 24)).unwrap(),
        "open 'a b'"
    );
    // A safe path is passed through unquoted.
    assert_eq!(
        substitute("open %i", "/tmp/x.txt", None, (80, 24)).unwrap(),
        "open /tmp/x.txt"
    );
}

#[test]
fn test_substitute_rejects_nul_path() {
    let r = substitute("open %i", "a\0b", None, (80, 24));
    assert!(matches!(r, Err(HandlerError::Other(_))));
}

#[test]
fn test_substitute_trims() {
    assert_eq!(substitute("  spaced out  ", "", None, (80, 24)).unwrap(), "spaced out");
}

#[test]
fn test_substitute_idempotent_without_placeholders() {
    let once = substitute(" plain command ", "/tmp/f", None, (80, 24)).unwrap();
    let twice = substitute(&once, "/tmp/f", None, (80, 24)).unwrap();
    assert_eq!(once, twice);
}

#[test]
fn test_substitute_trims_unicode_space() {
    assert_eq!(
        substitute("\u{a0}cmd\u{2003}", "", None, (80, 24)).unwrap(),
        "cmd"
    );
}

#[test]
fn test_build_cmd_shell() {
    let args = build_cmd("a | b", true).unwrap();
    assert_eq!(args, vec!["sh".to_owned(), "-c".to_owned(), "a | b".to_owned()]);
}

#[test]
fn test_build_cmd_split() {
    let args = build_cmd("cat -A 'a file'", false).unwrap();
    assert_eq!(args, vec!["cat".to_owned(), "-A".to_owned(), "a file".to_owned()]);
}

#[test]
fn test_build_cmd_invalid() {
    let r = build_cmd("cat 'unclosed", false);
    assert!(matches!(r, Err(HandlerError::Other(_))));
}

#[test]
fn test_term_size_fallback_parses_first() {
    assert_eq!(term_size_fallback(Some("85"), None, Some("84"), None), (85, 84));
    assert_eq!(term_size_fallback(None, Some("120"), None, Some("+40")), (120, 40));
    // An unparsable first choice falls back to the second.
    assert_eq!(term_size_fallback(Some("x"), Some("100"), Some("99999999"), Some("50")), (100, 50));
}

#[test]
fn test_term_size_fallback_default() {
    assert_eq!(term_size_fallback(None, None, Some("24"), None), (80, 24));
    assert_eq!(term_size_fallback(Some("bad"), None, Some("24"), None), (80, 24));
    assert_eq!(term_size_fallback(None, None, None, None), (80, 24));
    // A value over 16 bits does not parse.
    assert_eq!(term_size_fallback(Some("70000"), None, Some("24"), None), (80, 24));
}
