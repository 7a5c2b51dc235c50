//! Each operation exercised on a small structured key/value file.
use mute::{
    add_after_pattern, add_before_pattern, add_via_line_number, overwrite_pattern,
    overwrite_via_line_number, remove_after_pattern, remove_before_pattern,
    remove_overwrite_pattern, remove_via_line_number,
};

const FAUX_FILE: &str = "[table]\n\
    [[subtable1]]\n\
    entry_1=\"one\"\n\
    entry_2=\"two\"\n\
    \n\
    [[subtable2]]\n\
    entry_4=\"four\"";

#[test]
fn test_add_after_pattern() {
    let outcome =
        add_after_pattern(FAUX_FILE, "^\\[\\[subtable2]]", "check=1", false).unwrap();
    let expected = "[table]\n\
        [[subtable1]]\n\
        entry_1=\"one\"\n\
        entry_2=\"two\"\n\
        \n\
        [[subtable2]]\n\
        check=1\n\
        entry_4=\"four\"";
    assert_eq!(expected, outcome.output.unwrap());
}

#[test]
fn test_add_via_linenumber() {
    let outcome = add_via_line_number(FAUX_FILE, 3, "entry_0=\"zero\"", false);
    let expected = "[table]\n\
        [[subtable1]]\n\
        entry_0=\"zero\"\n\
        entry_1=\"one\"\n\
        entry_2=\"two\"\n\
        \n\
        [[subtable2]]\n\
        entry_4=\"four\"";
    assert_eq!(expected, outcome.output.unwrap());
}

#[test]
fn test_add_before_pattern() {
    let outcome =
        add_before_pattern(FAUX_FILE, "^entry_1", "entry_0=\"zero\"", false).unwrap();
    let expected = "[table]\n\
        [[subtable1]]\n\
        entry_0=\"zero\"\n\
        entry_1=\"one\"\n\
        entry_2=\"two\"\n\
        \n\
        [[subtable2]]\n\
        entry_4=\"four\"";
    assert_eq!(expected, outcome.output.unwrap());
}

#[test]
fn test_overwrite_line() {
    let outcome = overwrite_via_line_number(FAUX_FILE, 1, "[tabby]", false);
    let expected = "[tabby]\n\
        [[subtable1]]\n\
        entry_1=\"one\"\n\
        entry_2=\"two\"\n\
        \n\
        [[subtable2]]\n\
        entry_4=\"four\"";
    assert_eq!(expected, outcome.output.unwrap());
}

#[test]
fn test_overwrite_pattern() {
    let outcome = overwrite_pattern(FAUX_FILE, "^\\[table", "[tabby]", false).unwrap();
    let expected = "[tabby]\n\
        [[subtable1]]\n\
        entry_1=\"one\"\n\
        entry_2=\"two\"\n\
        \n\
        [[subtable2]]\n\
        entry_4=\"four\"";
    assert_eq!(expected, outcome.output.unwrap());
}

#[test]
fn test_rm_after_pattern() {
    let outcome = remove_after_pattern(FAUX_FILE, "^\\[\\[subtable2]]", false).unwrap();
    let expected = "[table]\n\
        [[subtable1]]\n\
        entry_1=\"one\"\n\
        entry_2=\"two\"\n\
        \n\
        [[subtable2]]\n";
    assert_eq!(expected, outcome.output.unwrap());
}

#[test]
fn test_rm_via_line_number() {
    let outcome = remove_via_line_number(FAUX_FILE, 1, false);
    let expected = "[[subtable1]]\n\
        entry_1=\"one\"\n\
        entry_2=\"two\"\n\
        \n\
        [[subtable2]]\n\
        entry_4=\"four\"";
    assert_eq!(expected, outcome.output.unwrap());
}

#[test]
fn test_rm_before_pattern() {
    let outcome = remove_before_pattern(FAUX_FILE, "^\\[\\[subtable1]]", false).unwrap();
    let expected = "[[subtable1]]\n\
        entry_1=\"one\"\n\
        entry_2=\"two\"\n\
        \n\
        [[subtable2]]\n\
        entry_4=\"four\"";
    assert_eq!(expected, outcome.output.unwrap());
}

#[test]
fn test_rm_overwrite_pattern() {
    let outcome = remove_overwrite_pattern(FAUX_FILE, "^\\[table]", false).unwrap();
    let expected = "[[subtable1]]\n\
        entry_1=\"one\"\n\
        entry_2=\"two\"\n\
        \n\
        [[subtable2]]\n\
        entry_4=\"four\"";
    assert_eq!(expected, outcome.output.unwrap());
}
