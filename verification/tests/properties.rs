//! Behavioural checks on concrete inputs: dry runs, idempotence, the
//! add/remove round trip, boundary matches, zero line numbers, error
//! variants, previews, and the separator rules at the edges of a file.
use mute::{
    add_after_pattern, add_before_pattern, add_via_line_number, join_lines, overwrite_pattern,
    overwrite_via_line_number, remove_after_pattern, remove_before_pattern,
    remove_overwrite_pattern, remove_via_line_number, run_mutation, split_lines, CLIArguments,
    LineMutation, MutationError, PatternMutation, What, Where, WhereCommands,
};

const FAUX_FILE: &str = "[table]\n\
    [[subtable1]]\n\
    entry_1=\"one\"\n\
    entry_2=\"two\"\n\
    \n\
    [[subtable2]]\n\
    entry_4=\"four\"";

#[test]
fn dry_run_orders_no_write() {
    let o = add_after_pattern(FAUX_FILE, "^entry_", "x", true).unwrap();
    assert!(o.output.is_none());
    let o = add_via_line_number(FAUX_FILE, 3, "x", true);
    assert!(o.output.is_none());
    let o = overwrite_pattern(FAUX_FILE, "^entry_", "x", true).unwrap();
    assert!(o.output.is_none());
    let o = overwrite_via_line_number(FAUX_FILE, 2, "x", true);
    assert!(o.output.is_none());
    let o = remove_after_pattern(FAUX_FILE, "^entry_", true).unwrap();
    assert!(o.output.is_none());
    let o = remove_before_pattern(FAUX_FILE, "^entry_", true).unwrap();
    assert!(o.output.is_none());
    let o = remove_overwrite_pattern(FAUX_FILE, "^entry_", true).unwrap();
    assert!(o.output.is_none());
    let o = remove_via_line_number(FAUX_FILE, 1, true);
    assert!(o.output.is_none());
    let o = add_before_pattern(FAUX_FILE, "^entry_", "x", true).unwrap();
    assert!(o.output.is_none());
}

#[test]
fn overwrite_line_twice_equals_once() {
    let once = overwrite_via_line_number(FAUX_FILE, 3, "entry_1=\"uno\"", false)
        .output
        .unwrap();
    let twice = overwrite_via_line_number(&once, 3, "entry_1=\"uno\"", false).output.unwrap();
    assert_eq!(once, twice);
}

#[test]
fn add_then_remove_restores_contents() {
    let added = add_via_line_number(FAUX_FILE, 3, "entry_0=\"zero\"", false).output.unwrap();
    let restored = remove_via_line_number(&added, 3, false).output.unwrap();
    assert_eq!(FAUX_FILE, restored);
}

#[test]
fn add_then_remove_restores_contents_past_end() {
    let added = add_via_line_number(FAUX_FILE, 100, "entry_9=\"none\"", false).output.unwrap();
    let restored = remove_via_line_number(&added, 100, false).output.unwrap();
    assert_eq!(FAUX_FILE, restored);
}

#[test]
fn pattern_add_affects_every_match() {
    let o = add_after_pattern("a\nb\na\nc", "^a$", "x", false).unwrap();
    assert_eq!("a\nx\nb\na\nx\nc", o.output.unwrap());
    assert_eq!(2, o.matched);
    let o = add_before_pattern("a\nb\na\nc", "^a$", "x", false).unwrap();
    assert_eq!("x\na\nb\nx\na\nc", o.output.unwrap());
    assert_eq!(2, o.matched);
    let o = overwrite_pattern("a\nb\na\nc", "^a$", "x", false).unwrap();
    assert_eq!("x\nb\nx\nc", o.output.unwrap());
    assert_eq!(2, o.matched);
    let o = remove_overwrite_pattern("a\nb\na\nc", "^a$", false).unwrap();
    assert_eq!("b\nc", o.output.unwrap());
    assert_eq!(2, o.matched);
}

#[test]
fn remove_after_match_on_final_line_is_noop() {
    let o = remove_after_pattern(FAUX_FILE, "^entry_4", false).unwrap();
    assert_eq!(FAUX_FILE, o.output.unwrap());
    assert_eq!(0, o.matched);
}

#[test]
fn remove_before_match_on_first_line_is_noop() {
    let o = remove_before_pattern(FAUX_FILE, "^\\[table]", false).unwrap();
    assert_eq!(FAUX_FILE, o.output.unwrap());
    assert_eq!(0, o.matched);
}

#[test]
fn add_after_match_on_final_line_appends() {
    let o = add_after_pattern(FAUX_FILE, "^entry_4", "check=1", false).unwrap();
    let expected = "[table]\n\
        [[subtable1]]\n\
        entry_1=\"one\"\n\
        entry_2=\"two\"\n\
        \n\
        [[subtable2]]\n\
        entry_4=\"four\"\n\
        check=1";
    assert_eq!(expected, o.output.unwrap());
}

fn add_at_line(line_number: usize) -> CLIArguments {
    CLIArguments {
        file: String::from("simple.toml"),
        entry: Some(String::from("x")),
        dry_run: false,
        command: What::Add(Where { command: WhereCommands::AtLine(LineMutation { line_number }) }),
    }
}

#[test]
fn line_zero_fails_before_any_mutation() {
    let r = run_mutation(&add_at_line(0), FAUX_FILE);
    assert_eq!(Err(MutationError::LineZero), r.map(|_| ()));

    let args = CLIArguments {
        file: String::from("simple.toml"),
        entry: None,
        dry_run: true,
        command: What::Remove(Where {
            command: WhereCommands::OverwriteLine(LineMutation { line_number: 0 }),
        }),
    };
    let r = run_mutation(&args, FAUX_FILE);
    assert_eq!(Err(MutationError::LineZero), r.map(|_| ()));
}

#[test]
fn entry_with_remove_is_rejected() {
    let args = CLIArguments {
        file: String::from("simple.toml"),
        entry: Some(String::from("x")),
        dry_run: false,
        command: What::Remove(Where {
            command: WhereCommands::AtLine(LineMutation { line_number: 1 }),
        }),
    };
    let r = run_mutation(&args, FAUX_FILE);
    assert_eq!(Err(MutationError::EntryForbidden), r.map(|_| ()));
}

#[test]
fn missing_entry_with_add_is_rejected() {
    let args = CLIArguments {
        file: String::from("simple.toml"),
        entry: None,
        dry_run: false,
        command: What::Add(Where {
            command: WhereCommands::AfterPattern(PatternMutation {
                pattern: String::from("^entry_"),
            }),
        }),
    };
    let r = run_mutation(&args, FAUX_FILE);
    assert_eq!(Err(MutationError::EntryRequired), r.map(|_| ()));
}

#[test]
fn malformed_pattern_is_rejected() {
    let r = add_after_pattern(FAUX_FILE, "(", "x", false);
    assert_eq!(Err(MutationError::InvalidPattern), r.map(|_| ()));
    let r = remove_overwrite_pattern(FAUX_FILE, "(", false);
    assert_eq!(Err(MutationError::InvalidPattern), r.map(|_| ()));
}

#[test]
fn run_mutation_rejects_a_malformed_pattern() {
    let args = CLIArguments {
        file: String::from("simple.toml"),
        entry: None,
        dry_run: false,
        command: What::Remove(Where {
            command: WhereCommands::OverwritePattern(PatternMutation {
                pattern: String::from("("),
            }),
        }),
    };
    let r = run_mutation(&args, FAUX_FILE);
    assert_eq!(Err(MutationError::InvalidPattern), r.map(|_| ()));
}

#[test]
fn run_mutation_dispatches_like_the_handler() {
    let args = CLIArguments {
        file: String::from("simple.toml"),
        entry: None,
        dry_run: false,
        command: What::Remove(Where {
            command: WhereCommands::AfterPattern(PatternMutation {
                pattern: String::from("^\\[\\[subtable2]]"),
            }),
        }),
    };
    let via_dispatch = run_mutation(&args, FAUX_FILE).unwrap().output.unwrap();
    let direct = remove_after_pattern(FAUX_FILE, "^\\[\\[subtable2]]", false)
        .unwrap()
        .output
        .unwrap();
    assert_eq!(direct, via_dispatch);
}

#[test]
fn no_match_copies_contents_through() {
    let o = overwrite_pattern(FAUX_FILE, "^nothing-here$", "x", false).unwrap();
    assert_eq!(FAUX_FILE, o.output.unwrap());
    assert_eq!(0, o.matched);
    let o = remove_via_line_number(FAUX_FILE, 100, false);
    assert_eq!(FAUX_FILE, o.output.unwrap());
    assert_eq!(0, o.matched);
}

#[test]
fn removing_the_final_line_keeps_its_separator() {
    let o = remove_via_line_number("a\nb", 2, false);
    assert_eq!("a\n", o.output.unwrap());
    let o = remove_overwrite_pattern("a\nb", "^b$", false).unwrap();
    assert_eq!("a\n", o.output.unwrap());
}

#[test]
fn removing_the_only_line_leaves_empty_contents() {
    let o = remove_via_line_number("a", 1, false);
    assert_eq!("", o.output.unwrap());
}

#[test]
fn split_and_join_preserve_structure() {
    let lines = split_lines("");
    assert_eq!(vec![String::new()], lines);
    assert_eq!("", join_lines(&lines));

    let lines = split_lines("a\n");
    assert_eq!(vec![String::from("a"), String::new()], lines);
    assert_eq!("a\n", join_lines(&lines));

    let lines = split_lines(FAUX_FILE);
    assert_eq!(7, lines.len());
    assert_eq!(FAUX_FILE, join_lines(&lines));
}

#[test]
fn add_after_preview_accounts_for_shifts() {
    let o = add_after_pattern(FAUX_FILE, "^entry_", "x", true).unwrap();
    assert_eq!(3, o.matched);
    assert_eq!(3, o.preview.len());
    let numbers: Vec<usize> = o.preview.iter().map(|p| p.line).collect();
    assert_eq!(vec![4, 6, 10], numbers);
    assert!(o.preview.iter().all(|p| p.added && p.text == "x"));
}

#[test]
fn add_before_preview_accounts_for_shifts() {
    let o = add_before_pattern(FAUX_FILE, "^entry_", "x", true).unwrap();
    assert_eq!(3, o.matched);
    let numbers: Vec<usize> = o.preview.iter().map(|p| p.line).collect();
    assert_eq!(vec![3, 5, 9], numbers);
}

#[test]
fn overwrite_pattern_preview_pairs_old_and_new() {
    let o = overwrite_pattern(FAUX_FILE, "^\\[table", "[tabby]", true).unwrap();
    assert_eq!(2, o.preview.len());
    assert_eq!(1, o.preview[0].line);
    assert!(!o.preview[0].added);
    assert_eq!("[table]", o.preview[0].text);
    assert_eq!(1, o.preview[1].line);
    assert!(o.preview[1].added);
    assert_eq!("[tabby]", o.preview[1].text);
}

#[test]
fn add_via_line_preview_shows_the_shifted_line() {
    let o = add_via_line_number(FAUX_FILE, 3, "x", true);
    assert_eq!(3, o.preview.len());
    assert_eq!((3, false), (o.preview[0].line, o.preview[0].added));
    assert_eq!("entry_1=\"one\"", o.preview[0].text);
    assert_eq!((3, true), (o.preview[1].line, o.preview[1].added));
    assert_eq!("x", o.preview[1].text);
    assert_eq!((4, true), (o.preview[2].line, o.preview[2].added));
    assert_eq!("entry_1=\"one\"", o.preview[2].text);
}

#[test]
fn removal_previews_carry_original_numbers() {
    let o = remove_via_line_number(FAUX_FILE, 1, true);
    assert_eq!(1, o.preview.len());
    assert_eq!((1, false), (o.preview[0].line, o.preview[0].added));
    assert_eq!("[table]", o.preview[0].text);

    let o = remove_after_pattern(FAUX_FILE, "^\\[\\[subtable2]]", true).unwrap();
    assert_eq!(1, o.preview.len());
    assert_eq!(7, o.preview[0].line);
    assert_eq!("entry_4=\"four\"", o.preview[0].text);

    let o = remove_before_pattern(FAUX_FILE, "^\\[\\[subtable1]]", true).unwrap();
    assert_eq!(1, o.preview.len());
    assert_eq!(1, o.preview[0].line);
    assert_eq!("[table]", o.preview[0].text);
}

#[test]
fn run_mutation_dry_run_orders_no_write() {
    let args = CLIArguments {
        file: String::from("simple.toml"),
        entry: Some(String::from("check=1")),
        dry_run: true,
        command: What::Add(Where {
            command: WhereCommands::AfterPattern(PatternMutation {
                pattern: String::from("^\\[\\[subtable2]]"),
            }),
        }),
    };
    let outcome = run_mutation(&args, FAUX_FILE).unwrap();
    assert!(outcome.output.is_none());
    assert_eq!(1, outcome.matched);
    assert_eq!(1, outcome.preview.len());
    assert_eq!(7, outcome.preview[0].line);
    assert!(outcome.preview[0].added);
    assert_eq!("check=1", outcome.preview[0].text);
}

#[test]
fn empty_contents_hold_one_empty_line() {
    let o = overwrite_via_line_number("", 1, "x", false);
    assert_eq!("x", o.output.unwrap());
    assert_eq!(1, o.matched);
    let o = add_via_line_number("", 1, "x", false);
    assert_eq!("x\n", o.output.unwrap());
    let o = remove_via_line_number("", 1, false);
    assert_eq!("", o.output.unwrap());
}

#[test]
fn consecutive_matches_remove_each_following_line() {
    let o = remove_after_pattern("m\nm\nb\nc", "^m$", false).unwrap();
    assert_eq!("m\nc", o.output.unwrap());
    assert_eq!(2, o.matched);
}
