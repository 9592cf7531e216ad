use git_manager::tokens::Command;

#[test]
fn splits_on_whitespace() {
    let c = Command::tokenize("open alpha");
    assert_eq!(c.len(), 2);
    assert_eq!(c.raw_at(0).unwrap(), "open");
    assert_eq!(c.raw_at(1).unwrap(), "alpha");
}

#[test]
fn collapses_runs_of_whitespace() {
    let c = Command::tokenize("  upload\t all \r\n");
    assert_eq!(c.len(), 2);
    assert_eq!(c.raw_at(0).unwrap(), "upload");
    assert_eq!(c.raw_at(1).unwrap(), "all");
}

#[test]
fn empty_line_has_no_tokens() {
    let c = Command::tokenize("");
    assert_eq!(c.len(), 0);
    assert!(c.raw_at(0).is_none());
    let c = Command::tokenize("   \t ");
    assert_eq!(c.len(), 0);
}

#[test]
fn indexing_beyond_typed_tokens_is_absent() {
    let c = Command::tokenize("open alpha");
    assert!(c.raw_at(2).is_none());
    assert!(c.raw_at(100).is_none());
    assert!(c.norm_at(2).is_none());
    assert!(c.norm_at(100).is_none());
    assert!(!c.norm_is(2, "config"));
    assert!(!c.norm_is(100, ""));
}

#[test]
fn normalized_tokens_are_lower_cased() {
    let c = Command::tokenize("OPEN Alpha");
    assert_eq!(c.norm_at(0).unwrap(), "open");
    assert_eq!(c.norm_at(1).unwrap(), "alpha");
}

#[test]
fn raw_tokens_keep_their_case() {
    let c = Command::tokenize("OPEN Alpha");
    assert_eq!(c.raw_at(0).unwrap(), "OPEN");
    assert_eq!(c.raw_at(1).unwrap(), "Alpha");
}

#[test]
fn norm_is_matches_case_insensitively() {
    let c = Command::tokenize("Open CONFIG");
    assert!(c.norm_is(0, "open"));
    assert!(c.norm_is(1, "config"));
    assert!(!c.norm_is(1, "alpha"));
}

#[test]
fn has_norm_finds_a_flag_anywhere() {
    let c = Command::tokenize("upload all --FORCE");
    assert!(c.has_norm("--force"));
    let c = Command::tokenize("upload all");
    assert!(!c.has_norm("--force"));
}

#[test]
fn non_ascii_tokens_round_trip() {
    let c = Command::tokenize("open Grüße");
    assert_eq!(c.raw_at(1).unwrap(), "Grüße");
    assert_eq!(c.norm_at(1).unwrap(), "grüße");
}
