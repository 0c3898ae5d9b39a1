use change_summary::classify::{render, Classification};
use change_summary::report::{parse_line, parse_report, ClassificationTables, RenameRecord, ReportLine};
use change_summary::text::{collapse_text, find_text, rfind_text};

fn renamed(origin: &str, dest: &str, percent: &str) -> ReportLine {
    ReportLine::Renamed(RenameRecord {
        origin: origin.to_string(),
        dest: dest.to_string(),
        percent: percent.to_string(),
    })
}

fn tables_of(lines: &[&str]) -> (ClassificationTables, Vec<RenameRecord>) {
    let v: Vec<String> = lines.iter().map(|s| s.to_string()).collect();
    parse_report(&v)
}

#[test]
fn creation_line_enters_created() {
    let (t, renames) = tables_of(&["create mode 100644 src/new.rs"]);
    assert!(t.is_created("src/new.rs"));
    assert!(renames.is_empty());
    assert_eq!(t.classify("src/new.rs"), Classification::Created);
}

#[test]
fn deletion_line_enters_deleted() {
    let (t, _) = tables_of(&["  delete mode 100755 bin/old.sh  "]);
    assert!(t.is_deleted("bin/old.sh"));
    assert!(!t.is_created("bin/old.sh"));
    assert_eq!(t.classify("bin/old.sh"), Classification::Deleted);
}

#[test]
fn creation_without_path_is_ignored() {
    assert_eq!(parse_line("create mode 100644"), ReportLine::Other);
    let (t, _) = tables_of(&["create mode 100644"]);
    assert!(!t.is_created("100644"));
    assert!(!t.is_created(""));
}

#[test]
fn rename_plain_form_is_inverse() {
    let (t, renames) = tables_of(&["rename test.txt => test_wow.txt (100%)"]);
    assert_eq!(t.renamed_to("test.txt").map(|s| s.as_str()), Some("test_wow.txt"));
    assert_eq!(t.renamed_from("test_wow.txt").map(|s| s.as_str()), Some("test.txt"));
    assert_eq!(t.percent_of("test.txt").map(|s| s.as_str()), Some("100%"));
    assert_eq!(t.percent_of("test_wow.txt").map(|s| s.as_str()), Some("100%"));
    assert_eq!(renames.len(), 1);
    assert_eq!(renames[0].manifest_line(), "test.txt::test_wow.txt::100%\n");
}

#[test]
fn rename_bracket_form_is_inverse() {
    let (t, _) = tables_of(&["rename dir/{CertignaRoots.java => CertignaCA.java} (73%)"]);
    assert_eq!(t.renamed_to("dir/CertignaRoots.java").map(|s| s.as_str()), Some("dir/CertignaCA.java"));
    assert_eq!(t.renamed_from("dir/CertignaCA.java").map(|s| s.as_str()), Some("dir/CertignaRoots.java"));
}

#[test]
fn bracket_and_plain_forms_agree() {
    let a = parse_line("rename a/{x => y}/b.txt (90%)");
    let b = parse_line("rename a/x/b.txt => a/y/b.txt (90%)");
    assert_eq!(a, renamed("a/x/b.txt", "a/y/b.txt", "90%"));
    assert_eq!(a, b);
}

#[test]
fn empty_from_segment_collapses_separator() {
    assert_eq!(parse_line("rename src/{ => sub}/f.c (100%)"), renamed("src/f.c", "src/sub/f.c", "100%"));
    assert_eq!(
        parse_line("rename install/src/{ => Autoupdate}/SUInstaller.m (51%)"),
        renamed("install/src/SUInstaller.m", "install/src/Autoupdate/SUInstaller.m", "51%")
    );
}

#[test]
fn arrow_without_leading_space_is_no_delimiter() {
    assert_eq!(parse_line("rename src/{=> sub}/f.c (100%)"), ReportLine::Other);
}

#[test]
fn empty_to_segment_collapses_separator() {
    assert_eq!(
        parse_line("rename jdk/test/{closed => }/java/CRLFTest.java (53%)"),
        renamed("jdk/test/closed/java/CRLFTest.java", "jdk/test/java/CRLFTest.java", "53%")
    );
}

#[test]
fn created_wins_over_rename() {
    let (t, _) = tables_of(&["rename a.txt => b.txt (80%)", "create mode 100644 b.txt"]);
    assert_eq!(t.classify("b.txt"), Classification::Created);
    assert_eq!(t.classify("a.txt"), Classification::RenamedAway("80%".to_string()));
    let (t2, _) = tables_of(&["create mode 100644 b.txt", "rename a.txt => b.txt (80%)"]);
    assert_eq!(t2.classify("b.txt"), Classification::Created);
}

#[test]
fn deleted_wins_over_rename() {
    let (t, _) = tables_of(&["rename a.txt => b.txt (80%)", "delete mode 100644 a.txt"]);
    assert_eq!(t.classify("a.txt"), Classification::Deleted);
    assert_eq!(t.classify("b.txt"), Classification::RenamedIn("80%".to_string()));
}

#[test]
fn rename_without_percent_is_unchanged() {
    let (t, renames) = tables_of(&["rename old.rs => new.rs"]);
    assert_eq!(t.renamed_to("old.rs").map(|s| s.as_str()), Some("new.rs"));
    assert_eq!(t.renamed_from("new.rs").map(|s| s.as_str()), Some("old.rs"));
    assert!(t.percent_of("old.rs").is_none());
    assert!(t.percent_of("new.rs").is_none());
    assert_eq!(t.classify("old.rs"), Classification::Unchanged);
    assert_eq!(t.classify("new.rs"), Classification::Unchanged);
    assert_eq!(renames[0].manifest_line(), "old.rs::new.rs::\n");
}

#[test]
fn empty_percent_enters_no_percentage() {
    assert_eq!(parse_line("rename a => b ()"), renamed("a", "b", ""));
    let (t, _) = tables_of(&["rename a => b ()"]);
    assert!(t.percent_of("a").is_none());
}

#[test]
fn classifying_twice_gives_same_output() {
    let (t, _) = tables_of(&[
        "create mode 100644 c.rs",
        "delete mode 100644 d.rs",
        "rename x.rs => y.rs (60%)",
    ]);
    let paths: Vec<String> = ["c.rs", " d.rs ", "x.rs", "y.rs", "z.rs"].iter().map(|s| s.to_string()).collect();
    let first = t.classify_all(&paths);
    let second = t.classify_all(&paths);
    assert_eq!(first, second);
    assert_eq!(
        first,
        vec![
            Classification::Created,
            Classification::Deleted,
            Classification::RenamedAway("60%".to_string()),
            Classification::RenamedIn("60%".to_string()),
            Classification::Unchanged,
        ]
    );
    let out1: Vec<String> = first.iter().zip(paths.iter()).map(|(c, p)| render(c, p.trim())).collect();
    let out2: Vec<String> = second.iter().zip(paths.iter()).map(|(c, p)| render(c, p.trim())).collect();
    assert_eq!(out1, out2);
}

#[test]
fn malformed_rename_enters_nothing() {
    assert_eq!(parse_line("rename foo"), ReportLine::Other);
    let (t, renames) = tables_of(&["rename foo", "rename foo (50%)", "modified: x", ""]);
    assert!(renames.is_empty());
    assert!(t.renamed_to("foo").is_none());
    assert!(t.renamed_from("foo").is_none());
    assert!(t.percent_of("foo").is_none());
    assert!(!t.is_created("foo"));
    assert!(!t.is_deleted("foo"));
    assert_eq!(t.classify("foo"), Classification::Unchanged);
}

#[test]
fn misordered_brackets_enter_nothing() {
    assert_eq!(parse_line("rename a => {b}"), ReportLine::Other);
    assert_eq!(parse_line("rename }a{ => b"), ReportLine::Other);
}

#[test]
fn one_bracket_reads_plain_form() {
    assert_eq!(parse_line("rename a{ => b (10%)"), renamed("a{", "b", "10%"));
}

#[test]
fn later_rename_replaces_earlier() {
    let (t, renames) = tables_of(&["rename a => b (10%)", "rename a => c (20%)"]);
    assert_eq!(t.renamed_to("a").map(|s| s.as_str()), Some("c"));
    assert_eq!(t.renamed_from("b").map(|s| s.as_str()), Some("a"));
    assert_eq!(t.percent_of("a").map(|s| s.as_str()), Some("20%"));
    assert_eq!(renames.len(), 2);
}

#[test]
fn parse_line_trims() {
    assert_eq!(parse_line("\t create mode 100644 x.rs \n"), ReportLine::Created("x.rs".to_string()));
    let (t, _) = tables_of(&["create mode 100644 x.rs"]);
    assert_eq!(t.classify_line("  x.rs\t"), Classification::Created);
    assert_eq!(t.classify(" x.rs"), Classification::Unchanged);
}

#[test]
fn percent_suffix_with_parentheses_in_path() {
    assert_eq!(parse_line("rename a (1).txt => b.txt (75%)"), renamed("a (1).txt", "b.txt", "75%"));
}

#[test]
fn unicode_paths_are_kept() {
    assert_eq!(parse_line("rename d\u{e9}j\u{e0}/{\u{e9} => \u{fc}}.txt (42%)"), renamed("d\u{e9}j\u{e0}/\u{e9}.txt", "d\u{e9}j\u{e0}/\u{fc}.txt", "42%"));
}

#[test]
fn render_lines_exact() {
    assert_eq!(render(&Classification::Created, "p"), "\x1b[32m\u{25cf}\x1b[0m p\n");
    assert_eq!(render(&Classification::Deleted, "p"), "\x1b[31m\u{25cf}\x1b[0m p\n");
    assert_eq!(render(&Classification::Unchanged, "p"), "\x1b[34m\u{25aa}\x1b[0m p\n");
    assert_eq!(
        render(&Classification::RenamedAway("9%".to_string()), "p"),
        "\x1b[31m\u{2190}\x1b[0m p\t\t\x1b[33m(9%)\x1b[0m\n"
    );
    assert_eq!(
        render(&Classification::RenamedIn("9%".to_string()), "p"),
        "\x1b[32m\u{2192}\x1b[0m p\t\t\x1b[33m(9%)\x1b[0m\n"
    );
}

#[test]
fn text_helpers() {
    assert_eq!(find_text("a => b => c", " => "), Some(1));
    assert_eq!(rfind_text("a => b => c", " => "), Some(6));
    assert_eq!(find_text("abc", "x"), None);
    assert_eq!(collapse_text("a///b//c/"), "a//b/c/");
}

#[test]
fn percent_needs_closing_after_opening() {
    assert_eq!(parse_line("rename a) => b (x"), renamed("a)", "b (x", ""));
}
