use std::path::PathBuf;

use gix_kit::glob::{Case, Pattern, ABSOLUTE, ENDS_WITH, MUST_BE_DIR, NEGATIVE, NO_SUB_DIR};
use gix_kit::ignore::parse::{parse, parse_line, truncate_non_escaped_trailing_spaces};
use gix_kit::ignore::search::{
    pattern_idx_matching_relative_path, pattern_matching_relative_path, Ignore, List, Mapping,
};
use gix_kit::ignore::{Kind, Search};

fn plain() -> Ignore {
    Ignore { support_precious: false }
}

fn precious() -> Ignore {
    Ignore { support_precious: true }
}

fn search_of(bytes: &[u8]) -> Search {
    let mut search = Search::default();
    search.add_patterns_buffer(bytes, PathBuf::from(".gitignore"), None, plain());
    search
}

#[test]
fn last_matching_line_of_a_list_wins() {
    let search = search_of(b"*.log\ndebug.log\n");
    let found = search
        .pattern_matching_relative_path(b"a/debug.log", Some(false), Case::Sensitive)
        .expect("both lines match");
    assert_eq!(found.sequence_number, 2);
    assert_eq!(found.pattern.text, b"debug.log".to_vec());
    assert_eq!(found.kind, Kind::Expendable);
    assert_eq!(found.source, Some(&PathBuf::from(".gitignore")));
    assert_eq!(
        search.pattern_idx_matching_relative_path(b"a/debug.log", Some(false), Case::Sensitive),
        Some((0, 1))
    );
}

#[test]
fn earlier_line_governs_where_the_later_does_not_match() {
    let search = search_of(b"*.log\ndebug.log\n");
    let found = search
        .pattern_matching_relative_path(b"a/other.log", None, Case::Sensitive)
        .expect("the first line matches");
    assert_eq!(found.sequence_number, 1);
    assert_eq!(found.pattern.text, b"*.log".to_vec());
}

#[test]
fn directory_pattern_needs_a_directory() {
    let search = search_of(b"target/\n");
    assert_eq!(search.patterns[0].patterns[0].pattern.mode & MUST_BE_DIR, MUST_BE_DIR);
    assert!(search
        .pattern_matching_relative_path(b"target", Some(false), Case::Sensitive)
        .is_none());
    assert!(search
        .pattern_matching_relative_path(b"target", None, Case::Sensitive)
        .is_none());
    let found = search
        .pattern_matching_relative_path(b"target", Some(true), Case::Sensitive)
        .expect("a directory of that name is ignored");
    assert_eq!(found.sequence_number, 1);
}

#[test]
fn empty_buffer_adds_an_empty_list() {
    let mut search = search_of(b"*.log\n");
    let before = search
        .pattern_idx_matching_relative_path(b"x.log", None, Case::Sensitive);
    assert_eq!(before, Some((0, 0)));
    search.add_patterns_buffer(b"", PathBuf::from("sub/.gitignore"), Some(b"sub"), plain());
    assert_eq!(search.patterns.len(), 2);
    assert!(search.patterns[1].patterns.is_empty());
    assert_eq!(search.patterns[1].base, Some(b"sub/".to_vec()));
    assert_eq!(
        search.pattern_idx_matching_relative_path(b"x.log", None, Case::Sensitive),
        before
    );
    assert_eq!(
        search.pattern_idx_matching_relative_path(b"sub/x.log", None, Case::Sensitive),
        Some((0, 0))
    );
}

#[test]
fn repository_files_make_up_to_two_lists() {
    let only_local = Search::from_git_dir(
        None,
        Some((PathBuf::from(".git/info/exclude"), b"*.tmp\n".to_vec())),
        plain(),
    );
    assert_eq!(only_local.patterns.len(), 1);
    assert_eq!(only_local.patterns[0].source, Some(PathBuf::from(".git/info/exclude")));
    assert_eq!(only_local.patterns[0].base, None);
    assert!(only_local
        .pattern_matching_relative_path(b"a.tmp", None, Case::Sensitive)
        .is_some());

    let none = Search::from_git_dir(None, None, plain());
    assert_eq!(none.patterns.len(), 0);
    assert!(none.pattern_matching_relative_path(b"a.tmp", None, Case::Sensitive).is_none());
    assert!(none.pattern_matching_relative_path(b"", None, Case::Fold).is_none());
    assert!(none.pattern_idx_matching_relative_path(b"dir/file", Some(true), Case::Sensitive).is_none());
}

#[test]
fn repository_file_outranks_the_global_one() {
    let search = Search::from_git_dir(
        Some((PathBuf::from("/home/user/.gitignore"), b"*.o\n".to_vec())),
        Some((PathBuf::from(".git/info/exclude"), b"\n\nmain.o\n".to_vec())),
        plain(),
    );
    assert_eq!(search.patterns.len(), 2);
    let found = search
        .pattern_matching_relative_path(b"src/main.o", None, Case::Sensitive)
        .expect("both files match");
    assert_eq!(found.source, Some(&PathBuf::from(".git/info/exclude")));
    assert_eq!(found.sequence_number, 3);
    let other = search
        .pattern_matching_relative_path(b"src/lib.o", None, Case::Sensitive)
        .expect("the global file matches");
    assert_eq!(other.source, Some(&PathBuf::from("/home/user/.gitignore")));
    assert_eq!(other.sequence_number, 1);
}

#[test]
fn added_list_leaves_paths_outside_its_base_alone() {
    let mut search = search_of(b"*.log\nbuild\n");
    let paths: [&[u8]; 4] = [b"a.log", b"other/a.log", b"build", b"subdir/a.log"];
    let before: Vec<_> = paths
        .iter()
        .map(|p| search.pattern_idx_matching_relative_path(p, None, Case::Sensitive))
        .collect();
    search.add_patterns_buffer(b"*\n", PathBuf::from("sub/.gitignore"), Some(b"sub"), plain());
    let after: Vec<_> = paths
        .iter()
        .map(|p| search.pattern_idx_matching_relative_path(p, None, Case::Sensitive))
        .collect();
    assert_eq!(before, after);
    assert_eq!(
        search.pattern_idx_matching_relative_path(b"sub/a.log", None, Case::Sensitive),
        Some((1, 0))
    );
}

#[test]
fn later_list_wins_over_earlier_list() {
    let mut search = Search::default();
    search.add_patterns_buffer(b"*.log\n", PathBuf::from("first"), None, plain());
    search.add_patterns_buffer(b"# nothing\nwanted.log\n", PathBuf::from("second"), None, plain());
    let found = search
        .pattern_matching_relative_path(b"wanted.log", None, Case::Sensitive)
        .expect("both lists match");
    assert_eq!(found.source, Some(&PathBuf::from("second")));
    assert_eq!(found.sequence_number, 2);
    assert_eq!(
        search.pattern_idx_matching_relative_path(b"wanted.log", None, Case::Sensitive),
        Some((1, 0))
    );
}

#[test]
fn base_keeps_patterns_inside_their_directory() {
    let mut search = Search::default();
    search.add_patterns_buffer(b"*.txt\n", PathBuf::from("sub/.gitignore"), Some(b"sub"), plain());
    assert_eq!(search.patterns[0].base, Some(b"sub/".to_vec()));
    for outside in [&b"a.txt"[..], b"subx/a.txt", b"su", b"sub", b"other/sub/a.txt", b"SUB/a.txt"] {
        assert!(
            search.pattern_matching_relative_path(outside, None, Case::Sensitive).is_none(),
            "{:?} lies outside of the base",
            outside
        );
    }
    for inside in [&b"sub/a.txt"[..], b"sub/deep/a.txt"] {
        assert!(
            search.pattern_matching_relative_path(inside, None, Case::Sensitive).is_some(),
            "{:?} lies below the base",
            inside
        );
    }
}

#[test]
fn base_is_compared_as_the_case_says() {
    let mut search = Search::default();
    search.add_patterns_buffer(b"*.txt\n", PathBuf::from("sub/.gitignore"), Some(b"Sub"), plain());
    assert!(search.pattern_matching_relative_path(b"sub/a.txt", None, Case::Sensitive).is_none());
    assert!(search.pattern_matching_relative_path(b"sub/a.txt", None, Case::Fold).is_some());
    assert!(search.pattern_matching_relative_path(b"SUB/A.TXT", None, Case::Fold).is_some());
    assert!(search.pattern_matching_relative_path(b"SUB/A.TXT", None, Case::Sensitive).is_none());
}

#[test]
fn anchored_pattern_is_relative_to_the_base() {
    let mut search = Search::default();
    search.add_patterns_buffer(b"/build\n", PathBuf::from("sub/.gitignore"), Some(b"sub"), plain());
    assert!(search.pattern_matching_relative_path(b"sub/build", None, Case::Sensitive).is_some());
    assert!(search.pattern_matching_relative_path(b"sub/deep/build", None, Case::Sensitive).is_none());
}

#[test]
fn empty_base_means_no_base() {
    let mut search = Search::default();
    search.add_patterns_buffer(b"x\n", PathBuf::from(".gitignore"), Some(b""), plain());
    assert_eq!(search.patterns[0].base, None);
    assert!(search.pattern_matching_relative_path(b"deep/x", None, Case::Sensitive).is_some());
}

#[test]
fn marker_is_literal_without_precious_support() {
    let parsed = parse(b"$keep\n", false);
    assert_eq!(parsed.len(), 1);
    assert_eq!(parsed[0].0.text, b"$keep".to_vec());
    assert_eq!(parsed[0].1, 1);
    assert_eq!(parsed[0].2, Kind::Expendable);
    assert_eq!(
        parse_line(b"$keep", false).map(|(p, k)| (p.text, k)),
        Some((b"$keep".to_vec(), Kind::Expendable))
    );
}

#[test]
fn marker_is_stripped_with_precious_support() {
    let parsed = parse(b"$keep\nplain\n", true);
    assert_eq!(parsed.len(), 2);
    assert_eq!(parsed[0].0.text, b"keep".to_vec());
    assert_eq!(parsed[0].1, 1);
    assert_eq!(parsed[0].2, Kind::Precious);
    assert_eq!(parsed[1].0.text, b"plain".to_vec());
    assert_eq!(parsed[1].2, Kind::Expendable);
}

#[test]
fn precious_pattern_does_not_negate() {
    let parsed = parse(b"$!keep\n!gone\n", true);
    assert_eq!(parsed[0].0.text, b"!keep".to_vec());
    assert_eq!(parsed[0].0.mode & NEGATIVE, 0);
    assert_eq!(parsed[0].2, Kind::Precious);
    assert_eq!(parsed[1].0.text, b"gone".to_vec());
    assert_eq!(parsed[1].0.mode & NEGATIVE, NEGATIVE);
    assert_eq!(parsed[1].2, Kind::Expendable);
}

#[test]
fn precious_kind_reaches_the_match() {
    let mut search = Search::default();
    search.add_patterns_buffer(b"*.o\n$.env\n", PathBuf::from(".gitignore"), None, precious());
    let found = search
        .pattern_matching_relative_path(b".env", None, Case::Sensitive)
        .expect("the second line matches");
    assert_eq!(found.kind, Kind::Precious);
    assert_eq!(found.sequence_number, 2);
    let other = search
        .pattern_matching_relative_path(b"a.o", None, Case::Sensitive)
        .expect("the first line matches");
    assert_eq!(other.kind, Kind::Expendable);
}

#[test]
fn repeated_queries_agree() {
    let mut search = search_of(b"*.log\n!keep.log\n/top\n");
    search.add_patterns_buffer(b"inner\n", PathBuf::from("d/.gitignore"), Some(b"d"), plain());
    for path in [&b"a.log"[..], b"keep.log", b"top", b"d/inner", b"d/top", b"none"] {
        let first = search.pattern_matching_relative_path(path, Some(false), Case::Sensitive);
        let second = search.pattern_matching_relative_path(path, Some(false), Case::Sensitive);
        assert_eq!(first, second);
        let at = search.pattern_idx_matching_relative_path(path, Some(false), Case::Sensitive);
        assert_eq!(first.is_some(), at.is_some());
        if let (Some(found), Some((list, index))) = (first, at) {
            assert_eq!(found.pattern, &search.patterns[list].patterns[index].pattern);
        }
    }
}

#[test]
fn lines_are_numbered_from_one_and_comments_count() {
    let parsed = parse(b"# comment\n\n*.o\r\n  \n/abs/\nlast", false);
    let seen: Vec<(Vec<u8>, usize)> = parsed.iter().map(|e| (e.0.text.clone(), e.1)).collect();
    assert_eq!(
        seen,
        vec![(b"*.o".to_vec(), 3), (b"abs".to_vec(), 5), (b"last".to_vec(), 6)]
    );
    assert_eq!(parsed[0].0.mode, NO_SUB_DIR | ENDS_WITH);
    assert_eq!(parsed[0].0.first_wildcard_pos, Some(0));
    assert_eq!(parsed[1].0.mode, NO_SUB_DIR | ABSOLUTE | MUST_BE_DIR);
    assert_eq!(parsed[1].0.first_wildcard_pos, None);
}

#[test]
fn empty_input_has_no_patterns() {
    assert!(parse(b"", false).is_empty());
    assert!(parse(b"\n\n", true).is_empty());
    assert!(parse(b"#only a comment", true).is_empty());
}

#[test]
fn trailing_spaces_go_unless_escaped() {
    assert_eq!(truncate_non_escaped_trailing_spaces(b"foo   "), b"foo");
    assert_eq!(truncate_non_escaped_trailing_spaces(b"foo\\ "), b"foo\\ ");
    assert_eq!(truncate_non_escaped_trailing_spaces(b"foo\\  "), b"foo\\ ");
    assert_eq!(truncate_non_escaped_trailing_spaces(b"foo\\\\ "), b"foo\\\\");
    assert_eq!(truncate_non_escaped_trailing_spaces(b"a b"), b"a b");
    assert_eq!(truncate_non_escaped_trailing_spaces(b"   "), b"");
    assert_eq!(truncate_non_escaped_trailing_spaces(b""), b"");
    let parsed = parse(b"name  \nkept\\ \n", false);
    assert_eq!(parsed[0].0.text, b"name".to_vec());
    assert_eq!(parsed[1].0.text, b"kept\\ ".to_vec());
}

#[test]
fn overrides_are_numbered_by_position() {
    let search = Search::from_overrides(
        vec![b"*.a".to_vec(), b"".to_vec(), b"# no".to_vec(), b"b\nc".to_vec(), b"$d".to_vec()],
        precious(),
    );
    assert_eq!(search.patterns.len(), 1);
    let list = &search.patterns[0];
    assert_eq!(list.source, None);
    assert_eq!(list.base, None);
    let seen: Vec<(Vec<u8>, usize, Kind)> = list
        .patterns
        .iter()
        .map(|m| (m.pattern.text.clone(), m.sequence_number, m.value))
        .collect();
    assert_eq!(
        seen,
        vec![
            (b"*.a".to_vec(), 1, Kind::Expendable),
            (b"b".to_vec(), 4, Kind::Expendable),
            (b"d".to_vec(), 5, Kind::Precious),
        ]
    );
    let found = search
        .pattern_matching_relative_path(b"dir/b", None, Case::Sensitive)
        .expect("the fourth override matches");
    assert_eq!(found.sequence_number, 4);
    assert_eq!(found.source, None);
}

#[test]
fn no_overrides_give_one_empty_list() {
    let search = Search::from_overrides(Vec::new(), plain());
    assert_eq!(search.patterns.len(), 1);
    assert!(search.patterns[0].patterns.is_empty());
    assert!(search.pattern_matching_relative_path(b"any", None, Case::Sensitive).is_none());
}

#[test]
fn bytes_to_patterns_keeps_line_numbers() {
    let mappings = precious().bytes_to_patterns(b"a\n\n$b\n", &PathBuf::from("x"));
    assert_eq!(mappings.len(), 2);
    assert_eq!(mappings[0].sequence_number, 1);
    assert_eq!(mappings[0].value, Kind::Expendable);
    assert_eq!(mappings[1].sequence_number, 3);
    assert_eq!(mappings[1].value, Kind::Precious);
    assert_eq!(mappings[1].pattern.text, b"b".to_vec());
}

#[test]
fn list_can_be_asked_with_a_known_basename() {
    let list = List {
        patterns: vec![
            Mapping {
                pattern: Pattern { text: b"*.rs".to_vec(), mode: NO_SUB_DIR | ENDS_WITH, first_wildcard_pos: Some(0) },
                value: Kind::Expendable,
                sequence_number: 7,
            },
            Mapping {
                pattern: Pattern { text: b"src/gen".to_vec(), mode: 0, first_wildcard_pos: None },
                value: Kind::Precious,
                sequence_number: 9,
            },
        ],
        source: None,
        base: Some(b"crate/".to_vec()),
    };
    assert_eq!(
        pattern_idx_matching_relative_path(&list, b"crate/src/lib.rs", Some(10), None, Case::Sensitive),
        Some(0)
    );
    assert_eq!(
        pattern_idx_matching_relative_path(&list, b"crate/src/lib.rs", None, None, Case::Sensitive),
        Some(0)
    );
    assert_eq!(
        pattern_idx_matching_relative_path(&list, b"crate/src/gen", Some(10), None, Case::Sensitive),
        Some(1)
    );
    assert_eq!(
        pattern_idx_matching_relative_path(&list, b"crate/lib.rs", Some(6), None, Case::Sensitive),
        Some(0)
    );
    assert_eq!(
        pattern_idx_matching_relative_path(&list, b"src/lib.rs", Some(4), None, Case::Sensitive),
        None
    );
    assert_eq!(
        pattern_idx_matching_relative_path(&list, b"lib.rs", Some(0), None, Case::Sensitive),
        None
    );
    let found = pattern_matching_relative_path(&list, b"crate/src/gen", None, Some(true), Case::Sensitive)
        .expect("the second pattern matches");
    assert_eq!(found.kind, Kind::Precious);
    assert_eq!(found.sequence_number, 9);
    assert_eq!(found.source, None);
    assert_eq!(found.pattern.text, b"src/gen".to_vec());
}

#[test]
fn wildcards_do_not_cross_directories() {
    let search = search_of(b"a/*.c\n");
    assert!(search.pattern_matching_relative_path(b"a/x.c", None, Case::Sensitive).is_some());
    assert!(search.pattern_matching_relative_path(b"a/b/x.c", None, Case::Sensitive).is_none());
    assert!(search.pattern_matching_relative_path(b"x.c", None, Case::Sensitive).is_none());
}

#[test]
fn case_of_letters_matters_only_when_asked() {
    let search = search_of(b"README.md\n");
    assert!(search.pattern_matching_relative_path(b"readme.md", None, Case::Sensitive).is_none());
    assert!(search.pattern_matching_relative_path(b"readme.md", None, Case::Fold).is_some());
}

#[test]
fn negated_pattern_is_reported_with_its_mode() {
    let search = search_of(b"*.log\n!keep.log\n");
    let found = search
        .pattern_matching_relative_path(b"keep.log", None, Case::Sensitive)
        .expect("the negated pattern matches");
    assert_eq!(found.sequence_number, 2);
    assert_eq!(found.pattern.mode & NEGATIVE, NEGATIVE);
    assert_eq!(found.pattern.text, b"keep.log".to_vec());
}

#[test]
fn search_tells_which_paths_it_takes() {
    let mut search = search_of(b"*.log\n");
    search.add_patterns_buffer(b"x\n", PathBuf::from("sub/.gitignore"), Some(b"sub"), plain());
    assert!(search.accepts(b"a.log", Case::Sensitive));
    assert!(search.accepts(b"sub/x", Case::Sensitive));
    assert!(search.accepts(b"", Case::Sensitive));
    assert!(!search.accepts(b"/a.log", Case::Sensitive));
    assert!(!search.accepts(b"sub//x", Case::Sensitive));
    assert!(!search.accepts(b"SUB//x", Case::Fold));
    assert!(search.accepts(b"a//x", Case::Sensitive));
    assert!(search.patterns[0].is_wf());
    assert!(search.patterns[1].accepts(b"/outside", Case::Sensitive));
    assert!(!search.patterns[0].accepts(b"/outside", Case::Sensitive));
}

#[test]
fn malformed_lists_are_told_apart() {
    let good = Pattern { text: b"a*".to_vec(), mode: NO_SUB_DIR, first_wildcard_pos: Some(1) };
    let bad = Pattern { text: b"a*".to_vec(), mode: NO_SUB_DIR, first_wildcard_pos: Some(2) };
    let list = |pattern: Pattern, base: Option<&[u8]>| List {
        patterns: vec![Mapping { pattern, value: Kind::Expendable, sequence_number: 1 }],
        source: None,
        base: base.map(|b| b.to_vec()),
    };
    assert!(list(good.clone(), None).is_wf());
    assert!(list(good.clone(), Some(b"dir/")).is_wf());
    assert!(!list(good.clone(), Some(b"dir")).is_wf());
    assert!(!list(good.clone(), Some(b"")).is_wf());
    assert!(!list(bad, None).is_wf());
    let search = Search { patterns: vec![list(good, Some(b"dir"))] };
    assert!(!search.accepts(b"dir/a", Case::Sensitive));
}
