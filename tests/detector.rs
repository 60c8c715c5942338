use enchant::git::{Ancestor, Git, Marker};
use enchant::stat::{ControlDir, Operation, RebaseApplyDir, RebaseMergeDir, Stat};
use enchant::text::join_path;
use enchant::utility::{conditional, read_maybe_missing_file, EnchantError, MarkerFile};

fn file(path: &str, contents: Option<&str>) -> MarkerFile {
    MarkerFile { path: path.to_string(), contents: contents.map(|c| c.to_string()) }
}

fn ancestor(path: &str, marker: Marker) -> Ancestor {
    Ancestor { path: path.to_string(), marker }
}

fn quiet_dir(head: Option<&str>) -> ControlDir {
    ControlDir {
        head: file("/repo/.git/HEAD", head),
        rebase_merge: None,
        rebase_apply: None,
        merge_head: false,
        cherry_pick_head: false,
        revert_head: false,
        bisect_log: false,
    }
}

fn rebase_merge(msgnum: Option<&str>, end: Option<&str>, interactive: bool) -> RebaseMergeDir {
    RebaseMergeDir {
        head_name: file("/repo/.git/rebase-merge/head-name", Some("refs/heads/topic\n")),
        msgnum: file("/repo/.git/rebase-merge/msgnum", msgnum),
        end: file("/repo/.git/rebase-merge/end", end),
        interactive,
    }
}

fn rebase_apply(next: Option<&str>, rebasing: bool, applying: bool, head_name: Option<&str>) -> RebaseApplyDir {
    RebaseApplyDir {
        next: file("/repo/.git/rebase-apply/next", next),
        last: file("/repo/.git/rebase-apply/last", Some("4\n")),
        head_name: file("/repo/.git/rebase-apply/head-name", head_name),
        rebasing,
        applying,
    }
}

fn plain_repo() -> Git {
    Git::get(&vec![ancestor("/repo", Marker::Directory), ancestor("/", Marker::Absent)]).unwrap()
}

#[test]
fn no_control_directory_gives_empty_chain() {
    let anc = vec![
        ancestor("/tmp/work", Marker::Absent),
        ancestor("/tmp", Marker::Absent),
        ancestor("/", Marker::Absent),
    ];
    let g = Git::get(&anc).unwrap();
    assert!(g.chain().is_empty());
    assert!(!g.in_submodule());
    assert!(g.portion(&quiet_dir(Some("ref: refs/heads/main\n"))).unwrap().is_none());
    assert_eq!(g.branch(&file("/x/HEAD", Some("ref: refs/heads/main\n"))).unwrap(), "");
}

#[test]
fn empty_walk_gives_empty_chain() {
    let g = Git::get(&vec![]).unwrap();
    assert!(g.chain().is_empty());
}

#[test]
fn single_repository_chain_holds_its_git_directory() {
    let anc = vec![
        ancestor("/home/u/proj/src", Marker::Absent),
        ancestor("/home/u/proj", Marker::Directory),
        ancestor("/home/u", Marker::Absent),
        ancestor("/", Marker::Absent),
    ];
    let g = Git::get(&anc).unwrap();
    assert_eq!(g.chain(), &vec!["/home/u/proj/.git".to_string()]);
    assert!(!g.in_submodule());
}

#[test]
fn repository_at_filesystem_root() {
    let g = Git::get(&vec![ancestor("/", Marker::Directory)]).unwrap();
    assert_eq!(g.chain(), &vec!["/.git".to_string()]);
}

#[test]
fn submodule_chain_is_nearest_first() {
    let anc = vec![
        ancestor("/r/sub", Marker::File("gitdir: ../.git/modules/sub\n".to_string())),
        ancestor("/r", Marker::Directory),
        ancestor("/", Marker::Absent),
    ];
    let g = Git::get(&anc).unwrap();
    assert_eq!(
        g.chain(),
        &vec!["/r/sub/../.git/modules/sub".to_string(), "/r/.git".to_string()]
    );
    assert!(g.in_submodule());
}

#[test]
fn indirection_resolves_against_its_ancestor() {
    let anc = vec![ancestor(
        "/home/u/proj/foo",
        Marker::File("gitdir: ../.git/modules/foo\n".to_string()),
    )];
    let g = Git::get(&anc).unwrap();
    assert_eq!(g.chain(), &vec!["/home/u/proj/foo/../.git/modules/foo".to_string()]);
}

#[test]
fn absolute_indirection_replaces_the_ancestor() {
    let anc = vec![ancestor("/w/tree", Marker::File("  gitdir: /r/.git/worktrees/tree \n".to_string()))];
    let g = Git::get(&anc).unwrap();
    assert_eq!(g.chain(), &vec!["/r/.git/worktrees/tree".to_string()]);
}

#[test]
fn malformed_indirection_fails() {
    let anc = vec![
        ancestor("/p/child", Marker::Absent),
        ancestor("/p", Marker::File("not-a-gitdir-line".to_string())),
        ancestor("/", Marker::Directory),
    ];
    match Git::get(&anc) {
        Err(EnchantError::MalformedIndirection(p)) => assert_eq!(p, "/p/.git"),
        other => panic!("unexpected {:?}", other),
    }
}

#[test]
fn branch_from_ref() {
    let g = plain_repo();
    assert_eq!(g.branch(&file("/repo/.git/HEAD", Some("ref: refs/heads/main\n"))).unwrap(), "main");
}

#[test]
fn branch_of_detached_head() {
    let g = plain_repo();
    let head = file("/repo/.git/HEAD", Some("0123abcd4567ef890123abcd4567ef8901234567\n"));
    assert_eq!(g.branch(&head).unwrap(), "HEAD-0123abcd");
}

#[test]
fn branch_without_head_is_empty() {
    let g = plain_repo();
    assert_eq!(g.branch(&file("/repo/.git/HEAD", None)).unwrap(), "");
}

#[test]
fn short_detached_head_fails() {
    let g = plain_repo();
    match g.branch(&file("/repo/.git/HEAD", Some("abc\n"))) {
        Err(EnchantError::MalformedHead(p)) => assert_eq!(p, "/repo/.git/HEAD"),
        other => panic!("unexpected {:?}", other),
    }
}

#[test]
fn rebase_merge_wins_over_merge_head() {
    let mut d = quiet_dir(Some("ref: refs/heads/main\n"));
    d.rebase_merge = Some(rebase_merge(Some("1\n"), Some("3\n"), false));
    d.merge_head = true;
    d.cherry_pick_head = true;
    let s = Stat::get(&d).unwrap();
    assert_eq!(s.operation, Some(Operation::RebaseMerge));
    assert_eq!(s.operation.unwrap().label(), "REBASE-m");
    assert_eq!(s.ratio, " 1/3");
    assert_eq!(s.head_name, "refs/heads/topic\n");
}

#[test]
fn interactive_rebase_merge() {
    let mut d = quiet_dir(None);
    d.rebase_merge = Some(rebase_merge(Some("2\n"), Some("5\n"), true));
    let s = Stat::get(&d).unwrap();
    assert_eq!(s.operation, Some(Operation::RebaseInteractive));
}

#[test]
fn progress_is_step_over_total() {
    let mut d = quiet_dir(None);
    d.rebase_merge = Some(rebase_merge(Some("3\n"), Some("7\n"), true));
    assert_eq!(Stat::get(&d).unwrap().ratio, " 3/7");
}

#[test]
fn blank_step_gives_no_progress() {
    let mut d = quiet_dir(None);
    d.rebase_merge = Some(rebase_merge(Some(" \n"), Some("7\n"), false));
    let s = Stat::get(&d).unwrap();
    assert_eq!(s.ratio, "");
    assert_eq!(s.operation, Some(Operation::RebaseMerge));
}

#[test]
fn missing_msgnum_fails() {
    let mut d = quiet_dir(None);
    d.rebase_merge = Some(rebase_merge(None, Some("7\n"), false));
    match Stat::get(&d) {
        Err(EnchantError::MissingFile(p)) => assert_eq!(p, "/repo/.git/rebase-merge/msgnum"),
        other => panic!("unexpected {:?}", other),
    }
}

#[test]
fn no_operation_present() {
    let s = Stat::get(&quiet_dir(Some("ref: refs/heads/main\n"))).unwrap();
    assert_eq!(s.operation, None);
    assert_eq!(s.ratio, "");
}

#[test]
fn missing_next_in_rebase_apply_fails() {
    let mut d = quiet_dir(None);
    d.rebase_apply = Some(rebase_apply(None, false, true, None));
    d.merge_head = true;
    match Stat::get(&d) {
        Err(EnchantError::MissingFile(p)) => assert_eq!(p, "/repo/.git/rebase-apply/next"),
        other => panic!("unexpected {:?}", other),
    }
}

#[test]
fn rebase_apply_variants() {
    let mut d = quiet_dir(None);
    d.rebase_apply = Some(rebase_apply(Some("2\n"), true, false, Some("refs/heads/x\n")));
    let s = Stat::get(&d).unwrap();
    assert_eq!(s.operation, Some(Operation::Rebase));
    assert_eq!(s.ratio, " 2/4");
    assert_eq!(s.head_name, "refs/heads/x\n");

    d.rebase_apply = Some(rebase_apply(Some("2\n"), false, true, None));
    assert_eq!(Stat::get(&d).unwrap().operation, Some(Operation::Am));

    d.rebase_apply = Some(rebase_apply(Some("2\n"), false, false, None));
    let s = Stat::get(&d).unwrap();
    assert_eq!(s.operation, Some(Operation::AmOrRebase));
    assert_eq!(s.operation.unwrap().label(), "AM/REBASE");
}

#[test]
fn rebasing_without_head_name_fails() {
    let mut d = quiet_dir(None);
    d.rebase_apply = Some(rebase_apply(Some("2\n"), true, false, None));
    match Stat::get(&d) {
        Err(EnchantError::MissingFile(p)) => assert_eq!(p, "/repo/.git/rebase-apply/head-name"),
        other => panic!("unexpected {:?}", other),
    }
}

#[test]
fn single_markers_in_order() {
    let mut d = quiet_dir(None);
    d.revert_head = true;
    d.bisect_log = true;
    assert_eq!(Stat::get(&d).unwrap().operation, Some(Operation::Reverting));
    d.cherry_pick_head = true;
    let s = Stat::get(&d).unwrap();
    assert_eq!(s.operation, Some(Operation::CherryPicking));
    assert_eq!(s.operation.unwrap().label(), "CHERRY-PICKING");
    d.merge_head = true;
    assert_eq!(Stat::get(&d).unwrap().operation.unwrap().label(), "MERGING");
    let mut d = quiet_dir(None);
    d.bisect_log = true;
    assert_eq!(Stat::get(&d).unwrap().operation.unwrap().label(), "BISECTING");
}

#[test]
fn interactive_rebase_fragment() {
    let g = plain_repo();
    let mut d = quiet_dir(Some("ref: refs/heads/feature-x\n"));
    d.rebase_merge = Some(rebase_merge(Some("2\n"), Some("5\n"), true));
    let p = g.portion(&d).unwrap().unwrap();
    assert_eq!(p.plain(), "[feature-x | REBASE-i 2/5]");
    assert_eq!(p.submodule, "");
    assert_eq!(p.operation, "REBASE-i");
}

#[test]
fn submodule_fragment() {
    let anc = vec![
        ancestor("/r/sub", Marker::File("gitdir: ../.git/modules/sub".to_string())),
        ancestor("/r", Marker::Directory),
    ];
    let g = Git::get(&anc).unwrap();
    let p = g.portion(&quiet_dir(Some("ref: refs/heads/main\n"))).unwrap().unwrap();
    assert_eq!(p.plain(), "[SUBMODULE | main]");
    assert_eq!(p.operation_sep, "");
}

#[test]
fn fragment_propagates_failures() {
    let g = plain_repo();
    let mut d = quiet_dir(Some("ref: refs/heads/main\n"));
    d.rebase_apply = Some(rebase_apply(None, false, false, None));
    assert!(matches!(g.portion(&d), Err(EnchantError::MissingFile(_))));
    let d = quiet_dir(Some("xyz"));
    assert!(matches!(g.portion(&d), Err(EnchantError::MalformedHead(_))));
}

#[test]
fn conditional_picks_value_or_empty() {
    assert_eq!(conditional("SUBMODULE", true), "SUBMODULE");
    assert_eq!(conditional("SUBMODULE", false), "");
}

#[test]
fn required_file_reads() {
    assert_eq!(read_maybe_missing_file(&file("/a", Some("text"))).unwrap(), "text");
    assert!(matches!(
        read_maybe_missing_file(&file("/a", None)),
        Err(EnchantError::MissingFile(p)) if p == "/a"
    ));
}

#[test]
fn path_joining() {
    assert_eq!(join_path("/a", "b"), "/a/b");
    assert_eq!(join_path("/a/", "b"), "/a/b");
    assert_eq!(join_path("/a", "/b"), "/b");
    assert_eq!(join_path("", "b"), "b");
}

#[test]
fn detached_head_counts_characters() {
    let g = plain_repo();
    assert!(matches!(
        g.branch(&file("/repo/.git/HEAD", Some("éééé"))),
        Err(EnchantError::MalformedHead(_))
    ));
    assert_eq!(g.branch(&file("/repo/.git/HEAD", Some("éééééééééé"))).unwrap(), "HEAD-éééééééé");
    assert_eq!(g.branch(&file("/repo/.git/HEAD", Some("0123abcd"))).unwrap(), "HEAD-0123abcd");
}

#[test]
fn nearest_malformed_indirection_is_named() {
    let anc = vec![
        ancestor("/a/b", Marker::File("junk".to_string())),
        ancestor("/a", Marker::File("more junk".to_string())),
    ];
    match Git::get(&anc) {
        Err(EnchantError::MalformedIndirection(p)) => assert_eq!(p, "/a/b/.git"),
        other => panic!("unexpected {:?}", other),
    }
}

#[test]
fn error_messages_name_the_path() {
    assert_eq!(EnchantError::MissingFile("/r/next".to_string()).message(), "Missing file: /r/next");
    assert_eq!(
        EnchantError::MalformedIndirection("/p/.git".to_string()).message(),
        "Malformed gitdir file: /p/.git"
    );
    assert_eq!(
        EnchantError::MalformedHead("/r/HEAD".to_string()).message(),
        "Malformed HEAD file: /r/HEAD"
    );
}
