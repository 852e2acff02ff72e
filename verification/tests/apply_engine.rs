use pinit_core::apply::{
    apply_existing_file, apply_new_file, bytes_eq, check_dest_dir, check_template_dir,
    decide_existing, decide_generated, generated_is_ignored, plan_entry, plan_generated, plan_level,
    resolve_action, EntryKind, EntryStep, FilePlan, FileWrite, GeneratedStep, Outcome,
};
use pinit_core::ignore::{ignore_queries, ignored_set, worktree_detected, TemplateEntry};
use pinit_core::{
    ApplyError, ApplyOptions, ApplyReport, ExistingFileAction, ExistingFileDecider,
    ExistingFileDecisionContext, FixedAction, SkipExisting,
};

struct Counting {
    answer: ExistingFileAction,
    calls: usize,
    saw_merge: Vec<Option<Vec<u8>>>,
}

impl Counting {
    fn new(answer: ExistingFileAction) -> Self {
        Counting { answer, calls: 0, saw_merge: Vec::new() }
    }
}

impl ExistingFileDecider for Counting {
    fn decide(&mut self, ctx: ExistingFileDecisionContext<'_>) -> ExistingFileAction {
        self.calls += 1;
        self.saw_merge.push(ctx.merge_bytes.map(|b| b.to_vec()));
        self.answer
    }
}

fn dry() -> ApplyOptions {
    ApplyOptions { dry_run: true, template_name: None, template_index: None }
}

fn written(plan: &FilePlan) -> Option<Vec<u8>> {
    match &plan.write {
        FileWrite::Replace(b) | FileWrite::Create(b) => Some(b.clone()),
        _ => None,
    }
}

/// The content of the destination once a plan has been carried out.
fn after(plan: &FilePlan, src: &[u8], dest: Option<&[u8]>) -> Option<Vec<u8>> {
    match &plan.write {
        FileWrite::Nothing => dest.map(|d| d.to_vec()),
        FileWrite::Copy => Some(src.to_vec()),
        FileWrite::Create(b) | FileWrite::Replace(b) => Some(b.clone()),
    }
}

#[test]
fn new_file_is_created_by_copy() {
    let plan = apply_new_file(&ApplyOptions::default());
    assert_eq!(plan.outcome, Outcome::Created);
    assert!(matches!(plan.write, FileWrite::Copy));
    assert_eq!(after(&plan, b"hello\n", None), Some(b"hello\n".to_vec()));
}

#[test]
fn identical_files_are_skipped_without_a_decision() {
    let mut d = Counting::new(ExistingFileAction::Overwrite);
    let plan = apply_existing_file(
        "notes.txt",
        "/d/notes.txt",
        b"same\n",
        b"same\n",
        &ApplyOptions::default(),
        &mut d,
    );
    assert_eq!(plan.outcome, Outcome::Skipped);
    assert!(matches!(plan.write, FileWrite::Nothing));
    assert_eq!(d.calls, 0);
}

#[test]
fn env_merge_updates_the_destination() {
    let mut d = Counting::new(ExistingFileAction::Merge);
    let plan = apply_existing_file(
        ".env",
        "/d/.env",
        b"A=template\nB=template\n",
        b"A=dest\n",
        &ApplyOptions::default(),
        &mut d,
    );
    assert_eq!(plan.outcome, Outcome::Updated);
    assert_eq!(written(&plan), Some(b"A=dest\nB=template\n".to_vec()));
    assert_eq!(d.calls, 1);
    assert_eq!(d.saw_merge[0], Some(b"A=dest\nB=template\n".to_vec()));
}

#[test]
fn overwrite_replaces_with_template_bytes() {
    let mut d = FixedAction(ExistingFileAction::Overwrite);
    let plan = apply_existing_file(
        "a.txt",
        "/d/a.txt",
        b"new\n",
        b"old\n",
        &ApplyOptions::default(),
        &mut d,
    );
    assert_eq!(plan.outcome, Outcome::Updated);
    assert_eq!(written(&plan), Some(b"new\n".to_vec()));
}

#[test]
fn skip_decision_and_skip_existing_write_nothing() {
    let mut d = SkipExisting;
    let plan = apply_existing_file(
        "a.txt",
        "/d/a.txt",
        b"new\n",
        b"old\n",
        &ApplyOptions::default(),
        &mut d,
    );
    assert_eq!(plan.outcome, Outcome::Skipped);
    assert!(matches!(plan.write, FileWrite::Nothing));
}

#[test]
fn merge_without_merged_bytes_is_a_skip() {
    let mut d = Counting::new(ExistingFileAction::Merge);
    let plan = decide_existing(
        "bin.dat",
        "/d/bin.dat",
        b"new",
        b"old",
        None,
        &ApplyOptions::default(),
        &mut d,
    );
    assert_eq!(plan.outcome, Outcome::Skipped);
    assert_eq!(d.calls, 1);
    assert_eq!(d.saw_merge[0], None);
}

#[test]
fn a_merge_that_changes_nothing_is_skipped_not_updated() {
    for action in [ExistingFileAction::Merge, ExistingFileAction::Overwrite, ExistingFileAction::Skip] {
        let mut d = FixedAction(action);
        let plan = decide_existing(
            "x.txt",
            "/d/x.txt",
            b"src",
            b"dest",
            Some(b"dest".to_vec()),
            &ApplyOptions::default(),
            &mut d,
        );
        if action == ExistingFileAction::Overwrite {
            assert_eq!(plan.outcome, Outcome::Updated);
        } else {
            assert_eq!(plan.outcome, Outcome::Skipped);
            assert!(matches!(plan.write, FileWrite::Nothing));
        }
    }
    assert_eq!(
        resolve_action(ExistingFileAction::Merge, b"s", Some(b"m".to_vec())),
        Some(b"m".to_vec())
    );
    assert_eq!(resolve_action(ExistingFileAction::Overwrite, b"s", None), Some(b"s".to_vec()));
    assert_eq!(resolve_action(ExistingFileAction::Skip, b"s", Some(b"m".to_vec())), None);
}

#[test]
fn dry_run_counts_alike_and_writes_nothing() {
    let cases: [(&str, &[u8], &[u8]); 4] = [
        (".env", b"A=1\nB=2\n", b"A=0\n"),
        ("a.txt", b"x\n", b"y\n"),
        ("same.txt", b"s", b"s"),
        ("bin.dat", &[0xff, 1], &[0xfe, 2]),
    ];
    for action in [ExistingFileAction::Merge, ExistingFileAction::Overwrite, ExistingFileAction::Skip] {
        for (rel, src, dest) in cases {
            let mut real = FixedAction(action);
            let mut pretend = FixedAction(action);
            let a = apply_existing_file(rel, "/d", src, dest, &ApplyOptions::default(), &mut real);
            let b = apply_existing_file(rel, "/d", src, dest, &dry(), &mut pretend);
            assert_eq!(a.outcome, b.outcome);
            assert!(matches!(b.write, FileWrite::Nothing));
        }
    }
    let created = apply_new_file(&dry());
    assert_eq!(created.outcome, Outcome::Created);
    assert!(matches!(created.write, FileWrite::Nothing));
}

#[test]
fn applying_twice_with_overwrite_skips_the_second_time() {
    let files: [(&str, &[u8], Option<&[u8]>); 3] = [
        ("hello.txt", b"hello\n", None),
        ("lib.rs", b"fn a() {}\n", Some(b"fn b() {}\n")),
        ("same.txt", b"s\n", Some(b"s\n")),
    ];
    let mut first = ApplyReport::default();
    let mut second = ApplyReport::default();
    for (rel, src, dest) in files {
        let mut d = FixedAction(ExistingFileAction::Overwrite);
        let options = ApplyOptions::default();
        let plan = match dest {
            Some(bytes) => apply_existing_file(rel, "/d", src, bytes, &options, &mut d),
            None => apply_new_file(&options),
        };
        first.record(plan.outcome);
        let now = after(&plan, src, dest).expect("file is there");
        assert_eq!(now, src);
        let again = apply_existing_file(rel, "/d", src, &now, &options, &mut d);
        second.record(again.outcome);
    }
    assert_eq!(first, ApplyReport { created_files: 1, updated_files: 1, skipped_files: 1, ignored_paths: 0 });
    assert_eq!(second, ApplyReport { created_files: 0, updated_files: 0, skipped_files: 3, ignored_paths: 0 });
}

#[test]
fn entries_are_planned_in_the_order_of_the_rules() {
    let none: Vec<String> = Vec::new();
    let oracle = vec!["target/".to_string(), "a.log".to_string(), ".git/".to_string()];

    let err = plan_entry("/t/link", "link", EntryKind::Symlink, &none).unwrap_err();
    assert!(matches!(err, ApplyError::SymlinkNotSupported(ref p) if p == "/t/link"));
    assert!(plan_entry("/t/.DS_Store", ".DS_Store", EntryKind::Symlink, &none).is_err());

    assert_eq!(plan_entry("/t", "", EntryKind::Dir, &none).unwrap(), EntryStep::Nothing);
    assert_eq!(plan_entry("/t/.git", ".git", EntryKind::Dir, &none).unwrap(), EntryStep::Ignore);
    assert_eq!(plan_entry("/t/.git", ".git", EntryKind::Dir, &oracle).unwrap(), EntryStep::Ignore);
    assert_eq!(
        plan_entry("/t/a/.DS_Store", "a/.DS_Store", EntryKind::File, &none).unwrap(),
        EntryStep::Ignore
    );
    assert_eq!(plan_entry("/t/target", "target", EntryKind::Dir, &oracle).unwrap(), EntryStep::Ignore);
    assert_eq!(plan_entry("/t/target", "target", EntryKind::File, &oracle).unwrap(), EntryStep::Apply);
    assert_eq!(plan_entry("/t/a.log", "a.log", EntryKind::File, &oracle).unwrap(), EntryStep::Ignore);
    assert_eq!(plan_entry("/t/src", "src", EntryKind::Dir, &oracle).unwrap(), EntryStep::Descend);
    assert_eq!(plan_entry("/t/src/x", "src/x", EntryKind::File, &oracle).unwrap(), EntryStep::Apply);
    assert_eq!(plan_entry("/t/fifo", "fifo", EntryKind::Other, &oracle).unwrap(), EntryStep::Nothing);
}

#[test]
fn roots_are_checked() {
    assert!(check_template_dir("/t", Some(EntryKind::Dir)).is_ok());
    assert!(matches!(
        check_template_dir("/t", None),
        Err(ApplyError::TemplateDirNotFound(ref p)) if p == "/t"
    ));
    assert!(matches!(
        check_template_dir("/t", Some(EntryKind::Symlink)),
        Err(ApplyError::SymlinkNotSupported(_))
    ));
    assert!(matches!(
        check_template_dir("/t", Some(EntryKind::File)),
        Err(ApplyError::TemplateDirNotDir(_))
    ));

    let real = ApplyOptions::default();
    assert_eq!(check_dest_dir("/d", None, &real).unwrap(), true);
    assert_eq!(check_dest_dir("/d", None, &dry()).unwrap(), false);
    assert_eq!(check_dest_dir("/d", Some(EntryKind::Dir), &real).unwrap(), false);
    assert!(matches!(
        check_dest_dir("/d", Some(EntryKind::File), &real),
        Err(ApplyError::DestDirNotDir(ref p)) if p == "/d"
    ));
    assert!(matches!(
        check_dest_dir("/d", Some(EntryKind::Symlink), &real),
        Err(ApplyError::SymlinkNotSupported(_))
    ));
}

#[test]
fn generated_files_are_created_skipped_or_overwritten() {
    assert_eq!(plan_generated(""), GeneratedStep::Nothing);
    assert_eq!(plan_generated(".git/HEAD"), GeneratedStep::Ignore);
    assert_eq!(plan_generated("LICENSE"), GeneratedStep::Apply);
    assert!(generated_is_ignored("LICENSE", &vec!["LICENSE".to_string()]));
    assert!(!generated_is_ignored("LICENSE", &vec!["LICENSE/".to_string()]));

    let real = ApplyOptions::default();
    let mut d = Counting::new(ExistingFileAction::Overwrite);
    let plan = decide_generated("LICENSE", "/d/LICENSE", b"MIT\n", None, &real, &mut d);
    assert_eq!(plan.outcome, Outcome::Created);
    assert!(matches!(plan.write, FileWrite::Create(ref b) if b == b"MIT\n"));
    let plan = decide_generated("LICENSE", "/d/LICENSE", b"MIT\n", None, &dry(), &mut d);
    assert_eq!(plan.outcome, Outcome::Created);
    assert!(matches!(plan.write, FileWrite::Nothing));

    let plan = decide_generated("LICENSE", "/d/LICENSE", b"MIT\n", Some(b"MIT\n"), &real, &mut d);
    assert_eq!(plan.outcome, Outcome::Skipped);
    assert_eq!(d.calls, 0);

    let plan = decide_generated("LICENSE", "/d/LICENSE", b"MIT\n", Some(b"old\n"), &real, &mut d);
    assert_eq!(plan.outcome, Outcome::Updated);
    assert!(matches!(plan.write, FileWrite::Replace(ref b) if b == b"MIT\n"));
    assert_eq!(d.calls, 1);
    assert_eq!(d.saw_merge[0], None);

    let mut merge = FixedAction(ExistingFileAction::Merge);
    let plan = decide_generated("LICENSE", "/d/LICENSE", b"MIT\n", Some(b"old\n"), &real, &mut merge);
    assert_eq!(plan.outcome, Outcome::Skipped);
    let mut skip = SkipExisting::default();
    let plan = decide_generated("LICENSE", "/d/LICENSE", b"MIT\n", Some(b"old\n"), &real, &mut skip);
    assert_eq!(plan.outcome, Outcome::Skipped);
}

#[test]
fn reports_count_each_path_once() {
    let mut r = ApplyReport::default();
    assert_eq!(r, ApplyReport { created_files: 0, updated_files: 0, skipped_files: 0, ignored_paths: 0 });
    r.record(Outcome::Created);
    r.record(Outcome::Skipped);
    r.record(Outcome::Skipped);
    r.record(Outcome::Ignored);
    r.record(Outcome::Updated);
    assert_eq!(r, ApplyReport { created_files: 1, updated_files: 1, skipped_files: 2, ignored_paths: 1 });

    let mut sum = ApplyReport::single(Outcome::Updated);
    sum.absorb(&r);
    assert_eq!(sum, ApplyReport { created_files: 1, updated_files: 2, skipped_files: 2, ignored_paths: 1 });

    let mut full = ApplyReport { created_files: usize::MAX, updated_files: 0, skipped_files: 0, ignored_paths: 0 };
    assert!(!full.checked_absorb(&r));
    assert_eq!(full.created_files, usize::MAX);
    assert_eq!(full.skipped_files, 0);
    assert!(full.checked_absorb(&ApplyReport::single(Outcome::Ignored)));
    assert_eq!(full.ignored_paths, 1);
}

#[test]
fn oracle_is_asked_once_for_a_directory_and_its_answer_is_read() {
    let entries = vec![
        TemplateEntry { rel: "a.txt".to_string(), kind: EntryKind::File },
        TemplateEntry { rel: "".to_string(), kind: EntryKind::Dir },
        TemplateEntry { rel: "src".to_string(), kind: EntryKind::Dir },
        TemplateEntry { rel: "win\\x".to_string(), kind: EntryKind::Symlink },
    ];
    assert_eq!(ignore_queries(&entries), vec!["a.txt", "src/", "win/x"]);

    let out = b".gitignore:1:*.log\ta.log\n::\tb.txt\nno tab here\n.gitignore:2:target/\ttarget/\r\n";
    let ignored = ignored_set(true, Some(0), out, b"").unwrap();
    assert_eq!(ignored, vec!["a.log", "target/"]);
    assert_eq!(ignored_set(false, Some(1), b"", b"").unwrap(), Vec::<String>::new());
    assert_eq!(ignored_set(false, None, b"", b"").unwrap(), Vec::<String>::new());
    assert_eq!(ignored_set(true, Some(0), b"x\t\xff\n", b"").unwrap(), vec!["\u{fffd}"]);

    match ignored_set(false, Some(128), b"", b"  fatal: not a git repository\n") {
        Err(ApplyError::GitIgnoreFailed { cmd, status, stderr }) => {
            assert_eq!(cmd, "git check-ignore --stdin --verbose --non-matching");
            assert_eq!(status, 128);
            assert_eq!(stderr, "fatal: not a git repository");
        }
        other => panic!("unexpected {:?}", other),
    }

    assert!(worktree_detected(true, b"true\n"));
    assert!(!worktree_detected(false, b"true\n"));
    assert!(!worktree_detected(true, b"false\n"));
    assert!(bytes_eq(b"ab", b"ab"));
    assert!(!bytes_eq(b"ab", b"abc"));
    assert!(!bytes_eq(b"ab", b"ac"));
}

#[test]
fn a_link_in_a_directory_fails_before_anything_of_it_is_applied() {
    let e = |rel: &str, kind| TemplateEntry { rel: rel.to_string(), kind };
    let none: Vec<String> = Vec::new();
    let level = vec![
        e("src/a.txt", EntryKind::File),
        e("src/link.txt", EntryKind::Symlink),
        e("src/z", EntryKind::Symlink),
    ];
    match plan_level("/template", &level, &none) {
        Err(ApplyError::SymlinkNotSupported(p)) => assert_eq!(p, "/template/src/link.txt"),
        other => panic!("unexpected {:?}", other),
    }
    let ignored = vec!["b.log".to_string()];
    let level = vec![
        e(".git", EntryKind::Dir),
        e("a.txt", EntryKind::File),
        e("b.log", EntryKind::File),
        e("dir", EntryKind::Dir),
        e("pipe", EntryKind::Other),
    ];
    assert_eq!(
        plan_level("/template", &level, &ignored).unwrap(),
        vec![
            EntryStep::Ignore,
            EntryStep::Apply,
            EntryStep::Ignore,
            EntryStep::Descend,
            EntryStep::Nothing
        ]
    );
    assert_eq!(plan_level("/template", &vec![], &ignored).unwrap(), vec![]);
}
