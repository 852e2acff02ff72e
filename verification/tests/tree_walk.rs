use pinit_core::apply::{ApplyError, EntryKind};
use pinit_core::ignore::{oracle_is_asked, TemplateEntry};
use pinit_core::walk::{Planned, TreeWalk, WalkNext};

fn e(rel: &str, kind: EntryKind) -> TemplateEntry {
    TemplateEntry {
        rel: rel.to_string(),
        kind,
    }
}

fn listed(next: WalkNext) -> String {
    match next {
        WalkNext::List(rel) => rel,
        WalkNext::Done => panic!("the walk is done"),
    }
}

fn plan_of(walk: TreeWalk) -> Vec<(String, Planned)> {
    walk.finish()
        .expect("the walk is done")
        .into_iter()
        .map(|p| (p.rel, p.what))
        .collect()
}

#[test]
fn a_tree_is_planned_depth_first_in_the_order_of_its_entries() {
    let none: Vec<String> = Vec::new();
    let walk = TreeWalk::new("/t".to_string());
    assert!(walk.stack.is_empty() && walk.planned.is_empty());

    let root = vec![
        e(".git", EntryKind::Dir),
        e("a.txt", EntryKind::File),
        e("pipe", EntryKind::Other),
        e("sub", EntryKind::Dir),
        e("z.txt", EntryKind::File),
    ];
    let mut walk = walk.enter(root, &none).unwrap();
    assert_eq!(listed(walk.advance()), "sub");
    assert_eq!(walk.planned.len(), 2);

    let sub = vec![
        e("sub/b.log", EntryKind::File),
        e("sub/c.txt", EntryKind::File),
        e("sub/deep", EntryKind::Dir),
        e("sub/out", EntryKind::Dir),
    ];
    let ignored = vec!["sub/b.log".to_string(), "sub/out/".to_string()];
    let mut walk = walk.enter(sub, &ignored).unwrap();
    assert_eq!(listed(walk.advance()), "sub/deep");
    let mut walk = walk.enter(Vec::new(), &none).unwrap();
    assert!(matches!(walk.advance(), WalkNext::Done));
    assert!(matches!(walk.advance(), WalkNext::Done));

    assert_eq!(
        plan_of(walk),
        vec![
            (".git".to_string(), Planned::Ignored),
            ("a.txt".to_string(), Planned::File),
            ("sub/b.log".to_string(), Planned::Ignored),
            ("sub/c.txt".to_string(), Planned::File),
            ("sub/out".to_string(), Planned::Ignored),
            ("z.txt".to_string(), Planned::File),
        ]
    );
}

#[test]
fn a_walk_that_is_not_done_has_no_plan() {
    let none: Vec<String> = Vec::new();
    let walk = TreeWalk::new("/t".to_string());
    let mut walk = walk
        .enter(vec![e("a.txt", EntryKind::File), e("sub", EntryKind::Dir)], &none)
        .unwrap();
    assert_eq!(listed(walk.advance()), "sub");
    assert!(walk.finish().is_none());
    assert_eq!(plan_of(TreeWalk::new("/t".to_string())), vec![]);
}

#[test]
fn a_link_below_the_root_ends_the_walk_without_a_plan() {
    let none: Vec<String> = Vec::new();
    let walk = TreeWalk::new("/t".to_string());
    let mut walk = walk
        .enter(
            vec![
                e("a.txt", EntryKind::File),
                e("sub", EntryKind::Dir),
                e("z.txt", EntryKind::File),
            ],
            &none,
        )
        .unwrap();
    assert_eq!(listed(walk.advance()), "sub");
    let sub = vec![e("sub/b.txt", EntryKind::File), e("sub/link", EntryKind::Symlink)];
    match walk.enter(sub, &none) {
        Err(ApplyError::SymlinkNotSupported(p)) => assert_eq!(p, "/t/sub/link"),
        other => panic!("unexpected {:?}", other.map(|w| w.planned)),
    }
}

#[test]
fn a_link_below_an_ignored_directory_is_never_met() {
    let ignored = vec!["vendor/".to_string()];
    let walk = TreeWalk::new("/t".to_string());
    let mut walk = walk
        .enter(vec![e("a.txt", EntryKind::File), e("vendor", EntryKind::Dir)], &ignored)
        .unwrap();
    assert!(matches!(walk.advance(), WalkNext::Done));
    assert_eq!(
        plan_of(walk),
        vec![
            ("a.txt".to_string(), Planned::File),
            ("vendor".to_string(), Planned::Ignored),
        ]
    );
}

#[test]
fn the_oracle_is_asked_only_for_a_destination_that_was_there() {
    assert!(oracle_is_asked(Some(EntryKind::Dir)));
    assert!(!oracle_is_asked(None));
    assert!(!oracle_is_asked(Some(EntryKind::File)));
    assert!(!oracle_is_asked(Some(EntryKind::Symlink)));
    assert!(!oracle_is_asked(Some(EntryKind::Other)));
}
