use koharu::move_dir::{entry_kind, DirMove, Entry, EntryKind, MoveEvent, MoveStep};
use std::collections::BTreeMap;

/// What stands at a path.
#[derive(Clone)]
enum Node {
    Link,
    File(&'static str),
    Dir(Vec<(u64, Node)>),
}

/// The two sides of a move in memory.
struct World {
    files: BTreeMap<Vec<u64>, String>,
    dirs: Vec<Vec<u64>>,
    links: Vec<Vec<u64>>,
    target: BTreeMap<Vec<u64>, String>,
    root_is_file: bool,
    rename_works: bool,
    /// The number of the copy that fails.
    bad_copy: Option<usize>,
    /// The number of the file that cannot be removed.
    bad_remove: Option<usize>,
    /// The directories that were removed, in order.
    removed_dirs: Vec<Vec<u64>>,
    log: Vec<String>,
}

fn plant(world: &mut World, path: Vec<u64>, node: &Node) {
    match node {
        Node::Link => world.links.push(path),
        Node::File(text) => {
            world.files.insert(path, text.to_string());
        }
        Node::Dir(entries) => {
            world.dirs.push(path.clone());
            for (name, child) in entries {
                let mut below = path.clone();
                below.push(*name);
                plant(world, below, child);
            }
        }
    }
}

fn world(root: Option<&Node>) -> World {
    let mut world = World {
        files: BTreeMap::new(),
        dirs: Vec::new(),
        links: Vec::new(),
        target: BTreeMap::new(),
        root_is_file: matches!(root, Some(Node::File(_))),
        rename_works: false,
        bad_copy: None,
        bad_remove: None,
        removed_dirs: Vec::new(),
        log: Vec::new(),
    };
    if let Some(node) = root {
        plant(&mut world, Vec::new(), node);
    }
    world
}

impl World {
    fn list(&self, path: &[u64]) -> Option<Vec<Entry>> {
        if !self.dirs.iter().any(|dir| dir == path) {
            return None;
        }
        let mut entries = Vec::new();
        let mut all: Vec<(&Vec<u64>, EntryKind)> = Vec::new();
        all.extend(self.files.keys().map(|p| (p, entry_kind(false, false))));
        all.extend(self.dirs.iter().map(|p| (p, entry_kind(false, true))));
        all.extend(self.links.iter().map(|p| (p, entry_kind(true, true))));
        for (p, kind) in all {
            if p.len() == path.len() + 1 && p.starts_with(path) {
                entries.push(Entry { name: p[path.len()], kind });
            }
        }
        entries.sort_by_key(|entry| entry.name);
        Some(entries)
    }

    fn perform(&mut self, work: &DirMove) -> MoveEvent {
        let path_of = |i: usize| work.pair(i).unwrap().clone();
        match work.step() {
            MoveStep::Rename => {
                self.log.push("rename".to_string());
                if self.rename_works {
                    self.target = std::mem::take(&mut self.files);
                    MoveEvent::Success
                } else {
                    MoveEvent::Error
                }
            }
            MoveStep::LookAt => {
                if self.root_is_file {
                    MoveEvent::SingleFile
                } else if self.dirs.is_empty() {
                    MoveEvent::Missing
                } else {
                    MoveEvent::Directory
                }
            }
            MoveStep::ReadDir(path) | MoveStep::SweepRead(path) => match self.list(path) {
                Some(entries) => MoveEvent::Listed(entries),
                None => MoveEvent::Error,
            },
            MoveStep::MakeParent(_) => MoveEvent::Success,
            MoveStep::Copy(i) => {
                self.log.push(format!("copy {i}"));
                if self.bad_copy == Some(*i) {
                    return MoveEvent::Error;
                }
                let path = path_of(*i);
                let text = self.files[&path].clone();
                self.target.insert(path, text);
                MoveEvent::Success
            }
            MoveStep::Remove(i) => {
                self.log.push(format!("remove {i}"));
                if self.bad_remove == Some(*i) {
                    return MoveEvent::Error;
                }
                self.files.remove(&path_of(*i));
                MoveEvent::Success
            }
            MoveStep::SweepRemove(path) => {
                if self.list(path).is_some_and(|entries| entries.is_empty()) {
                    self.dirs.retain(|dir| dir != path);
                    self.removed_dirs.push(path.clone());
                    MoveEvent::Success
                } else {
                    MoveEvent::Error
                }
            }
            MoveStep::Done | MoveStep::Failed => unreachable!(),
        }
    }

    /// Runs a move to its end and tells whether it succeeded.
    fn run(&mut self, mut work: DirMove) -> bool {
        let before = self.files.clone();
        loop {
            for (path, text) in &before {
                assert!(
                    self.files.get(path) == Some(text) || self.target.get(path) == Some(text),
                    "lost {path:?}"
                );
            }
            match work.step() {
                MoveStep::Done => return true,
                MoveStep::Failed => return false,
                _ => {}
            }
            let event = self.perform(&work);
            work.advance(event);
        }
    }
}

fn tree() -> Node {
    Node::Dir(vec![
        (1, Node::File("one")),
        (2, Node::Dir(vec![(5, Node::File("five")), (6, Node::Dir(vec![(7, Node::File("seven"))]))])),
        (3, Node::File("three")),
        (4, Node::Dir(Vec::new())),
    ])
}

#[test]
fn a_rename_that_works_is_all() {
    let mut world = world(Some(&tree()));
    world.rename_works = true;
    assert!(world.run(DirMove::robust_move_dir()));
    assert_eq!(world.log, vec!["rename"]);
    assert_eq!(world.target.len(), 4);
}

#[test]
fn copies_come_before_removals() {
    let mut world = world(Some(&tree()));
    let before = world.files.clone();
    assert!(world.run(DirMove::robust_move_dir()));
    assert_eq!(
        world.log,
        vec![
            "rename", "copy 0", "copy 1", "copy 2", "copy 3", "remove 0", "remove 1", "remove 2",
            "remove 3",
        ]
    );
    assert_eq!(world.target, before);
    assert!(world.files.is_empty());
    assert!(world.dirs.is_empty());
}

#[test]
fn files_are_found_in_the_order_of_the_listings() {
    let mut world = world(Some(&tree()));
    let mut work = DirMove::move_dir_all();
    while !matches!(work.step(), MoveStep::Remove(_)) {
        let event = world.perform(&work);
        work.advance(event);
    }
    let found: Vec<Vec<u64>> = (0..4).map(|i| work.pair(i).unwrap().clone()).collect();
    assert_eq!(found, vec![vec![1], vec![2, 5], vec![2, 6, 7], vec![3]]);
    assert!(work.pair(4).is_none());
}

#[test]
fn directories_go_from_the_bottom_up() {
    let mut world = world(Some(&tree()));
    assert!(world.run(DirMove::move_dir_all()));
    assert_eq!(world.removed_dirs, vec![vec![2, 6], vec![2], vec![4], vec![]]);
}

#[test]
fn a_failed_copy_leaves_the_source_whole() {
    for bad in 0..4 {
        let mut world = world(Some(&tree()));
        let before = world.files.clone();
        world.bad_copy = Some(bad);
        assert!(!world.run(DirMove::robust_move_dir()));
        assert_eq!(world.files, before);
        assert!(world.removed_dirs.is_empty());
    }
}

#[test]
fn a_file_that_stays_keeps_its_directories() {
    let mut world = world(Some(&tree()));
    world.bad_remove = Some(2);
    assert!(world.run(DirMove::move_dir_all()));
    assert_eq!(world.files.len(), 1);
    assert_eq!(world.target.len(), 4);
    assert!(world.removed_dirs.is_empty());
}

#[test]
fn removal_stops_at_the_first_directory_that_is_not_empty() {
    let root = Node::Dir(vec![
        (1, Node::Dir(vec![(3, Node::File("stuck"))])),
        (2, Node::Dir(Vec::new())),
    ]);
    let mut world = world(Some(&root));
    world.bad_remove = Some(0);
    assert!(world.run(DirMove::move_dir_all()));
    assert!(world.removed_dirs.is_empty());
    assert_eq!(world.dirs, vec![vec![], vec![1], vec![2]]);
    assert_eq!(world.files.len(), 1);
}

#[test]
fn directories_before_a_refusal_are_gone() {
    let root = Node::Dir(vec![
        (1, Node::Dir(vec![(4, Node::Dir(Vec::new()))])),
        (2, Node::Dir(vec![(5, Node::Link)])),
        (3, Node::Dir(Vec::new())),
    ]);
    let mut world = world(Some(&root));
    assert!(world.run(DirMove::move_dir_all()));
    assert_eq!(world.removed_dirs, vec![vec![1, 4], vec![1]]);
    assert_eq!(world.dirs, vec![vec![], vec![2], vec![3]]);
}

#[test]
fn an_unreadable_directory_is_left_out_of_the_removal() {
    let mut work = DirMove::move_dir_all();
    work.advance(MoveEvent::Directory);
    work.advance(MoveEvent::Listed(Vec::new()));
    let dirs = vec![
        Entry { name: 1, kind: EntryKind::Dir },
        Entry { name: 2, kind: EntryKind::Dir },
    ];
    work.advance(MoveEvent::Listed(dirs));
    assert!(matches!(work.step(), MoveStep::SweepRead(path) if *path == vec![1]));
    work.advance(MoveEvent::Error);
    assert!(matches!(work.step(), MoveStep::SweepRead(path) if *path == vec![2]));
}

#[test]
fn other_files_of_the_target_are_left_alone() {
    let mut world = world(Some(&tree()));
    world.target.insert(vec![99], "old".to_string());
    world.target.insert(vec![1], "overwritten".to_string());
    assert!(world.run(DirMove::move_dir_all()));
    assert_eq!(world.target.get(&vec![99]), Some(&"old".to_string()));
    assert_eq!(world.target.get(&vec![1]), Some(&"one".to_string()));
    assert!(world.files.is_empty());
}

#[test]
fn links_are_left_alone() {
    let root = Node::Dir(vec![
        (1, Node::Link),
        (2, Node::File("two")),
        (3, Node::Dir(vec![(4, Node::Link)])),
    ]);
    let mut world = world(Some(&root));
    assert!(world.run(DirMove::move_dir_all()));
    assert_eq!(world.target.len(), 1);
    assert_eq!(world.links, vec![vec![1], vec![3, 4]]);
    assert!(world.removed_dirs.is_empty());
}

#[test]
fn a_missing_source_is_no_fault() {
    let mut world = world(None);
    assert!(world.run(DirMove::robust_move_dir()));
    assert!(world.target.is_empty());
}

#[test]
fn a_single_file_is_moved() {
    let file = Node::File("f");
    let mut world_of_one = world(Some(&file));
    assert!(world_of_one.run(DirMove::move_dir_all()));
    assert_eq!(world_of_one.target.get(&Vec::new()), Some(&"f".to_string()));
    assert!(world_of_one.files.is_empty());
    assert_eq!(world_of_one.log, vec!["copy 0", "remove 0"]);
}

#[test]
fn a_single_file_that_stays_is_a_fault() {
    let file = Node::File("f");
    let mut stuck = world(Some(&file));
    stuck.bad_remove = Some(0);
    assert!(!stuck.run(DirMove::move_dir_all()));
    assert_eq!(stuck.files.len(), 1);
}

#[test]
fn an_empty_directory_is_removed() {
    let mut empty = world(Some(&Node::Dir(Vec::new())));
    assert!(empty.run(DirMove::move_dir_all()));
    assert_eq!(empty.removed_dirs, vec![Vec::<u64>::new()]);
    assert!(empty.log.is_empty());
}

#[test]
fn an_unreadable_directory_is_a_fault() {
    let mut work = DirMove::move_dir_all();
    work.advance(MoveEvent::Directory);
    work.advance(MoveEvent::Listed(vec![Entry { name: 9, kind: EntryKind::Dir }]));
    assert!(matches!(work.step(), MoveStep::ReadDir(path) if *path == vec![9]));
    work.advance(MoveEvent::Error);
    assert!(matches!(work.step(), MoveStep::Failed));
}

#[test]
fn an_unmakeable_directory_is_a_fault() {
    let mut work = DirMove::move_dir_all();
    work.advance(MoveEvent::SingleFile);
    assert!(matches!(work.step(), MoveStep::MakeParent(0)));
    work.advance(MoveEvent::Error);
    assert!(matches!(work.step(), MoveStep::Failed));
}

#[test]
fn a_link_to_a_directory_is_a_link() {
    assert_eq!(entry_kind(true, true), EntryKind::Link);
    assert_eq!(entry_kind(true, false), EntryKind::Link);
    assert_eq!(entry_kind(false, true), EntryKind::Dir);
    assert_eq!(entry_kind(false, false), EntryKind::File);
}
