use gix_hash::ObjectId;
use gix_kit::traverse::breadthfirst::{breadthfirst, Error, State};
use gix_kit::traverse::{Action, Entry, Visit};

const TREE: u16 = 0o040000;
const BLOB: u16 = 0o100644;
const LINK: u16 = 0o120000;
const COMMIT: u16 = 0o160000;

fn id(n: u8) -> ObjectId {
    let mut hex = [b'0'; 40];
    hex[39] = b'0' + n;
    ObjectId::from_hex(&hex).expect("valid hex")
}

fn entry(mode: u16, name: &str, n: u8) -> Entry {
    Entry { mode, filename: name.as_bytes().to_vec(), oid: id(n) }
}

/// Writes down what it is told and answers as it was set up to.
struct Recorder {
    log: Vec<String>,
    skip: Vec<&'static str>,
    cancel: Vec<&'static str>,
}

impl Recorder {
    fn new(skip: &[&'static str], cancel: &[&'static str]) -> Self {
        Recorder { log: Vec::new(), skip: skip.to_vec(), cancel: cancel.to_vec() }
    }

    fn answer(&self, entry: &Entry) -> Action {
        let name = String::from_utf8_lossy(&entry.filename).to_string();
        if self.cancel.iter().any(|n| *n == name) {
            Action::Cancel
        } else if self.skip.iter().any(|n| *n == name) {
            Action::Skip
        } else {
            Action::Continue
        }
    }
}

impl Visit for Recorder {
    fn pop_back_tracked_path_and_set_current(&mut self) {
        self.log.push("pop_back_tracked".into());
    }

    fn pop_front_tracked_path_and_set_current(&mut self) {
        self.log.push("pop_front_tracked".into());
    }

    fn push_back_tracked_path_component(&mut self, component: &[u8]) {
        self.log.push(format!("track {}", String::from_utf8_lossy(component)));
    }

    fn push_path_component(&mut self, component: &[u8]) {
        self.log.push(format!("push {}", String::from_utf8_lossy(component)));
    }

    fn pop_path_component(&mut self) {
        self.log.push("pop".into());
    }

    fn visit_tree(&mut self, entry: &Entry) -> Action {
        self.log.push(format!("tree {}", String::from_utf8_lossy(&entry.filename)));
        self.answer(entry)
    }

    fn visit_nontree(&mut self, entry: &Entry) -> Action {
        self.log.push(format!("nontree {}", String::from_utf8_lossy(&entry.filename)));
        self.answer(entry)
    }
}

#[test]
fn kinds_of_entries_are_told_apart() {
    assert!(entry(TREE, "d", 1).is_tree());
    assert!(entry(0o040755, "d", 1).is_tree());
    assert!(!entry(BLOB, "f", 1).is_tree());
    assert!(!entry(0o100755, "x", 1).is_tree());
    assert!(!entry(LINK, "l", 1).is_tree());
    assert!(!entry(COMMIT, "s", 1).is_tree());
    assert!(Action::Cancel.cancelled());
    assert!(!Action::Continue.cancelled());
    assert!(!Action::Skip.cancelled());
}

#[test]
fn answers_to_trees_decide_what_waits() {
    let mut state = State::new();
    let first = entry(TREE, "a", 1);
    let second = entry(TREE, "b", 2);
    assert!(matches!(state.after_tree(&first, Action::Continue), Ok(true)));
    assert!(matches!(state.after_tree(&second, Action::Skip), Ok(false)));
    assert!(matches!(state.after_tree(&second, Action::Cancel), Err(Error::Cancelled)));
    assert!(matches!(state.after_tree(&second, Action::Continue), Ok(true)));
    assert_eq!(state.next.iter().copied().collect::<Vec<_>>(), vec![id(1), id(2)]);
}

#[test]
fn trees_wait_in_the_order_of_their_entries() {
    let mut state = State::new();
    let mut delegate = Recorder::new(&["skipped"], &[]);
    let entries = vec![
        entry(BLOB, "file", 1),
        entry(TREE, "dir", 2),
        entry(TREE, "skipped", 3),
        entry(LINK, "link", 4),
        entry(TREE, "other", 5),
    ];
    assert!(state.visit_entries(&entries, None, &mut delegate).is_ok());
    assert_eq!(state.next.iter().copied().collect::<Vec<_>>(), vec![id(2), id(5)]);
    assert_eq!(
        delegate.log,
        vec![
            "push file", "nontree file", "pop",
            "push dir", "tree dir", "pop", "track dir", "pop",
            "push skipped", "tree skipped", "pop",
            "push link", "nontree link", "pop",
            "push other", "tree other", "pop", "track other", "pop",
        ]
    );

    delegate.log.clear();
    assert_eq!(state.next_tree(&mut delegate), Some(id(2)));
    assert_eq!(delegate.log, vec!["pop_front_tracked"]);
    let deeper = vec![entry(TREE, "nested", 6)];
    assert!(state.visit_entries(&deeper, None, &mut delegate).is_ok());
    assert_eq!(state.next.iter().copied().collect::<Vec<_>>(), vec![id(5), id(6)]);
    assert_eq!(state.next_tree(&mut delegate), Some(id(5)));
    assert_eq!(state.next_tree(&mut delegate), Some(id(6)));
    delegate.log.clear();
    assert_eq!(state.next_tree(&mut delegate), None);
    assert!(delegate.log.is_empty());
}

#[test]
fn cancelling_ends_the_walk_at_once() {
    let mut state = State::new();
    let mut delegate = Recorder::new(&[], &["stop"]);
    let entries = vec![entry(TREE, "dir", 1), entry(BLOB, "stop", 2), entry(TREE, "late", 3)];
    assert!(matches!(
        state.visit_entries(&entries, None, &mut delegate),
        Err(Error::Cancelled)
    ));
    assert_eq!(state.next.iter().copied().collect::<Vec<_>>(), vec![id(1)]);
    assert_eq!(
        delegate.log,
        vec!["push dir", "tree dir", "pop", "track dir", "pop", "push stop", "nontree stop"]
    );

    let mut delegate = Recorder::new(&[], &["dir"]);
    let mut state = State::new();
    assert!(matches!(
        state.visit_entry(&entries[0], &mut delegate),
        Err(Error::Cancelled)
    ));
    assert!(state.next.is_empty());
    assert_eq!(delegate.log, vec!["push dir", "tree dir"]);
}

#[test]
fn a_tree_that_cannot_be_read_fails_after_its_entries() {
    let failure = gix_error::Error::from(gix_error::message("unreadable"));
    let mut state = State::new();
    let mut delegate = Recorder::new(&[], &[]);
    let entries = vec![entry(TREE, "dir", 1)];
    assert!(matches!(
        state.visit_entries(&entries, Some(failure), &mut delegate),
        Err(Error::ObjectDecode(_))
    ));
    assert_eq!(state.next.iter().copied().collect::<Vec<_>>(), vec![id(1)]);
    assert_eq!(delegate.log.len(), 5);
}

#[test]
fn clearing_forgets_what_waits() {
    let mut state = State::new();
    state.buf.extend_from_slice(b"bytes of a tree");
    assert!(matches!(state.after_tree(&entry(TREE, "a", 1), Action::Continue), Ok(true)));
    state.clear();
    assert!(state.next.is_empty());
    assert!(state.buf.is_empty());
    let mut delegate = Recorder::new(&[], &[]);
    assert_eq!(state.next_tree(&mut delegate), None);
}

#[test]
fn rounds_go_level_by_level() {
    let mut state = State::new();
    let mut delegate = Recorder::new(&[], &[]);
    let root = vec![entry(TREE, "a", 1), entry(BLOB, "f", 2), entry(TREE, "b", 3)];
    let below_a = vec![entry(TREE, "deep", 4), entry(BLOB, "g", 5)];
    let below_b = vec![entry(BLOB, "h", 6)];
    let below_deep: Vec<Entry> = Vec::new();

    assert!(matches!(breadthfirst(&root, None, &mut state, &mut delegate), Ok(Some(oid)) if oid == id(1)));
    assert!(matches!(breadthfirst(&below_a, None, &mut state, &mut delegate), Ok(Some(oid)) if oid == id(3)));
    assert!(matches!(breadthfirst(&below_b, None, &mut state, &mut delegate), Ok(Some(oid)) if oid == id(4)));
    assert!(matches!(breadthfirst(&below_deep, None, &mut state, &mut delegate), Ok(None)));
    let shown: Vec<&str> = delegate
        .log
        .iter()
        .filter(|line| line.starts_with("tree ") || line.starts_with("nontree "))
        .map(String::as_str)
        .collect();
    assert_eq!(
        shown,
        vec!["tree a", "nontree f", "tree b", "tree deep", "nontree g", "nontree h"]
    );
}

#[test]
fn a_round_fails_as_its_tree_does() {
    let mut state = State::new();
    let mut delegate = Recorder::new(&[], &["stop"]);
    let failure = gix_error::Error::from(gix_error::message("unreadable"));
    assert!(matches!(
        breadthfirst(&[], Some(failure), &mut state, &mut delegate),
        Err(Error::ObjectDecode(_))
    ));
    assert!(matches!(
        breadthfirst(&[entry(TREE, "stop", 1)], None, &mut state, &mut delegate),
        Err(Error::Cancelled)
    ));
    assert!(state.next.is_empty());
}
