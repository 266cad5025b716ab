use littlefs2::create::{callback_result, closed_scope, tolerate_existing, CreateDirAll};
use littlefs2::remove::{RemoveAction, RemoveDirAll, RemoveEvent};
use littlefs2::{Error, FileType, PathBuf, Result};

fn path_buf(text: &str) -> PathBuf {
    PathBuf::try_from(text).unwrap()
}

/// A filesystem in memory: the entries in the order in which they were made.
struct Tree {
    entries: Vec<(String, FileType)>,
    open_dirs: usize,
    fail_remove: Option<String>,
    fail_close: Option<Error>,
    fail_open: Option<String>,
    read_errors_in: Option<String>,
}

fn normal(path: &str) -> String {
    path.trim_matches('/').to_string()
}

impl Tree {
    fn new() -> Self {
        Tree {
            entries: Vec::new(),
            open_dirs: 0,
            fail_remove: None,
            fail_close: None,
            fail_open: None,
            read_errors_in: None,
        }
    }

    fn kind(&self, path: &str) -> Option<FileType> {
        let path = normal(path);
        if path.is_empty() {
            return Some(FileType::Dir);
        }
        self.entries
            .iter()
            .find(|(p, _)| *p == path)
            .map(|(_, kind)| *kind)
    }

    fn children(&self, dir: &str) -> Vec<(String, FileType)> {
        let dir = normal(dir);
        self.entries
            .iter()
            .filter(|(p, _)| match p.rsplit_once('/') {
                Some((parent, _)) => parent == dir,
                None => dir.is_empty(),
            })
            .cloned()
            .collect()
    }

    fn create_dir(&mut self, path: &str) -> Result<()> {
        if self.kind(path).is_some() {
            return Err(Error::entry_already_existed());
        }
        let path = normal(path);
        if let Some((parent, _)) = path.rsplit_once('/') {
            match self.kind(parent) {
                Some(FileType::Dir) => {}
                Some(FileType::File) => return Err(Error::path_not_dir()),
                None => return Err(Error::no_such_entry()),
            }
        }
        self.entries.push((path, FileType::Dir));
        Ok(())
    }

    fn write(&mut self, path: &str) {
        if self.kind(path).is_none() {
            self.entries.push((normal(path), FileType::File));
        }
    }

    fn remove(&mut self, path: &str) -> Result<()> {
        if self.fail_remove.as_deref() == Some(path) {
            return Err(Error::io());
        }
        match self.kind(path) {
            None => Err(Error::no_such_entry()),
            Some(kind) => {
                if kind == FileType::Dir && !self.children(path).is_empty() {
                    return Err(Error::dir_not_empty());
                }
                let path = normal(path);
                self.entries.retain(|(p, _)| *p != path);
                Ok(())
            }
        }
    }

    /// What reading the directory yields: the directory itself, the one above, and the entries.
    fn list(&self, dir: &str) -> Result<Vec<Result<(FileType, PathBuf)>>> {
        if self.fail_open.as_deref() == Some(dir) {
            return Err(Error::io());
        }
        match self.kind(dir) {
            None => return Err(Error::no_such_entry()),
            Some(FileType::File) => return Err(Error::path_not_dir()),
            Some(FileType::Dir) => {}
        }
        let base = path_buf(dir);
        let mut list = Vec::new();
        for name in [".", ".."] {
            list.push(Ok((
                FileType::Dir,
                base.as_path().join(&path_buf(name).as_path()),
            )));
        }
        for (path, kind) in self.children(dir) {
            let name = path.rsplit('/').next().unwrap();
            list.push(Ok((
                kind,
                base.as_path().join(&path_buf(name).as_path()),
            )));
        }
        if self.read_errors_in.as_deref() == Some(dir) {
            list.truncate(3);
            list.push(Err(Error::corruption()));
        }
        Ok(list)
    }
}

/// Lets the walk take the event, and hands out the action that it answers with.
fn advance(walk: &mut Option<RemoveDirAll>, event: RemoveEvent) -> RemoveAction {
    let (next, action) = walk.take().unwrap().step(event);
    *walk = Some(next);
    action
}

fn remove_where(
    tree: &mut Tree,
    path: &str,
    predicate: &dyn Fn(&str) -> bool,
) -> Result<usize> {
    let start = path_buf(path);
    let (walk, mut action) = RemoveDirAll::start(&start.as_path());
    let mut walk = Some(walk);
    let mut open: Vec<(Vec<Result<(FileType, PathBuf)>>, usize)> = Vec::new();
    let mut last = PathBuf::new();
    let mut steps = 0;
    loop {
        steps += 1;
        assert!(steps < 10_000);
        let event = match action {
            RemoveAction::Exists(p) => {
                RemoveEvent::Exists(tree.kind(p.as_path().as_str()).is_some())
            }
            RemoveAction::OpenDir(p) => match tree.list(p.as_path().as_str()) {
                Ok(list) => {
                    open.push((list, 0));
                    tree.open_dirs += 1;
                    RemoveEvent::Opened(Ok(()))
                }
                Err(e) => RemoveEvent::Opened(Err(e)),
            },
            RemoveAction::ReadEntry => {
                let (list, at) = open.last_mut().unwrap();
                if *at < list.len() {
                    *at += 1;
                    match list[*at - 1] {
                        Ok((kind, path)) => {
                            last = path;
                            RemoveEvent::Entry(kind, path)
                        }
                        Err(e) => RemoveEvent::EntryError(e),
                    }
                } else {
                    RemoveEvent::End
                }
            }
            RemoveAction::AskPredicate => {
                RemoveEvent::Predicate(predicate(last.as_path().as_str()))
            }
            RemoveAction::Remove(p) => RemoveEvent::Removed(tree.remove(p.as_path().as_str())),
            RemoveAction::CloseDir => {
                open.pop().unwrap();
                tree.open_dirs -= 1;
                match tree.fail_close {
                    Some(e) => RemoveEvent::Closed(Err(e)),
                    None => RemoveEvent::Closed(Ok(())),
                }
            }
            RemoveAction::Finish(result) => {
                assert!(walk.as_ref().unwrap().is_finished());
                assert!(open.is_empty());
                return result;
            }
        };
        assert!(!walk.as_ref().unwrap().is_finished());
        assert!(walk.as_ref().unwrap().accepts(&event));
        action = advance(&mut walk, event);
    }
}

fn create_all(tree: &mut Tree, path: &str) -> Result<()> {
    let path = path_buf(path);
    let path = path.as_path();
    let mut steps = CreateDirAll::new(&path);
    while let Some(dir) = steps.next_dir() {
        tolerate_existing(tree.create_dir(dir.as_path().as_str()))?;
    }
    Ok(())
}

fn dirs_for(path: &str) -> Vec<String> {
    let path = path_buf(path);
    let path = path.as_path();
    let mut steps = CreateDirAll::new(&path);
    let mut dirs = Vec::new();
    while let Some(dir) = steps.next_dir() {
        dirs.push(dir.as_path().as_str().to_string());
    }
    assert!(steps.next_dir().is_none());
    dirs
}

#[test]
fn create_dir_all_creates_each_directory_on_the_way() {
    assert_eq!(dirs_for("/tmp/test"), ["", "/tmp", "/tmp/test"]);
    assert_eq!(dirs_for("a/b/c"), ["a", "a/b", "a/b/c"]);
    assert_eq!(dirs_for("a/b/"), ["a", "a/b", "a/b/"]);
    assert_eq!(dirs_for("a//b"), ["a", "a/", "a//b"]);
    assert_eq!(dirs_for("plain"), ["plain"]);
    assert_eq!(dirs_for(""), [""]);
    assert_eq!(dirs_for("/"), ["", "/"]);
}

#[test]
fn create_dir_all_tolerates_what_exists() {
    let mut tree = Tree::new();
    create_all(&mut tree, "/tmp/test").unwrap();
    assert_eq!(tree.kind("/tmp"), Some(FileType::Dir));
    assert_eq!(tree.kind("/tmp/test"), Some(FileType::Dir));
    create_all(&mut tree, "/tmp/test").unwrap();
    create_all(&mut tree, "/tmp/test/deeper").unwrap();
    assert_eq!(tree.entries.len(), 3);
    tree.write("/tmp/file");
    assert_eq!(
        create_all(&mut tree, "/tmp/file/below"),
        Err(Error::path_not_dir())
    );
    assert_eq!(tolerate_existing(Ok(())), Ok(()));
    assert_eq!(
        tolerate_existing(Err(Error::entry_already_existed())),
        Ok(())
    );
    assert_eq!(
        tolerate_existing(Err(Error::no_space())),
        Err(Error::no_space())
    );
}

#[test]
fn remove_dir_all() {
    let mut tree = Tree::new();
    create_all(&mut tree, "/tmp/test").unwrap();
    tree.write("/tmp/test/a.txt");
    tree.write("/tmp/test/b.txt");
    tree.write("/tmp/test/c.txt");

    // a directory that is not empty cannot be removed as such
    assert_eq!(tree.remove("/tmp"), Err(Error::dir_not_empty()));
    assert_eq!(remove_where(&mut tree, "/tmp", &|_| true), Ok(3));
    assert!(tree.entries.is_empty());
    assert_eq!(tree.open_dirs, 0);
}

#[test]
fn remove_dir_all_where() {
    let mut tree = Tree::new();
    tree.write("test_file");
    tree.create_dir("test_dir").unwrap();
    tree.write("test_dir/test_file");
    tree.write("test_dir/test_file2");
    let removed =
        remove_where(&mut tree, "", &|path| path != "test_dir/test_file").unwrap();
    assert_eq!(removed, 2);
    assert_eq!(tree.kind("test_dir/test_file"), Some(FileType::File));
    assert_eq!(tree.kind("test_file"), None);
    assert_eq!(tree.kind("test_dir/test_file2"), None);
    // the directory in which a file was kept stays
    assert_eq!(tree.kind("test_dir"), Some(FileType::Dir));
}

#[test]
fn remove_dir_all_where_keeps_the_root() {
    let mut tree = Tree::new();
    tree.write("a");
    tree.create_dir("d").unwrap();
    tree.create_dir("d/e").unwrap();
    tree.write("d/e/f");
    assert_eq!(remove_where(&mut tree, "/", &|_| true), Ok(2));
    assert!(tree.entries.is_empty());
    assert_eq!(tree.kind("/"), Some(FileType::Dir));
    assert_eq!(remove_where(&mut tree, "", &|_| true), Ok(0));
}

#[test]
fn remove_dir_all_where_does_nothing_for_what_is_not_there() {
    let mut tree = Tree::new();
    tree.write("a");
    assert_eq!(remove_where(&mut tree, "/missing", &|_| true), Ok(0));
    assert_eq!(tree.entries.len(), 1);
    // a file is no directory to read
    assert_eq!(
        remove_where(&mut tree, "/a", &|_| true),
        Err(Error::path_not_dir())
    );
    assert_eq!(tree.open_dirs, 0);
}

#[test]
fn remove_dir_all_where_keeps_everything_above_a_kept_file() {
    let mut tree = Tree::new();
    create_all(&mut tree, "x/y/z").unwrap();
    tree.write("x/y/z/keep");
    tree.write("x/y/gone");
    tree.create_dir("x/empty").unwrap();
    assert_eq!(
        remove_where(&mut tree, "x", &|path| !path.ends_with("keep")),
        Ok(1)
    );
    assert_eq!(tree.kind("x/y/z/keep"), Some(FileType::File));
    assert_eq!(tree.kind("x/y/z"), Some(FileType::Dir));
    assert_eq!(tree.kind("x/y"), Some(FileType::Dir));
    assert_eq!(tree.kind("x"), Some(FileType::Dir));
    assert_eq!(tree.kind("x/y/gone"), None);
    assert_eq!(tree.kind("x/empty"), None);
}

#[test]
fn remove_dir_all_where_closes_every_directory_after_an_error() {
    let mut tree = Tree::new();
    create_all(&mut tree, "x/y/z").unwrap();
    tree.write("x/y/z/file");
    tree.fail_remove = Some("x/y/z/file".to_string());
    assert_eq!(
        remove_where(&mut tree, "x", &|_| true),
        Err(Error::io())
    );
    assert_eq!(tree.open_dirs, 0);
    assert_eq!(tree.kind("x/y/z/file"), Some(FileType::File));

    // an error of closing replaces the error that ended the walk
    tree.fail_close = Some(Error::corruption());
    assert_eq!(
        remove_where(&mut tree, "x", &|_| true),
        Err(Error::corruption())
    );
    assert_eq!(tree.open_dirs, 0);

    // and it is an error where the walk went well
    tree.fail_remove = None;
    assert_eq!(
        remove_where(&mut tree, "x", &|_| true),
        Err(Error::corruption())
    );
    assert_eq!(tree.open_dirs, 0);
    assert_eq!(tree.kind("x/y/z/file"), None);
    assert_eq!(tree.kind("x/y/z"), Some(FileType::Dir));
}

#[test]
fn remove_dir_all_where_hands_on_errors_of_opening_and_reading() {
    let mut tree = Tree::new();
    create_all(&mut tree, "x/y").unwrap();
    tree.write("x/y/one");
    tree.write("x/y/two");
    tree.fail_open = Some("x/y".to_string());
    assert_eq!(
        remove_where(&mut tree, "x", &|_| true),
        Err(Error::io())
    );
    assert_eq!(tree.open_dirs, 0);
    tree.fail_open = None;
    tree.read_errors_in = Some("x/y".to_string());
    assert_eq!(
        remove_where(&mut tree, "x", &|_| true),
        Err(Error::corruption())
    );
    assert_eq!(tree.open_dirs, 0);
    assert_eq!(tree.kind("x/y/one"), None);
    assert_eq!(tree.kind("x/y/two"), Some(FileType::File));
}

#[test]
fn the_first_two_entries_of_a_directory_are_passed_over() {
    let start = path_buf("d");
    let (walk, action) = RemoveDirAll::start(&start.as_path());
    let mut walk = Some(walk);
    assert!(matches!(action, RemoveAction::Exists(p) if p == start));
    assert!(!walk.as_ref().unwrap().accepts(&RemoveEvent::End));
    assert!(matches!(
        advance(&mut walk, RemoveEvent::Exists(true)),
        RemoveAction::OpenDir(p) if p == start
    ));
    assert!(matches!(
        advance(&mut walk, RemoveEvent::Opened(Ok(()))),
        RemoveAction::ReadEntry
    ));
    // whatever comes first and second is not looked at
    assert!(matches!(
        advance(&mut walk, RemoveEvent::Entry(FileType::File, path_buf("d/first"))),
        RemoveAction::ReadEntry
    ));
    assert!(matches!(
        advance(&mut walk, RemoveEvent::EntryError(Error::io())),
        RemoveAction::ReadEntry
    ));
    assert!(matches!(
        advance(&mut walk, RemoveEvent::Entry(FileType::File, path_buf("d/third"))),
        RemoveAction::AskPredicate
    ));
    assert!(matches!(
        advance(&mut walk, RemoveEvent::Predicate(true)),
        RemoveAction::Remove(p) if p == path_buf("d/third")
    ));
    assert!(matches!(
        advance(&mut walk, RemoveEvent::Removed(Ok(()))),
        RemoveAction::ReadEntry
    ));
    assert!(matches!(advance(&mut walk, RemoveEvent::End), RemoveAction::CloseDir));
    assert!(matches!(
        advance(&mut walk, RemoveEvent::Closed(Ok(()))),
        RemoveAction::Remove(p) if p == start
    ));
    assert!(matches!(
        advance(&mut walk, RemoveEvent::Removed(Ok(()))),
        RemoveAction::Finish(Ok(1))
    ));
    assert!(walk.as_ref().unwrap().is_finished());
    assert!(!walk.as_ref().unwrap().accepts(&RemoveEvent::End));
}

#[test]
fn scopes_report_the_error_of_closing_first() {
    assert_eq!(closed_scope(Ok(5), Ok(())), Ok(5));
    assert_eq!(
        closed_scope(Ok(5), Err(Error::io())),
        Err(Error::io())
    );
    assert_eq!(
        closed_scope::<u8>(Err(Error::no_space()), Ok(())),
        Err(Error::no_space())
    );
    assert_eq!(
        closed_scope::<u8>(Err(Error::no_space()), Err(Error::io())),
        Err(Error::io())
    );
}

#[test]
fn callbacks_that_did_not_run_are_an_io_error() {
    assert_eq!(callback_result(Ok(()), Some(5)), Ok(5));
    assert_eq!(callback_result::<u8>(Ok(()), None), Err(Error::io()));
    assert_eq!(
        callback_result(Err(Error::no_such_entry()), Some(5)),
        Err(Error::no_such_entry())
    );
    assert_eq!(
        callback_result::<u8>(Err(Error::no_such_entry()), None),
        Err(Error::no_such_entry())
    );
}
