use rurt::item::{lex_rank, EntryKind, Item, ItemInfo, Rank};
use std::sync::Arc;

fn entry(name: &[u8], path: &[u8], kind: EntryKind) -> Item {
    Item::FileEntry {
        name: name.to_vec(),
        info: Arc::new(ItemInfo {
            file_type: kind,
            path: path.to_vec(),
            filename: name.to_vec(),
            link_dest: None,
        }),
    }
}

fn file(name: &str) -> Item {
    entry(name.as_bytes(), format!("/r/{}", name).as_bytes(), EntryKind::File)
}

fn dir(name: &str) -> Item {
    entry(name.as_bytes(), format!("/r/{}", name).as_bytes(), EntryKind::Dir)
}

fn failure(msg: &str) -> Item {
    Item::WalkError { msg: msg.to_string() }
}

#[test]
fn byte_strings_are_ordered_like_words() {
    assert_eq!(lex_rank(b"", b""), Rank::Same);
    assert_eq!(lex_rank(b"abc", b"abc"), Rank::Same);
    assert_eq!(lex_rank(b"", b"a"), Rank::Before);
    assert_eq!(lex_rank(b"a", b""), Rank::After);
    assert_eq!(lex_rank(b"ab", b"abc"), Rank::Before);
    assert_eq!(lex_rank(b"abd", b"abc"), Rank::After);
    assert_eq!(lex_rank(b"B", b"a"), Rank::Before);
    assert_eq!(lex_rank(b"a\xff", b"b"), Rank::Before);
    assert_eq!(lex_rank(b"\xff", b"\x7f"), Rank::After);
}

#[test]
fn directories_come_before_other_entries() {
    assert_eq!(dir("z").rank(&file("a")), Rank::Before);
    assert_eq!(file("a").rank(&dir("z")), Rank::After);
    let link = entry(b"a", b"/r/a", EntryKind::Symlink);
    assert_eq!(dir("z").rank(&link), Rank::Before);
    assert_eq!(link.rank(&file("b")), Rank::Before);
}

#[test]
fn entries_of_one_group_go_by_name() {
    assert_eq!(file("a").rank(&file("b")), Rank::Before);
    assert_eq!(file("b").rank(&file("a")), Rank::After);
    assert_eq!(dir("a").rank(&dir("ab")), Rank::Before);
    assert_eq!(file("a").rank(&file("a")), Rank::Same);
    // the path does not count
    let here = entry(b"a", b"/here/a", EntryKind::File);
    let there = entry(b"a", b"/there/a", EntryKind::File);
    assert_eq!(here.rank(&there), Rank::Same);
}

#[test]
fn failures_come_last_and_go_by_message() {
    assert_eq!(file("zzz").rank(&failure("a")), Rank::Before);
    assert_eq!(dir("zzz").rank(&failure("a")), Rank::Before);
    assert_eq!(failure("a").rank(&file("zzz")), Rank::After);
    assert_eq!(failure("a").rank(&failure("b")), Rank::Before);
    assert_eq!(failure("b").rank(&failure("a")), Rank::After);
    assert_eq!(failure("a").rank(&failure("a")), Rank::Same);
}

#[test]
fn same_rows_have_one_name_and_one_path() {
    assert!(file("a").same(&file("a")));
    assert!(!file("a").same(&file("b")));
    let here = entry(b"a", b"/here/a", EntryKind::File);
    let there = entry(b"a", b"/there/a", EntryKind::File);
    assert!(!here.same(&there));
    // the kind does not count
    assert!(file("a").same(&dir("a")));
    assert!(failure("x").same(&failure("x")));
    assert!(!failure("x").same(&failure("y")));
    assert!(!failure("a").same(&file("a")));
    assert!(!file("a").same(&failure("a")));
}

#[test]
fn equality_is_sameness() {
    assert!(file("a") == file("a"));
    assert!(file("a") != file("b"));
    assert!(file("a") == dir("a"));
    assert!(failure("x") == failure("x"));
    assert!(failure("a") != file("a"));
    let here = entry(b"a", b"/here/a", EntryKind::File);
    let there = entry(b"a", b"/there/a", EntryKind::File);
    assert!(here != there);
    match (&here, &there, &file("other")) {
        (
            Item::FileEntry { info: a, .. },
            Item::FileEntry { info: b, .. },
            Item::FileEntry { info: c, .. },
        ) => {
            assert!(a != b);
            assert!(a == a);
            assert!(b != c);
        }
        _ => panic!("entries were expected"),
    }
}

#[test]
fn text_is_the_name_or_the_message() {
    assert_eq!(file("sub/a.txt").text(), "sub/a.txt");
    assert_eq!(failure("cannot read").text(), "cannot read");
    let odd = entry(b"caf\xe9", b"/r/caf\xe9", EntryKind::File);
    assert_eq!(odd.text(), "caf\u{fffd}");
    assert_eq!(odd.label(), b"caf\xe9");
    assert_eq!(failure("m").label(), b"m");
}

#[test]
fn path_is_that_of_an_entry() {
    assert_eq!(file("a").path(), Some(&b"/r/a"[..]));
    assert_eq!(failure("a").path(), None);
    assert!(dir("d").is_dir());
    assert!(!file("d").is_dir());
    assert!(!failure("d").is_dir());
}

#[test]
fn duplicate_is_the_same_row() {
    let link = Item::FileEntry {
        name: b"l".to_vec(),
        info: Arc::new(ItemInfo {
            file_type: EntryKind::Symlink,
            path: b"/r/l".to_vec(),
            filename: b"l".to_vec(),
            link_dest: Some(b"/target".to_vec()),
        }),
    };
    let copy = link.duplicate();
    assert!(copy.same(&link));
    match (&copy, &link) {
        (Item::FileEntry { info: a, .. }, Item::FileEntry { info: b, .. }) => {
            assert!(Arc::ptr_eq(a, b));
            assert_eq!(a.link_dest, Some(b"/target".to_vec()));
            let own = a.duplicate();
            assert_eq!(own.path, b"/r/l".to_vec());
            assert_eq!(own.file_type, EntryKind::Symlink);
        }
        _ => panic!("entries were expected"),
    }
    let f = failure("x").duplicate();
    assert_eq!(f.text(), "x");
}

#[test]
fn kinds_tell_files_and_directories() {
    assert!(EntryKind::Dir.is_dir());
    assert!(!EntryKind::Dir.is_file());
    assert!(EntryKind::File.is_file());
    assert!(!EntryKind::Symlink.is_file());
    assert!(!EntryKind::Other.is_dir());
}
