use std::path::PathBuf;

use toad_core::keyed::KeyedList;
use toad_core::order::{bytes_less, text_eq, text_less};
use toad_core::paths::join_path;
use toad_core::registry::TagRegistry;
use toad_core::tags::TagSet;

#[test]
fn join_matches_pathbuf_join() {
    let cases = [("/a", "b"), ("/a/", "b"), ("", "b"), ("/a", "/abs"), ("a", ""), ("/tmp/x", "c/d")];
    for (base, part) in cases {
        let expected = PathBuf::from(base).join(part);
        assert_eq!(PathBuf::from(join_path(base, part)), expected, "{base} + {part}");
        assert_eq!(join_path(base, part), expected.to_str().unwrap());
    }
}

#[test]
fn text_order_is_string_order() {
    let words = ["", "a", "ab", "b", "B", "é", "z", "aa", "#rust", "#go"];
    for x in words {
        for y in words {
            assert_eq!(text_less(x, y), x < y, "{x} < {y}");
            assert_eq!(text_eq(x, y), x == y);
        }
    }
}

#[test]
fn byte_order_is_lexicographic() {
    assert!(bytes_less(b"a", b"b"));
    assert!(bytes_less(b"a", b"ab"));
    assert!(!bytes_less(b"ab", b"ab"));
    assert!(bytes_less(&[0x7f], &[0xff]));
}

#[test]
fn keyed_list_reads_back_writes() {
    let mut m: KeyedList<u32> = KeyedList::new();
    m.insert("a".to_string(), 1);
    m.insert("b".to_string(), 2);
    m.insert("a".to_string(), 3);
    assert_eq!(m.get("a"), Some(&3));
    assert_eq!(m.get("b"), Some(&2));
    assert_eq!(m.len(), 2);
    assert_eq!(m.remove("a"), Some(3));
    assert_eq!(m.get("a"), None);
    assert!(!m.contains_key("a"));
    assert!(m.contains_key("b"));
    assert_eq!(m.remove("zzz"), None);
}

#[test]
fn tag_set_keeps_order_and_no_duplicates() {
    let mut s = TagSet::new();
    assert!(s.insert("#rust".to_string()));
    assert!(s.insert("#go".to_string()));
    assert!(!s.insert("#rust".to_string()));
    assert_eq!(s.sorted(), vec!["#go".to_string(), "#rust".to_string()]);
    assert!(s.contains("#go"));
    assert!(s.remove("#go"));
    assert!(!s.remove("#go"));
    assert_eq!(s.sorted(), vec!["#rust".to_string()]);
}

#[test]
fn tags_added_are_listed_sorted() {
    let mut reg = TagRegistry::default();
    reg.add_tag("proj", "zeta");
    reg.add_tag("proj", "alpha");
    reg.add_tag("proj", "alpha");
    reg.add_tag("other", "x");
    assert_eq!(reg.get_tags("proj"), vec!["alpha".to_string(), "zeta".to_string()]);
    assert_eq!(reg.get_tags("other"), vec!["x".to_string()]);
    assert_eq!(reg.get_tags("missing"), Vec::<String>::new());
}

#[test]
fn tag_removed_is_gone_and_others_stay() {
    let mut reg = TagRegistry::default();
    reg.add_tag("proj", "a");
    reg.add_tag("proj", "b");
    reg.add_tag("other", "a");
    reg.remove_tag("proj", "a");
    assert_eq!(reg.get_tags("proj"), vec!["b".to_string()]);
    assert_eq!(reg.get_tags("other"), vec!["a".to_string()]);
    reg.remove_tag("nobody", "a");
    assert_eq!(reg.get_tags("nobody"), Vec::<String>::new());
    assert!(!reg.projects.contains_key("nobody"));
}

#[test]
fn remove_undoes_add() {
    let mut reg = TagRegistry::default();
    reg.add_tag("p", "keep");
    let before = reg.get_tags("p");
    reg.add_tag("p", "new");
    reg.remove_tag("p", "new");
    assert_eq!(reg.get_tags("p"), before);
}
