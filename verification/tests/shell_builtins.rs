use mnemosyne::execution::shell_native::{
    descends_into, entry_value, listing_failed, size_arg_or, sort_by_name, stat_failed, stat_value,
    str_arg, type_keyword, ArgData, ArgValue, EntryKind, Listed, Walk, DEFAULT_STREAM_CAP, NS,
};

fn arg(data: ArgData, label: &str) -> ArgValue {
    ArgValue { data, type_label: label.to_owned() }
}

fn listed(dir: &str, name: &str, kind: EntryKind) -> Listed {
    Listed { path: format!("{dir}/{name}"), name: name.to_owned(), kind }
}

#[test]
fn kinds_follow_the_file_type_tests() {
    assert_eq!(type_keyword(true, false, false), EntryKind::Symlink);
    assert_eq!(type_keyword(true, true, false), EntryKind::Symlink);
    assert_eq!(type_keyword(false, true, false), EntryKind::Dir);
    assert_eq!(type_keyword(false, false, true), EntryKind::File);
    assert_eq!(type_keyword(false, false, false), EntryKind::Other);
    assert_eq!(EntryKind::File.keyword(), "file");
    assert_eq!(EntryKind::Dir.keyword(), "dir");
    assert_eq!(EntryKind::Symlink.keyword(), "symlink");
    assert_eq!(EntryKind::Other.keyword(), "other");
    assert!(descends_into(EntryKind::Dir));
    assert!(!descends_into(EntryKind::Symlink));
    assert!(!descends_into(EntryKind::File));
}

#[test]
fn builtin_constants() {
    assert_eq!(NS, "mnemosyne.shell.native");
    assert_eq!(DEFAULT_STREAM_CAP, 8);
}

#[test]
fn entry_maps_carry_path_name_kind_and_depth() {
    let e = entry_value("/tmp/a/b.txt", EntryKind::File, None);
    assert_eq!(e.path, "/tmp/a/b.txt");
    assert_eq!(e.name, "b.txt");
    assert_eq!(e.kind, EntryKind::File);
    assert_eq!(e.depth, None);
    let d = entry_value("/tmp/a", EntryKind::Dir, Some(2));
    assert_eq!(d.name, "a");
    assert_eq!(d.depth, Some(2));
}

#[test]
fn string_arguments() {
    let args = vec![arg(ArgData::Str("/tmp".into()), "string"), arg(ArgData::Long(3), "long")];
    assert_eq!(str_arg(&args, 0, "string (path)").unwrap(), "/tmp");
    let err = str_arg(&args, 1, "string (path)").unwrap_err();
    assert_eq!(err.expected, "string (path)");
    assert_eq!(err.got, "long");
    let missing = str_arg(&args, 2, "string (path)").unwrap_err();
    assert_eq!(missing.got, "");
}

#[test]
fn size_arguments() {
    let args = vec![
        arg(ArgData::Str("/tmp".into()), "string"),
        arg(ArgData::Long(0), "long"),
        arg(ArgData::Long(5), "long"),
        arg(ArgData::Long(-1), "long"),
        arg(ArgData::Nil, "nil"),
        arg(ArgData::Other, "vector"),
    ];
    assert_eq!(size_arg_or(&args, 1, 8).unwrap(), 1);
    assert_eq!(size_arg_or(&args, 2, 8).unwrap(), 5);
    assert_eq!(size_arg_or(&args, 4, 8).unwrap(), 8);
    assert_eq!(size_arg_or(&args, 9, 8).unwrap(), 8);
    let neg = size_arg_or(&args, 3, 8).unwrap_err();
    assert_eq!(neg.expected, "non-negative long");
    assert_eq!(neg.got, "long");
    assert_eq!(size_arg_or(&args, 5, 8).unwrap_err().got, "vector");
    assert_eq!(size_arg_or(&args, 0, 8).unwrap_err().got, "string");
}

#[test]
fn listings_come_in_byte_order_of_names() {
    let entries = vec![
        listed("/d", "zeta", EntryKind::File),
        listed("/d", "Alpha", EntryKind::Dir),
        listed("/d", "alpha", EntryKind::File),
        listed("/d", "al", EntryKind::Symlink),
        listed("/d", "é", EntryKind::File),
    ];
    let names: Vec<String> = sort_by_name(entries).into_iter().map(|e| e.name).collect();
    assert_eq!(names, vec!["Alpha", "al", "alpha", "zeta", "é"]);
    assert!(sort_by_name(Vec::new()).is_empty());
}

#[test]
fn walk_is_depth_first_with_children_in_name_order() {
    let mut walk = Walk::new("/r", EntryKind::Dir);
    let root = walk.next().unwrap();
    assert_eq!(root.path, "/r");
    assert_eq!(root.depth, 0);
    walk.descend(
        root.depth,
        sort_by_name(vec![listed("/r", "b", EntryKind::Dir), listed("/r", "a", EntryKind::File)]),
    );
    let a = walk.next().unwrap();
    assert_eq!(a.path, "/r/a");
    assert_eq!(a.depth, 1);
    assert!(!descends_into(a.kind));
    let b = walk.next().unwrap();
    assert_eq!(b.path, "/r/b");
    assert!(descends_into(b.kind));
    walk.descend(b.depth, vec![listed("/r/b", "c", EntryKind::File)]);
    let c = walk.next().unwrap();
    assert_eq!(c.path, "/r/b/c");
    assert_eq!(c.depth, 2);
    assert!(walk.next().is_none());
    assert!(walk.next().is_none());
}

#[test]
fn stat_entries_and_error_texts() {
    let s = stat_value("/tmp/x.txt", EntryKind::File, 12, true, Some(1_700_000_000_123));
    assert_eq!(s.path, "/tmp/x.txt");
    assert_eq!(s.name, "x.txt");
    assert_eq!(s.size, 12);
    assert!(s.readonly);
    assert_eq!(s.modified, Some(1_700_000_000_123));
    assert_eq!(stat_value("/tmp", EntryKind::Dir, 0, false, None).modified, None);
    assert_eq!(
        listing_failed("/nope", "No such file or directory (os error 2)"),
        "cannot list /nope: No such file or directory (os error 2)"
    );
    assert_eq!(stat_failed("/nope", "denied"), "cannot stat /nope: denied");
}

#[test]
fn ls_lists_entries_sorted_with_types() {
    let listing = vec![
        listed("/scratch/ls", "b.txt", type_keyword(false, false, true)),
        listed("/scratch/ls", "a.txt", type_keyword(false, false, true)),
        listed("/scratch/ls", "sub", type_keyword(false, true, false)),
    ];
    let entries: Vec<(String, &str)> = sort_by_name(listing)
        .into_iter()
        .map(|l| entry_value(&l.path, l.kind, None))
        .map(|e| (e.name, e.kind.keyword()))
        .collect();
    assert_eq!(
        entries,
        vec![("a.txt".to_owned(), "file"), ("b.txt".to_owned(), "file"), ("sub".to_owned(), "dir")]
    );
}
