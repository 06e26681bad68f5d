use zen_core::tagfs::ObjectMeta;
use zen_core::tagfs::Tag;
use zen_core::tagfs::TagFs;
use zen_core::tagfs::TagFsError;
use zen_core::tagfs::TagIndex;

#[test]
fn object_meta_fields() {
    let m = ObjectMeta::new(12, 512);
    assert_eq!(m.id, 12);
    assert_eq!(m.size, 512);
}

#[test]
fn tag_round_trips_short_names() {
    let t = Tag::new("documents");
    assert_eq!(t.as_str(), "documents");
    assert_eq!(Tag::new(""), Tag::new(""));
}

#[test]
fn tag_truncates_to_thirty_two_bytes() {
    let long = "abcdefghijklmnopqrstuvwxyz0123456789";
    let t = Tag::new(long);
    assert_eq!(t.as_str(), &long[..32]);
    assert_eq!(t, Tag::new(&long[..32]));
}

#[test]
fn tag_equality_is_by_bytes() {
    assert_eq!(Tag::new("alpha"), Tag::new("alpha"));
    assert_ne!(Tag::new("alpha"), Tag::new("beta"));
    assert_ne!(Tag::new("alpha"), Tag::new("alph"));
}

#[test]
fn index_insert_and_lookup() {
    let mut index = TagIndex::new();
    assert_eq!(index.lookup(&Tag::new("docs")), None);
    index.insert(Tag::new("docs"), 1).unwrap();
    index.insert(Tag::new("music"), 2).unwrap();
    assert_eq!(index.lookup(&Tag::new("docs")), Some(1));
    assert_eq!(index.lookup(&Tag::new("music")), Some(2));
    assert_eq!(index.lookup(&Tag::new("video")), None);
}

#[test]
fn same_tag_fills_both_tables_then_fails() {
    let mut index = TagIndex::new();
    index.insert(Tag::new("dup"), 1).unwrap();
    // The first table's bucket is taken, so the second table catches it.
    index.insert(Tag::new("dup"), 2).unwrap();
    assert_eq!(
        index.insert(Tag::new("dup"), 3),
        Err(TagFsError::HashTableFull)
    );
    // Lookups answer the first table's binding.
    assert_eq!(index.lookup(&Tag::new("dup")), Some(1));
}

#[test]
fn create_allocates_sequential_ids() {
    let mut fs = TagFs::init();
    let id1 = fs
        .tagfs_create(&vec![Tag::new("a"), Tag::new("b")], &[1, 2, 3])
        .unwrap();
    let id2 = fs.tagfs_create(&vec![Tag::new("c")], &[]).unwrap();
    assert_eq!(id1, 1);
    assert_eq!(id2, 2);
    assert_eq!(fs.tagfs_query(&Tag::new("a")), Some(1));
    assert_eq!(fs.tagfs_query(&Tag::new("b")), Some(1));
    assert_eq!(fs.tagfs_query(&Tag::new("c")), Some(2));
    assert_eq!(fs.tagfs_query(&Tag::new("d")), None);
}

#[test]
fn add_tag_binds_existing_object() {
    let mut fs = TagFs::init();
    let id = fs.tagfs_create(&vec![Tag::new("report")], &[]).unwrap();
    fs.tagfs_add_tag(id, Tag::new("draft")).unwrap();
    assert_eq!(fs.tagfs_query(&Tag::new("draft")), Some(id));
}

#[test]
fn create_reports_full_table() {
    let mut fs = TagFs::init();
    let tags = vec![Tag::new("x"), Tag::new("x"), Tag::new("x")];
    // The third copy of the same tag finds both buckets taken.
    assert_eq!(
        fs.tagfs_create(&tags, &[]),
        Err(TagFsError::HashTableFull)
    );
    // The id was still consumed; the next object gets the following one.
    assert_eq!(fs.tagfs_create(&vec![Tag::new("y")], &[]), Ok(2));
}
