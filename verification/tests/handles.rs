use nimbus::file_handler::{FileHandler, WRITE_BUFFER_CAPACITY};
use nimbus::files::NimbusFS;
use nimbus::fuse::{HostErrorKind, IFileHandle, INode};

fn b(text: &str) -> Vec<u8> {
    text.as_bytes().to_vec()
}

fn mount() -> NimbusFS {
    NimbusFS::default(b("/srv/store"), b("/mnt"))
}

fn fh(index: u64) -> IFileHandle {
    IFileHandle::from(index)
}

#[test]
fn the_write_buffer_holds_256_kib() {
    assert_eq!(WRITE_BUFFER_CAPACITY, 256 * 1024);
}

#[test]
fn a_record_remembers_how_the_file_was_opened() {
    let h = FileHandler::new(INode::from(5), 0, true);
    assert_eq!(h, FileHandler { ino: INode::from(5), offset: 0, use_write_buffer: true });
    assert!(!h.can_read());
    assert!(FileHandler::new(INode::from(5), 0, false).can_read());
}

#[test]
fn a_record_follows_the_cursor() {
    let mut h = FileHandler::new(INode::from(5), 0, false);
    h.seeked(4096);
    assert_eq!(h.offset, 4096);
    h.advanced(100);
    assert_eq!(h.offset, 4196);
    h.advanced(0);
    assert_eq!(h.offset, 4196);
    h.seeked(0);
    assert_eq!(h.offset, 0);
    assert_eq!(h.ino, INode::from(5));
    assert!(!h.use_write_buffer);
}

#[test]
fn handles_are_issued_in_order() {
    let mut fs = mount();
    let a = fs.lookup_or_create_path(&b("/srv/store/p/a"));
    assert_eq!(fs.register_file_handler(a, false), fh(1));
    assert_eq!(fs.register_file_handler(a, true), fh(2));
    assert_eq!(fs.register_file_handler(INode::from(1), false), fh(3));
    assert_eq!(fs.count_file_handlers(), 3);
}

#[test]
fn a_handle_is_never_issued_twice() {
    let mut fs = mount();
    let a = fs.lookup_or_create_path(&b("/srv/store/p/a"));
    let first = fs.register_file_handler(a, false);
    fs.delete_file_handler_result(a, first).unwrap();
    let second = fs.register_file_handler(a, false);
    assert_eq!(first, fh(1));
    assert_eq!(second, fh(2));
}

#[test]
fn a_registered_handle_is_found_with_its_record() {
    let mut fs = mount();
    let a = fs.lookup_or_create_path(&b("/srv/store/p/a"));
    let h = fs.register_file_handler(a, true);
    assert_eq!(
        fs.lookup_file_handler_result(h),
        Ok(FileHandler { ino: a, offset: 0, use_write_buffer: true })
    );
    assert_eq!(fs.lookup_file_handler_result(fh(99)), Err(HostErrorKind::NotFound));
    assert_eq!(fs.lookup_file_handler_result(fh(0)), Err(HostErrorKind::NotFound));
}

#[test]
fn handles_are_listed_by_inode() {
    let mut fs = mount();
    let a = fs.lookup_or_create_path(&b("/srv/store/p/a"));
    let c = fs.lookup_or_create_path(&b("/srv/store/p/c"));
    let h1 = fs.register_file_handler(a, false);
    let h2 = fs.register_file_handler(c, false);
    let h3 = fs.register_file_handler(a, true);
    assert_eq!(fs.flush_associated_file_handlers(a), vec![h1, h3]);
    assert_eq!(fs.flush_associated_file_handlers(c), vec![h2]);
    assert_eq!(fs.flush_associated_file_handlers(INode::from(1)), Vec::<IFileHandle>::new());
    assert_eq!(fs.flush_associated_file_handlers(INode::from(77)), Vec::<IFileHandle>::new());
}

#[test]
fn a_handle_is_in_the_list_of_the_inode_it_names() {
    let mut fs = mount();
    let inodes: Vec<INode> = (0..4)
        .map(|i| fs.lookup_or_create_path(&format!("/srv/store/p/f{}", i).into_bytes()))
        .collect();
    for round in 0..12u64 {
        fs.register_file_handler(inodes[(round % 4) as usize], round % 3 == 0);
    }
    fs.delete_file_handler_result(inodes[1], fh(2)).unwrap();
    fs.delete_file_handler_result(inodes[0], fh(9)).unwrap();
    for ino in inodes.iter() {
        for h in 0..14u64 {
            let listed = fs.flush_associated_file_handlers(*ino).contains(&fh(h));
            let named = match fs.lookup_file_handler_result(fh(h)) {
                Ok(record) => record.ino == *ino,
                Err(_) => false,
            };
            assert_eq!(listed, named);
        }
    }
    assert_eq!(fs.count_file_handlers(), 10);
}

#[test]
fn delete_removes_the_handle_from_table_and_list() {
    let mut fs = mount();
    let a = fs.lookup_or_create_path(&b("/srv/store/p/a"));
    let h1 = fs.register_file_handler(a, false);
    let h2 = fs.register_file_handler(a, true);
    assert_eq!(
        fs.delete_file_handler_result(a, h1),
        Ok(FileHandler { ino: a, offset: 0, use_write_buffer: false })
    );
    assert_eq!(fs.lookup_file_handler_result(h1), Err(HostErrorKind::NotFound));
    assert_eq!(fs.flush_associated_file_handlers(a), vec![h2]);
    assert_eq!(fs.count_file_handlers(), 1);
    assert_eq!(fs.delete_file_handler_result(a, h1), Err(HostErrorKind::NotFound));
    assert_eq!(fs.flush_associated_file_handlers(a), vec![h2]);
    assert_eq!(
        fs.delete_file_handler_result(a, h2),
        Ok(FileHandler { ino: a, offset: 0, use_write_buffer: true })
    );
    assert_eq!(fs.flush_associated_file_handlers(a), Vec::<IFileHandle>::new());
    assert_eq!(fs.count_file_handlers(), 0);
}

#[test]
fn delete_under_another_inode_finds_nothing() {
    let mut fs = mount();
    let a = fs.lookup_or_create_path(&b("/srv/store/p/a"));
    let c = fs.lookup_or_create_path(&b("/srv/store/p/c"));
    let h = fs.register_file_handler(a, false);
    assert_eq!(fs.delete_file_handler_result(c, h), Err(HostErrorKind::NotFound));
    assert_eq!(fs.flush_associated_file_handlers(a), vec![h]);
    assert_eq!(fs.count_file_handlers(), 1);
}

#[test]
fn the_noted_offset_is_kept_with_the_handle() {
    let mut fs = mount();
    let a = fs.lookup_or_create_path(&b("/srv/store/p/a"));
    let h = fs.register_file_handler(a, false);
    fs.record_offset(h, 524288);
    assert_eq!(
        fs.lookup_file_handler_result(h),
        Ok(FileHandler { ino: a, offset: 524288, use_write_buffer: false })
    );
    fs.record_offset(fh(42), 7);
    assert_eq!(fs.lookup_file_handler_result(fh(42)), Err(HostErrorKind::NotFound));
    assert_eq!(fs.count_file_handlers(), 1);
    assert_eq!(fs.flush_associated_file_handlers(a), vec![h]);
}
