use nimbus::convert::{
    FileKind, HostFileType, HostMetadata, OpenMode, OpenPlan, Timestamp,
};
use nimbus::file_handler::FileHandler;
use nimbus::files::{
    construct_file_time, Created, DirectoryEntry, FileTimes, LockIntention, NimbusFS, Opened,
    RefChange, TimeOrNow, ATTR_TTL_SECS, RENAME_EXCHANGE, RENAME_NOREPLACE, RENAME_WHITEOUT,
    ROOT_INO,
};
use nimbus::fuse::{HostErrorKind, IFileHandle, INode};

const FILE: HostFileType = HostFileType {
    is_file: true,
    is_dir: false,
    is_symlink: false,
    is_block_device: false,
    is_char_device: false,
    is_fifo: false,
    is_socket: false,
};

const DIR: HostFileType = HostFileType { is_file: false, is_dir: true, ..FILE };

fn b(text: &str) -> Vec<u8> {
    text.as_bytes().to_vec()
}

fn mount() -> NimbusFS {
    NimbusFS::default(b("/srv/store"), b("/mnt"))
}

fn root() -> INode {
    INode::from(ROOT_INO)
}

fn metadata(size: u64) -> HostMetadata {
    HostMetadata {
        ino: 555,
        size,
        blocks: 8,
        accessed: Some(Timestamp { secs: 10, nanos: 1 }),
        modified: Some(Timestamp { secs: 20, nanos: 2 }),
        created: Some(Timestamp { secs: 5, nanos: 3 }),
        ctime: 30,
        file_type: FILE,
        mode: 0o100600,
        nlink: 1,
        uid: 1000,
        gid: 1000,
        rdev: 0,
        blksize: 4096,
    }
}

#[test]
fn attributes_live_for_a_second() {
    assert_eq!(ATTR_TTL_SECS, 1);
}

#[test]
fn the_rename_flags_are_the_hosts() {
    assert_eq!(RENAME_NOREPLACE, libc::RENAME_NOREPLACE);
    assert_eq!(RENAME_EXCHANGE, libc::RENAME_EXCHANGE);
    assert_eq!(RENAME_WHITEOUT, libc::RENAME_WHITEOUT);
}

#[test]
fn times_are_taken_as_stated_or_as_now() {
    let now = Timestamp { secs: 100, nanos: 5 };
    let stated = Timestamp { secs: 42, nanos: 7 };
    assert_eq!(
        construct_file_time(Some(TimeOrNow::SpecificTime(stated)), Some(TimeOrNow::Now), now),
        FileTimes { accessed: Some(stated), modified: Some(now) }
    );
    assert_eq!(
        construct_file_time(Some(TimeOrNow::Now), None, now),
        FileTimes { accessed: Some(now), modified: None }
    );
    assert_eq!(
        construct_file_time(None, Some(TimeOrNow::SpecificTime(stated)), now),
        FileTimes { accessed: None, modified: Some(stated) }
    );
    assert_eq!(construct_file_time(None, None, now), FileTimes { accessed: None, modified: None });
}

#[test]
fn attributes_carry_the_mounts_inode() {
    let fs = mount();
    let attr = fs.getattr_fs(INode::from(3), &metadata(5));
    assert_eq!(attr.ino, 3);
    assert_eq!(attr.size, 5);
    assert_eq!(attr.kind, FileKind::RegularFile);
    assert_eq!(attr.perm, 0o600);
    assert_eq!(attr.ctime, Timestamp { secs: 30, nanos: 0 });
    assert_eq!(attr.mtime, Timestamp { secs: 20, nanos: 2 });
    assert_eq!(attr.flags, 0);
}

#[test]
fn getattr_names_path_and_handles_to_flush() {
    let mut fs = mount();
    let a = fs.lookup_or_create_path(&b("/srv/store/p/a.txt"));
    let h1 = fs.register_file_handler(a, true);
    let h2 = fs.register_file_handler(a, false);
    let plan = fs.getattr_plan(a).unwrap();
    assert_eq!(plan.path, b("/srv/store/p/a.txt"));
    assert_eq!(plan.flush, vec![h1, h2]);
    let plan = fs.getattr_plan(root()).unwrap();
    assert_eq!(plan.path, b("/srv/store"));
    assert!(plan.flush.is_empty());
    assert_eq!(fs.getattr_plan(INode::from(99)).unwrap_err(), HostErrorKind::NotFound);
}

#[test]
fn lookup_binds_counts_and_follows() {
    let mut fs = mount();
    let plan = fs.lookup_fs(root(), &b("p"), 4242, 3).unwrap();
    assert_eq!(plan.path, b("/srv/store/p"));
    assert_eq!(plan.ino, INode::from(2));
    assert!(plan.flush.is_empty());
    assert_eq!(plan.change, RefChange { count: 1, intention: LockIntention::Acquire });
    assert_eq!(plan.follower.pid, 4242);
    assert_eq!(plan.follower.project, b("p"));
    assert_eq!(plan.follower.project_directory, b("/mnt/p"));
    assert_eq!(plan.follower.retry_limit, 3);
    assert_eq!(fs.project_ref_count(&b("p")), 1);
    assert_eq!(fs.lookup_file_result(&b("/srv/store/p")), Ok(INode::from(2)));
}

#[test]
fn a_second_lookup_finds_the_same_inode() {
    let mut fs = mount();
    let p = fs.lookup_fs(root(), &b("p"), 1, 0).unwrap().ino;
    let a = fs.lookup_fs(p, &b("a.txt"), 1, 0).unwrap();
    assert_eq!(a.path, b("/srv/store/p/a.txt"));
    assert_eq!(a.ino, INode::from(3));
    assert_eq!(a.change, RefChange { count: 2, intention: LockIntention::Nothing });
    let again = fs.lookup_fs(p, &b("a.txt"), 1, 0).unwrap();
    assert_eq!(again.ino, INode::from(3));
    assert_eq!(again.change.count, 3);
    assert_eq!(fs.project_ref_count(&b("p")), 3);
}

#[test]
fn lookup_names_the_open_files_of_the_entry() {
    let mut fs = mount();
    let p = fs.lookup_or_create_path(&b("/srv/store/p"));
    let a = fs.lookup_or_create_path(&b("/srv/store/p/a.txt"));
    let h = fs.register_file_handler(a, true);
    let plan = fs.lookup_fs(p, &b("a.txt"), 1, 0).unwrap();
    assert_eq!(plan.ino, a);
    assert_eq!(plan.flush, vec![h]);
}

#[test]
fn lookup_below_an_unknown_parent_finds_nothing() {
    let mut fs = mount();
    assert_eq!(
        fs.lookup_fs(INode::from(50), &b("a.txt"), 1, 0).unwrap_err(),
        HostErrorKind::NotFound
    );
    assert_eq!(fs.project_ref_count(&b("p")), 0);
    assert_eq!(fs.fresh_ino(), INode::from(2));
}

#[test]
fn lookup_after_rename_finds_the_inode_under_the_new_name() {
    let mut fs = mount();
    let p = fs.lookup_fs(root(), &b("p"), 1, 0).unwrap().ino;
    let i1 = fs.lookup_fs(p, &b("a.txt"), 1, 0).unwrap().ino;
    let plan = fs.rename_fs(p, &b("a.txt"), p, &b("c.txt"), 0).unwrap();
    assert_eq!(fs.rename_ino(&plan.from, &plan.to), Ok(()));
    assert_eq!(fs.lookup_fs(p, &b("c.txt"), 1, 0).unwrap().ino, i1);
    assert_eq!(fs.lookup_file_result(&b("/srv/store/p/a.txt")), Err(HostErrorKind::NotFound));
}

#[test]
fn rename_names_both_paths_and_the_known_flags() {
    let mut fs = mount();
    let p = fs.lookup_or_create_path(&b("/srv/store/p"));
    let q = fs.lookup_or_create_path(&b("/srv/store/q"));
    let plan = fs.rename_fs(p, &b("a"), q, &b("c"), RENAME_NOREPLACE).unwrap();
    assert_eq!(plan.from, b("/srv/store/p/a"));
    assert_eq!(plan.to, b("/srv/store/q/c"));
    assert_eq!(plan.flags, 1);
    assert_eq!(fs.rename_fs(p, &b("a"), q, &b("c"), RENAME_EXCHANGE).unwrap().flags, 2);
    assert_eq!(fs.rename_fs(p, &b("a"), q, &b("c"), 0).unwrap().flags, 0);
}

#[test]
fn rename_drops_the_flags_that_the_host_does_not_know() {
    let mut fs = mount();
    let p = fs.lookup_or_create_path(&b("/srv/store/p"));
    assert_eq!(fs.rename_fs(p, &b("a"), p, &b("c"), 0xffff_ffff).unwrap().flags, 7);
    assert_eq!(fs.rename_fs(p, &b("a"), p, &b("c"), 8).unwrap().flags, 0);
    assert_eq!(fs.rename_fs(p, &b("a"), p, &b("c"), 0x12).unwrap().flags, 2);
    assert_eq!(
        fs.rename_fs(p, &b("a"), p, &b("c"), RENAME_WHITEOUT | 0x100).unwrap().flags,
        4
    );
}

#[test]
fn rename_with_an_unknown_parent_finds_nothing() {
    let mut fs = mount();
    let p = fs.lookup_or_create_path(&b("/srv/store/p"));
    assert_eq!(
        fs.rename_fs(INode::from(40), &b("a"), p, &b("c"), 0).unwrap_err(),
        HostErrorKind::NotFound
    );
    assert_eq!(
        fs.rename_fs(p, &b("a"), INode::from(40), &b("c"), 0).unwrap_err(),
        HostErrorKind::NotFound
    );
}

#[test]
fn open_names_path_and_mode() {
    let mut fs = mount();
    let a = fs.lookup_or_create_path(&b("/srv/store/p/a.txt"));
    let target = fs.open_target(a, libc::O_WRONLY).unwrap();
    assert_eq!(target.path, b("/srv/store/p/a.txt"));
    assert_eq!(target.plan, OpenPlan { mode: OpenMode::Write, use_write_buffer: true });
    let target = fs.open_target(a, libc::O_RDONLY).unwrap();
    assert_eq!(target.plan, OpenPlan { mode: OpenMode::Read, use_write_buffer: false });
    assert_eq!(
        fs.open_target(INode::from(77), libc::O_RDONLY).unwrap_err(),
        HostErrorKind::NotFound
    );
}

#[test]
fn open_for_appending_names_an_append_handle() {
    let mut fs = mount();
    let a = fs.lookup_or_create_path(&b("/srv/store/p/log.txt"));
    let target = fs.open_target(a, libc::O_WRONLY | libc::O_APPEND).unwrap();
    assert_eq!(target.path, b("/srv/store/p/log.txt"));
    assert_eq!(target.plan, OpenPlan { mode: OpenMode::Append, use_write_buffer: false });
    let created = fs.create_fs(&b("/srv/store/p/new.txt"), libc::O_WRONLY | libc::O_APPEND);
    assert_eq!(
        fs.lookup_file_handler_result(created.fh),
        Ok(FileHandler { ino: created.ino, offset: 0, use_write_buffer: false })
    );
}

#[test]
fn open_counts_for_the_project_and_issues_a_handle() {
    let mut fs = mount();
    let a = fs.lookup_or_create_path(&b("/srv/store/p/a.txt"));
    assert_eq!(
        fs.open_fs(a, true),
        Ok(Opened {
            fh: IFileHandle::from(1),
            change: Some(RefChange { count: 1, intention: LockIntention::Acquire }),
        })
    );
    assert_eq!(
        fs.open_fs(a, false),
        Ok(Opened {
            fh: IFileHandle::from(2),
            change: Some(RefChange { count: 2, intention: LockIntention::Nothing }),
        })
    );
    assert_eq!(fs.project_ref_count(&b("p")), 2);
    assert_eq!(
        fs.lookup_file_handler_result(IFileHandle::from(1)),
        Ok(FileHandler { ino: a, offset: 0, use_write_buffer: true })
    );
    assert_eq!(
        fs.flush_associated_file_handlers(a),
        vec![IFileHandle::from(1), IFileHandle::from(2)]
    );
}

#[test]
fn opening_the_root_counts_for_no_project() {
    let mut fs = mount();
    assert_eq!(fs.open_fs(root(), false), Ok(Opened { fh: IFileHandle::from(1), change: None }));
    assert_eq!(fs.count_file_handlers(), 1);
}

#[test]
fn opening_an_unknown_inode_finds_nothing() {
    let mut fs = mount();
    assert_eq!(fs.open_fs(INode::from(12), false), Err(HostErrorKind::NotFound));
    assert_eq!(fs.count_file_handlers(), 0);
    assert_eq!(fs.register_file_handler(root(), false), IFileHandle::from(1));
}

#[test]
fn create_binds_counts_and_opens() {
    let mut fs = mount();
    assert_eq!(
        fs.create_fs(&b("/srv/store/p/a.txt"), libc::O_WRONLY | libc::O_CREAT),
        Created {
            ino: INode::from(2),
            fh: IFileHandle::from(1),
            change: Some(RefChange { count: 1, intention: LockIntention::Acquire }),
        }
    );
    assert_eq!(fs.lookup_file_result(&b("/srv/store/p/a.txt")), Ok(INode::from(2)));
    assert_eq!(
        fs.lookup_file_handler_result(IFileHandle::from(1)),
        Ok(FileHandler { ino: INode::from(2), offset: 0, use_write_buffer: true })
    );
    let again = fs.create_fs(&b("/srv/store/p/b.bin"), libc::O_RDWR);
    assert_eq!(again.ino, INode::from(3));
    assert_eq!(again.fh, IFileHandle::from(2));
    assert_eq!(again.change, Some(RefChange { count: 2, intention: LockIntention::Nothing }));
    assert_eq!(
        fs.lookup_file_handler_result(IFileHandle::from(2)),
        Ok(FileHandler { ino: INode::from(3), offset: 0, use_write_buffer: false })
    );
}

#[test]
fn release_forgets_the_handle_and_takes_the_reference_back() {
    let mut fs = mount();
    let created = fs.create_fs(&b("/srv/store/p/a.txt"), libc::O_WRONLY);
    let record = fs.delete_file_handler_result(created.ino, created.fh).unwrap();
    assert!(record.use_write_buffer);
    assert_eq!(
        fs.releasedir_fs(created.ino),
        Ok(Some(RefChange { count: 0, intention: LockIntention::Release }))
    );
    assert_eq!(fs.count_file_handlers(), 0);
    assert_eq!(fs.project_ref_count(&b("p")), 0);
    assert_eq!(fs.lookup_file_result(&b("/srv/store/p/a.txt")), Ok(created.ino));
}

#[test]
fn directories_count_without_a_handle() {
    let mut fs = mount();
    let p = fs.lookup_or_create_path(&b("/srv/store/p"));
    assert_eq!(
        fs.opendir_fs(p),
        Ok((
            IFileHandle::from(0),
            Some(RefChange { count: 1, intention: LockIntention::Acquire })
        ))
    );
    assert_eq!(
        fs.opendir_fs(p),
        Ok((
            IFileHandle::from(0),
            Some(RefChange { count: 2, intention: LockIntention::Nothing })
        ))
    );
    assert_eq!(fs.count_file_handlers(), 0);
    assert_eq!(
        fs.releasedir_fs(p),
        Ok(Some(RefChange { count: 1, intention: LockIntention::Nothing }))
    );
    assert_eq!(
        fs.releasedir_fs(p),
        Ok(Some(RefChange { count: 0, intention: LockIntention::Release }))
    );
}

#[test]
fn the_root_directory_counts_for_no_project() {
    let mut fs = mount();
    assert_eq!(fs.opendir_fs(root()), Ok((IFileHandle::from(0), None)));
    assert_eq!(fs.releasedir_fs(root()), Ok(None));
}

#[test]
fn an_unknown_directory_is_not_found() {
    let mut fs = mount();
    assert_eq!(fs.opendir_fs(INode::from(31)), Err(HostErrorKind::NotFound));
    assert_eq!(fs.releasedir_fs(INode::from(31)), Err(HostErrorKind::NotFound));
}

#[test]
fn a_listing_numbers_its_entries_from_the_offset() {
    let mut fs = mount();
    let names: Vec<Vec<u8>> = (0..10).map(|i| format!("/srv/store/p/f{}",
        i).into_bytes()).collect();
    assert_eq!(NimbusFS::readdir_skip(0), 0);
    let all: Vec<DirectoryEntry> = names
        .iter()
        .enumerate()
        .map(|(counter, path)| fs.readdir_entry(0, counter, path, FILE))
        .collect();
    assert_eq!(all.len(), 10);
    for (k, entry) in all.iter().enumerate() {
        assert_eq!(entry.offset, k as i64 + 1);
        assert_eq!(entry.ino, INode::from(k as u64 + 2));
        assert_eq!(entry.kind, FileKind::RegularFile);
    }
    assert_eq!(NimbusFS::readdir_skip(5), 5);
    let rest: Vec<DirectoryEntry> = names
        .iter()
        .skip(5)
        .enumerate()
        .map(|(counter, path)| fs.readdir_entry(5, counter, path, FILE))
        .collect();
    assert_eq!(rest.len(), 5);
    assert_eq!(rest, all[5..].to_vec());
    let mut joined = all[..5].to_vec();
    joined.extend(rest);
    assert_eq!(joined, all);
}

#[test]
fn a_listing_tells_the_kind_of_each_entry() {
    let mut fs = mount();
    let entry = fs.readdir_entry(0, 0, &b("/srv/store/p"), DIR);
    assert_eq!(entry, DirectoryEntry { ino: INode::from(2), offset: 1, kind: FileKind::Directory });
    let entry = fs.readdir_entry(7, 2, &b("/srv/store/p"), DIR);
    assert_eq!(entry, DirectoryEntry { ino: INode::from(2), offset: 10,
        kind: FileKind::Directory });
}

#[test]
fn a_read_seeks_and_gets_a_zeroed_buffer() {
    let mut fs = mount();
    let a = fs.lookup_or_create_path(&b("/srv/store/p/a.txt"));
    let h = fs.register_file_handler(a, false);
    let plan = fs.read_fs(h, 0, 5).unwrap();
    assert_eq!(plan.position, 0);
    assert_eq!(plan.buffer, vec![0u8; 5]);
    let plan = fs.read_fs(h, 524288, 4096).unwrap();
    assert_eq!(plan.position, 524288);
    assert_eq!(plan.buffer, vec![0u8; 4096]);
    let plan = fs.read_fs(h, 3, 0).unwrap();
    assert!(plan.buffer.is_empty());
    assert_eq!(fs.read_fs(IFileHandle::from(9), 0, 5).unwrap_err(), HostErrorKind::NotFound);
}

#[test]
fn a_write_seeks_to_its_offset() {
    let mut fs = mount();
    let a = fs.lookup_or_create_path(&b("/srv/store/p/b.bin"));
    let h = fs.register_file_handler(a, true);
    assert_eq!(fs.write_fs(h, 0), Ok(0));
    assert_eq!(fs.write_fs(h, 512 * 1024), Ok(524288));
    assert_eq!(fs.write_fs(h, i64::MAX), Ok(i64::MAX as u64));
    assert_eq!(fs.write_fs(IFileHandle::from(9), 0), Err(HostErrorKind::NotFound));
}
