use bustub_storage::config::{BUSTUB_PAGE_SIZE, DEFAULT_DB_IO_SIZE};
use bustub_storage::disk_manager::{
    plan_read, zero_fill, PageDirectory, Placement, ReadPlan,
};

fn write(d: &mut PageDirectory, page: i32) -> Placement {
    let pl = d.locate(page).unwrap();
    d.commit_write(page, pl);
    pl
}

#[test]
fn new_pages_get_consecutive_offsets() {
    let mut d = PageDirectory::new();
    assert_eq!(write(&mut d, 5).offset, 0);
    assert_eq!(write(&mut d, 9).offset, BUSTUB_PAGE_SIZE);
    assert_eq!(write(&mut d, 2).offset, 2 * BUSTUB_PAGE_SIZE);
    assert_eq!(d.offset_of(9), Some(BUSTUB_PAGE_SIZE));
    assert_eq!(d.offset_of(3), None);
    assert_eq!(d.get_num_writes(), 3);
}

#[test]
fn rewriting_a_page_keeps_its_offset() {
    let mut d = PageDirectory::new();
    write(&mut d, 1);
    let first = write(&mut d, 4);
    let again = d.locate(4).unwrap();
    assert_eq!(again, Placement { offset: first.offset, grow_file_to: None });
    d.commit_write(4, again);
    assert_eq!(d.offset_of(4), Some(BUSTUB_PAGE_SIZE));
    assert_eq!(d.get_num_writes(), 3);
}

#[test]
fn deleted_offset_is_reused_before_the_file_grows() {
    let mut d = PageDirectory::new();
    write(&mut d, 0);
    write(&mut d, 1);
    write(&mut d, 2);
    d.delete_page(1);
    assert_eq!(d.get_num_deletes(), 1);
    assert_eq!(d.offset_of(1), None);
    let pl = write(&mut d, 7);
    assert_eq!(pl, Placement { offset: BUSTUB_PAGE_SIZE, grow_file_to: None });
    // pool exhausted: the next page goes past the used slots
    assert_eq!(write(&mut d, 8).offset, 3 * BUSTUB_PAGE_SIZE);
}

#[test]
fn free_slots_are_reused_last_in_first_out() {
    let mut d = PageDirectory::new();
    for p in 0..4 {
        write(&mut d, p);
    }
    d.delete_page(0);
    d.delete_page(2);
    assert_eq!(write(&mut d, 10).offset, 2 * BUSTUB_PAGE_SIZE);
    assert_eq!(write(&mut d, 11).offset, 0);
    assert_eq!(write(&mut d, 12).offset, 4 * BUSTUB_PAGE_SIZE);
}

#[test]
fn deleting_an_unknown_page_changes_nothing() {
    let mut d = PageDirectory::new();
    write(&mut d, 3);
    d.delete_page(4);
    assert_eq!(d.get_num_deletes(), 0);
    assert_eq!(write(&mut d, 5).offset, BUSTUB_PAGE_SIZE);
}

#[test]
fn capacity_doubles_when_the_page_count_reaches_it() {
    let mut d = PageDirectory::new();
    assert_eq!(PageDirectory::initial_file_len(), (DEFAULT_DB_IO_SIZE + 1) * BUSTUB_PAGE_SIZE);
    assert_eq!(d.file_length(), 17 * 4096);
    for p in 0..15 {
        assert_eq!(write(&mut d, p).grow_file_to, None);
    }
    let pl = write(&mut d, 15);
    assert_eq!(pl.offset, 15 * 4096);
    assert_eq!(pl.grow_file_to, Some(33 * 4096));
    assert_eq!(d.file_length(), 33 * 4096);
}

#[test]
fn first_read_of_a_page_allocates_it_inside_the_file() {
    let mut d = PageDirectory::new();
    let pl = d.locate(42).unwrap();
    d.commit_read(42, pl);
    assert_eq!(d.offset_of(42), Some(0));
    assert_eq!(d.get_num_writes(), 0);
    assert_eq!(plan_read(pl.offset, BUSTUB_PAGE_SIZE, d.file_length()), ReadPlan::Full);
}

#[test]
fn read_plans() {
    assert_eq!(plan_read(4096, 4096, 4096), ReadPlan::OutOfBounds);
    assert_eq!(plan_read(5000, 4096, 4096), ReadPlan::OutOfBounds);
    assert_eq!(plan_read(0, 4096, 4096), ReadPlan::Full);
    assert_eq!(plan_read(4000, 4096, 8192), ReadPlan::Full);
    assert_eq!(plan_read(6000, 4096, 8192), ReadPlan::Short { available: 2192 });
}

#[test]
fn log_read_plans() {
    assert_eq!(PageDirectory::plan_log_read(0, 0, 10), None);
    assert_eq!(PageDirectory::plan_log_read(4, 10, 10), Some(ReadPlan::OutOfBounds));
    assert_eq!(PageDirectory::plan_log_read(4, 8, 10), Some(ReadPlan::Short { available: 2 }));
    assert_eq!(PageDirectory::plan_log_read(4, 2, 10), Some(ReadPlan::Full));
}

#[test]
fn log_write_bookkeeping() {
    let mut d = PageDirectory::new();
    assert!(!d.begin_log_write(0));
    assert!(!d.get_flush_state());
    assert!(d.begin_log_write(3));
    assert!(d.get_flush_state());
    d.finish_log_write();
    assert!(!d.get_flush_state());
    assert_eq!(d.get_num_flushes(), 1);
}

#[test]
fn eof_reads_are_counted() {
    let mut d = PageDirectory::new();
    d.record_eof_read();
    d.record_eof_read();
    assert_eq!(d.get_num_eof_reads(), 2);
}

#[test]
fn zero_fill_clears_the_tail_only() {
    let mut b = vec![0xABu8; 6];
    zero_fill(&mut b, 2);
    assert_eq!(b, vec![0xAB, 0xAB, 0, 0, 0, 0]);
    let mut c = vec![7u8; 3];
    zero_fill(&mut c, 0);
    assert_eq!(c, vec![0, 0, 0]);
    let mut e = vec![1u8; 2];
    zero_fill(&mut e, 5);
    assert_eq!(e, vec![1, 1]);
}
