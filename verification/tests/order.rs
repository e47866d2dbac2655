use rencfs_winfsp::attr::FileInfo;
use rencfs_winfsp::flags::FileAttributes;
use rencfs_winfsp::order::sort_entries;
use rencfs_winfsp::protocol::DirEntry;

fn entry(name: &str, index_number: u64) -> DirEntry<String> {
    let info = FileInfo {
        file_attributes: FileAttributes(0),
        allocation_size: 0,
        file_size: 0,
        creation_time: 0,
        last_access_time: 0,
        last_write_time: 0,
        change_time: 0,
        index_number,
        hard_links: 1,
    };
    DirEntry { name: name.to_string(), info }
}

fn sorted(names: &[&str]) -> Vec<String> {
    let entries = names.iter().map(|name| entry(name, 0)).collect();
    sort_entries(entries).into_iter().map(|entry| entry.name).collect()
}

#[test]
fn names_are_ordered_by_code_points() {
    assert_eq!(sorted(&["b", "", "ab", "a", "B", "a"]), ["", "B", "a", "a", "ab", "b"]);
    // A character beyond the basic plane comes last, though its first UTF-16 unit does not.
    assert_eq!(
        sorted(&["\u{1F600}", "\u{FFFD}", "z", "\u{E9}"]),
        ["z", "\u{E9}", "\u{FFFD}", "\u{1F600}"]
    );
}

#[test]
fn equal_names_stay_as_they_come() {
    let entries = vec![entry("b", 1), entry("a", 2), entry("b", 3), entry("a", 4), entry("b", 5)];
    let order: Vec<u64> =
        sort_entries(entries).iter().map(|entry| entry.info.index_number).collect();
    assert_eq!(order, [2, 4, 1, 3, 5]);
}

#[test]
fn sorting_agrees_with_the_standard_library() {
    let mut names: Vec<String> = (0..1000u32).map(|i| format!("{}", i * 7919 % 1009)).collect();
    let entries = names.iter().map(|name| entry(name, 0)).collect();
    let ours: Vec<String> = sort_entries(entries).into_iter().map(|entry| entry.name).collect();
    names.sort();
    assert_eq!(ours, names);
}

#[test]
fn short_lists_need_no_sorting() {
    assert!(sorted(&[]).is_empty());
    assert_eq!(sorted(&["x"]), ["x"]);
}
