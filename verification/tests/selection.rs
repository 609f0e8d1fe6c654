use evtx_extractor::artifacts::{name_matches, output_path, select_artifacts, DirEntry};
use evtx_extractor::traverse::{description_matches, matching_partitions, Partition};

fn entry(name: Option<&str>, inode: u64) -> DirEntry {
    DirEntry {
        name: name.map(|n| n.to_string()),
        inode,
    }
}

fn partition(desc: &str, start: u64, len: u64) -> Partition {
    Partition {
        desc: desc.to_string(),
        start,
        len,
    }
}

#[test]
fn suffix_match_is_case_insensitive() {
    assert!(name_matches("Security.evtx"));
    assert!(name_matches("SECURITY.EVTX"));
    assert!(name_matches("System.EvTx"));
    assert!(name_matches(".evtx"));
}

#[test]
fn other_names_do_not_match() {
    assert!(!name_matches("Security.evt"));
    assert!(!name_matches("Security.evtxx"));
    assert!(!name_matches("evtx"));
    assert!(!name_matches("Security_evtx"));
    assert!(!name_matches(""));
    assert!(!name_matches("Security.evtx.bak"));
}

#[test]
fn the_rest_of_the_name_is_untouched() {
    assert_eq!(output_path("out", "Security.evtx"), "out/Security.evtx");
    assert_eq!(output_path("/tmp/case", "SECURITY.EVTX"), "/tmp/case/SECURITY.EVTX");
}

#[test]
fn selection_keeps_exactly_the_matching_named_entries_in_order() {
    let entries = vec![
        entry(Some("Security.evtx"), 11),
        entry(None, 12),
        entry(Some("notes.txt"), 13),
        entry(Some("Application.EVTX"), 14),
        entry(Some("pagefile.sys"), 15),
        entry(Some("System.evtx"), 16),
    ];
    assert_eq!(select_artifacts(&entries), vec![0, 3, 5]);
}

#[test]
fn an_absent_name_is_excluded_silently() {
    let entries = vec![entry(None, 1), entry(None, 2)];
    assert_eq!(select_artifacts(&entries), Vec::<usize>::new());
}

#[test]
fn the_marker_is_a_case_sensitive_substring() {
    assert!(description_matches("NTFS (0x07)"));
    assert!(description_matches("xxNTFSyy"));
    assert!(description_matches("NTFS"));
    assert!(!description_matches("ntfs (0x07)"));
    assert!(!description_matches("NTF"));
    assert!(!description_matches("Linux (0x83)"));
    assert!(!description_matches(""));
}

#[test]
fn every_matching_partition_is_planned_once_in_disk_order() {
    let parts = vec![
        partition("Primary Table (0x00)", 0, 512),
        partition("NTFS (0x07)", 1048576, 536870912),
        partition("Linux (0x83)", 537919488, 1073741824),
        partition("NTFS (0x07)", 1611661312, 536870912),
    ];
    assert_eq!(matching_partitions(&parts), vec![1, 3]);
}

#[test]
fn a_table_without_the_marker_plans_nothing() {
    let parts = vec![
        partition("Linux (0x83)", 0, 4096),
        partition("Swap (0x82)", 4096, 4096),
    ];
    assert_eq!(matching_partitions(&parts), Vec::<usize>::new());
}
