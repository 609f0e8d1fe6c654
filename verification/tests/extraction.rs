use evtx_extractor::pipeline::{
    process_directory, run_volume, EntryModel, OutputDir, PartitionModel, RunFailure,
};
use evtx_extractor::stream::{copy_content, CopyFailure, CHUNK_SIZE};

fn bytes(n: usize) -> Vec<u8> {
    (0..n).map(|i| (i % 251) as u8).collect()
}

fn named_entry(name: &str, declared: u64, content: Vec<u8>) -> EntryModel {
    EntryModel {
        name: Some(name.to_string()),
        meta_ok: true,
        declared,
        content,
    }
}

#[test]
fn a_faithful_copy_writes_the_declared_length() {
    let data = bytes(69632);
    let (out, chunks) = copy_content(&data, 69632).unwrap();
    assert_eq!(out.len(), 69632);
    assert_eq!(out, data);
    assert_eq!(chunks, 68);
}

#[test]
fn chunk_counts_round_up() {
    assert_eq!(copy_content(&bytes(0), 0).unwrap().1, 0);
    assert_eq!(copy_content(&bytes(1), 1).unwrap().1, 1);
    assert_eq!(copy_content(&bytes(1024), 1024).unwrap().1, 1);
    assert_eq!(copy_content(&bytes(1025), 1025).unwrap().1, 2);
    assert_eq!(CHUNK_SIZE, 1024);
}

#[test]
fn an_exhausted_stream_is_a_short_read_at_its_end() {
    let data = bytes(100);
    assert_eq!(
        copy_content(&data, 200),
        Err(CopyFailure::ShortRead { offset: 100 })
    );
    let empty: Vec<u8> = Vec::new();
    assert_eq!(
        copy_content(&empty, 1),
        Err(CopyFailure::ShortRead { offset: 0 })
    );
}

#[test]
fn one_ntfs_partition_with_one_matching_entry() {
    let content = bytes(69632);
    let parts = vec![PartitionModel {
        desc: "NTFS (0x07)".to_string(),
        start: 1048576,
        fs_ok: true,
        dir: Some(vec![named_entry("Security.evtx", 69632, content.clone())]),
    }];
    let mut out = OutputDir::new();
    assert!(run_volume(&parts, &mut out).is_ok());
    assert!(out.created());
    let written = out.artifact("Security.evtx").unwrap();
    assert_eq!(written.len(), 69632);
    assert_eq!(written, &content);
}

#[test]
fn an_unretrievable_name_contributes_nothing_and_no_error() {
    let entries = vec![EntryModel {
        name: None,
        meta_ok: true,
        declared: 4096,
        content: bytes(4096),
    }];
    let mut out = OutputDir::new();
    let skipped = process_directory(&entries, &mut out).unwrap();
    assert_eq!(skipped, Vec::<usize>::new());
    assert!(!out.created());
    assert!(out.artifact("").is_none());
}

#[test]
fn a_failed_handle_skips_its_entry_and_the_rest_is_processed() {
    let good = bytes(2048);
    let entries = vec![
        EntryModel {
            name: Some("Application.evtx".to_string()),
            meta_ok: false,
            declared: 1024,
            content: Vec::new(),
        },
        named_entry("Security.evtx", 2048, good.clone()),
    ];
    let mut out = OutputDir::new();
    let skipped = process_directory(&entries, &mut out).unwrap();
    assert_eq!(skipped, vec![0]);
    assert!(out.artifact("Application.evtx").is_none());
    assert_eq!(out.artifact("Security.evtx").unwrap(), &good);
}

#[test]
fn a_short_read_aborts_the_whole_run() {
    let truncated = bytes(1500);
    let parts = vec![PartitionModel {
        desc: "NTFS (0x07)".to_string(),
        start: 1048576,
        fs_ok: true,
        dir: Some(vec![
            named_entry("System.evtx", 1024, bytes(1024)),
            named_entry("Security.evtx", 4096, truncated.clone()),
            named_entry("Setup.evtx", 1024, bytes(1024)),
        ]),
    }];
    let mut out = OutputDir::new();
    assert_eq!(
        run_volume(&parts, &mut out),
        Err(RunFailure::ShortRead {
            partition: 0,
            entry: 1,
            offset: 1500
        })
    );
    assert_eq!(out.artifact("System.evtx").unwrap(), &bytes(1024));
    assert_eq!(out.artifact("Security.evtx").unwrap(), &truncated);
    assert!(out.artifact("Setup.evtx").is_none());
}

#[test]
fn an_unopenable_artifact_directory_aborts_the_run() {
    let parts = vec![
        PartitionModel {
            desc: "Linux (0x83)".to_string(),
            start: 0,
            fs_ok: true,
            dir: None,
        },
        PartitionModel {
            desc: "NTFS (0x07)".to_string(),
            start: 1048576,
            fs_ok: true,
            dir: None,
        },
    ];
    let mut out = OutputDir::new();
    assert_eq!(
        run_volume(&parts, &mut out),
        Err(RunFailure::DirectoryOpen { partition: 1 })
    );
    assert!(!out.created());
}

#[test]
fn an_unopenable_filesystem_only_skips_its_partition() {
    let good = bytes(1024);
    let parts = vec![
        PartitionModel {
            desc: "NTFS (0x07)".to_string(),
            start: 1048576,
            fs_ok: false,
            dir: None,
        },
        PartitionModel {
            desc: "NTFS (0x07)".to_string(),
            start: 1611661312,
            fs_ok: true,
            dir: Some(vec![named_entry("Security.evtx", 1024, good.clone())]),
        },
    ];
    let mut out = OutputDir::new();
    assert!(run_volume(&parts, &mut out).is_ok());
    assert_eq!(out.artifact("Security.evtx").unwrap(), &good);
}

#[test]
fn running_twice_overwrites_with_identical_artifacts() {
    let listing = || {
        vec![
            named_entry("Security.evtx", 3000, bytes(3000)),
            named_entry("System.evtx", 512, bytes(512)),
        ]
    };
    let mut out = OutputDir::new();
    let first = listing();
    process_directory(&first, &mut out).unwrap();
    let sec_once = out.artifact("Security.evtx").unwrap().clone();
    let sys_once = out.artifact("System.evtx").unwrap().clone();
    let second = listing();
    process_directory(&second, &mut out).unwrap();
    assert_eq!(out.artifact("Security.evtx").unwrap(), &sec_once);
    assert_eq!(out.artifact("System.evtx").unwrap(), &sys_once);
    assert_eq!(sec_once.len(), 3000);
    assert_eq!(sys_once.len(), 512);
}

#[test]
fn a_rewritten_artifact_holds_the_new_bytes_only() {
    let mut out = OutputDir::new();
    out.put("Security.evtx", vec![1, 2, 3]);
    out.put("Security.evtx", vec![9, 9]);
    assert_eq!(out.artifact("Security.evtx").unwrap(), &vec![9u8, 9]);
}

#[test]
fn only_matching_names_are_extracted() {
    let entries = vec![
        named_entry("Security.evtx", 8, bytes(8)),
        named_entry("pagefile.sys", 8, bytes(8)),
        named_entry("SYSTEM.EVTX", 8, bytes(8)),
    ];
    let mut out = OutputDir::new();
    process_directory(&entries, &mut out).unwrap();
    assert!(out.artifact("Security.evtx").is_some());
    assert!(out.artifact("pagefile.sys").is_none());
    assert!(out.artifact("SYSTEM.EVTX").is_some());
}
