//! File bookkeeping, markup optimization and compression.

use std::io::Read;

use svgc::{
    backup_file_name, default_optimize_content, generate_temp_dir_name, is_svg_file, SvgFile,
    SvgFileGroup,
};

#[test]
fn test_generate_temp_dir_name() {
    assert_ne!(generate_temp_dir_name(), generate_temp_dir_name());
}

#[test]
fn temp_dir_name_carries_the_fixed_prefix() {
    let name = generate_temp_dir_name().unwrap();
    assert!(name.starts_with("svgc_temp_files_"));
    assert!(name.len() > "svgc_temp_files_".len());
}

#[test]
fn svg_file_names() {
    assert!(is_svg_file("picture.svg"));
    assert!(is_svg_file(".svg"));
    assert!(is_svg_file("..svg"));
    assert!(!is_svg_file("svg"));
    assert!(!is_svg_file("picture.SVG"));
    assert!(!is_svg_file("picture.svgz"));
    assert!(!is_svg_file("picturesvg"));
}

#[test]
fn backup_names_carry_stem_timestamp_and_extension() {
    assert_eq!(backup_file_name("icon", "2024-01-01", "svg"), "icon_2024-01-01.svg");
    assert_eq!(backup_file_name("a", "t", ""), "a_t.");
}

#[test]
fn optimization_collapses_whitespace_and_tags() {
    let content = "  <svg >\n <rect fill=\"red\" />\n</svg>  ";
    let kept = default_optimize_content(content, false).unwrap();
    assert_eq!(kept, "<svg><rect fill=\"red\" /></svg>");
    let removed = default_optimize_content(content, true).unwrap();
    assert_eq!(removed, "<svg><rect /></svg>");
}

#[test]
fn optimization_strips_comments_and_prolog() {
    let content = "<?xml version=\"1.0\"?><!DOCTYPE svg PUBLIC \"x\"><svg><!-- note --><g/></svg>";
    let out = default_optimize_content(content, false).unwrap();
    assert_eq!(out, "<svg><g/></svg>");
}

#[test]
fn optimization_keeps_xlink_namespace_only_while_used() {
    let used = "<svg xmlns:xlink=\"http://www.w3.org/1999/xlink\"><a xlink:href=\"#i\"/></svg>";
    let out = default_optimize_content(used, false).unwrap();
    assert!(out.contains("xmlns:xlink"));
    let unused = "<svg xmlns:xlink=\"http://www.w3.org/1999/xlink\"><a/></svg>";
    let out = default_optimize_content(unused, false).unwrap();
    assert!(!out.contains("xmlns:xlink"));
}

#[test]
fn file_records_sizes_and_paths() {
    let content = "<svg><g/></svg>".to_string();
    let mut f = SvgFile::new("a.svg".to_string(), "b/a_1.svg".to_string(), content.clone());
    assert_eq!(f.original_path(), "a.svg");
    assert_eq!(f.backup_path(), "b/a_1.svg");
    assert_eq!(f.original_size(), content.len() as u64);
    assert_eq!(f.result_path(), None);
    assert_eq!(f.result_size(), None);
    f.calculate_result_size();
    assert_eq!(f.result_size(), Some(content.len() as u64));
    // A second measurement never changes the record.
    f.calculate_result_size();
    assert_eq!(f.result_size(), Some(content.len() as u64));
}

#[test]
fn compression_round_trips_and_shrinks_repetitive_text() {
    let content = "<svg>".repeat(200);
    let mut f = SvgFile::new("big.svg".to_string(), "b".to_string(), content.clone());
    assert!(f.compress());
    assert_eq!(f.result_path(), Some("big.svgz"));
    let packed = f.compressed_data().unwrap().clone();
    assert!((packed.len() as u64) < f.original_size());
    let mut unpacked = String::new();
    flate2::read::GzDecoder::new(&packed[..])
        .read_to_string(&mut unpacked)
        .unwrap();
    assert_eq!(unpacked, content);
    f.calculate_result_size();
    assert_eq!(f.result_size(), Some(packed.len() as u64));
}

#[test]
fn group_optimizes_and_totals_its_files() {
    let files = vec![
        SvgFile::new("a.svg".into(), "t/a.svg".into(), " <svg> <g/> </svg> ".into()),
        SvgFile::new("b.svg".into(), "t/b.svg".into(), "<svg><rect fill=\"b\"/></svg>".into()),
    ];
    let mut group = SvgFileGroup::new(files, "t".into(), false);
    assert_eq!(group.backup_dir(), "t");
    assert!(!group.is_auto_delete_backups());
    group.enable_auto_delete_backups();
    assert!(group.is_auto_delete_backups());
    group.disable_auto_delete_backups();
    assert!(!group.is_auto_delete_backups());

    assert!(group.apply_default_optimizations(true));
    assert_eq!(group.files()[0].content(), "<svg><g/></svg>");
    assert_eq!(group.files()[1].content(), "<svg><rect /></svg>");

    group.calculate_result_sizes();
    let (before, after) = group.total_sizes();
    assert_eq!(before, (" <svg> <g/> </svg> ".len() + "<svg><rect fill=\"b\"/></svg>".len()) as u64);
    assert_eq!(after, ("<svg><g/></svg>".len() + "<svg><rect /></svg>".len()) as u64);

    let paths = group.apply_svgo();
    assert_eq!(paths, vec!["a.svg".to_string(), "b.svg".to_string()]);

    let pairs = group.restore_files();
    assert_eq!(
        pairs,
        vec![
            ("t/a.svg".to_string(), "a.svg".to_string()),
            ("t/b.svg".to_string(), "b.svg".to_string()),
        ]
    );
}

#[test]
fn group_compresses_every_file() {
    let files = vec![
        SvgFile::new("a.svg".into(), "t/a.svg".into(), "<svg/>".into()),
        SvgFile::new("b.svg".into(), "t/b.svg".into(), "<svg><g/></svg>".into()),
    ];
    let mut group = SvgFileGroup::new(files, "t".into(), true);
    assert!(group.compress());
    assert_eq!(group.files()[0].result_path(), Some("a.svgz"));
    assert_eq!(group.files()[1].result_path(), Some("b.svgz"));
    assert!(group.files()[0].compressed_data().is_some());
    assert!(group.files()[1].compressed_data().is_some());
}
