use code_flattener::document::{flatten, FileEntry};
use code_flattener::entry::{classify, Verdict};
use code_flattener::render::{header, split_lines, text_body};
use code_flattener::sniff::{looks_binary, sniff_window, SNIFF_LEN};

fn components(path: &str) -> Vec<Vec<u8>> {
    path.split('/').map(|c| c.as_bytes().to_vec()).collect()
}

fn file(path: &str, content: &[u8]) -> FileEntry {
    FileEntry {
        is_file: true,
        components: components(path),
        display: path.as_bytes().to_vec(),
        content: content.to_vec(),
    }
}

fn dir(path: &str) -> FileEntry {
    FileEntry {
        is_file: false,
        components: components(path),
        display: path.as_bytes().to_vec(),
        content: Vec::new(),
    }
}

fn block(path: &str, body: &str) -> String {
    format!("\n\n----- {} -----\n\n{}", path, body)
}

fn run(entries: &Vec<FileEntry>, include_binary: bool) -> String {
    let out = flatten(entries, include_binary).expect("run completes");
    String::from_utf8(out).expect("text output")
}

#[test]
fn ignore_file_and_ignored_file_leave_one_block() {
    // The walk has already pruned `b.txt`, which `.gitignore` names.
    let entries = vec![file("a.txt", b"hello"), file(".gitignore", b"b.txt")];
    assert_eq!(run(&entries, false), block("a.txt", "hello\n"));
}

#[test]
fn every_file_once_in_walk_order() {
    let entries = vec![
        dir("src"),
        file("src/main.rs", b"fn main() {}\n"),
        file("src/data.bin", &[0xff, 0xfe, 0x00]),
        file("README", b"read me"),
        file("src/lib.rs", b"pub mod a;\n"),
    ];
    let expected = [
        block("src/main.rs", "fn main() {}\n"),
        block("README", "read me\n"),
        block("src/lib.rs", "pub mod a;\n"),
    ]
    .concat();
    assert_eq!(run(&entries, false), expected);
}

#[test]
fn ignore_files_never_shown_at_any_depth() {
    let entries = vec![
        file(".gitignore", b"build/\n"),
        file("sub/.gitignore", b"!keep\n"),
        file("sub/keep", b"kept"),
    ];
    assert_eq!(run(&entries, false), block("sub/keep", "kept\n"));
    assert_eq!(run(&entries, true), block("sub/keep", "kept"));
}

#[test]
fn vcs_directory_always_excluded() {
    let entries = vec![
        file(".git/config", b"[core]\n"),
        file("vendor/.git/HEAD", b"ref\n"),
        file(".github/ci.yml", b"on: push\n"),
        file(".gitx", b"x"),
    ];
    let expected = [block(".github/ci.yml", "on: push\n"), block(".gitx", "x\n")].concat();
    assert_eq!(run(&entries, false), expected);
    let expected = [block(".github/ci.yml", "on: push\n"), block(".gitx", "x")].concat();
    assert_eq!(run(&entries, true), expected);
}

#[test]
fn binary_file_skipped_or_copied_raw() {
    let raw: Vec<u8> = vec![0x00, 0xff, 0x10, b'\n', 0x80];
    let entries = vec![file("blob", &raw)];
    let skipped = flatten(&entries, false).expect("run completes");
    assert!(skipped.is_empty());
    let copied = flatten(&entries, true).expect("run completes");
    let mut expected = b"\n\n----- blob -----\n\n".to_vec();
    expected.extend_from_slice(&raw);
    assert_eq!(copied, expected);
}

#[test]
fn nul_byte_alone_is_well_formed_text() {
    // The sniff asks only for well-formed UTF-8, which a NUL byte is.
    assert!(!looks_binary(&[0x00, b'a']));
    let entries = vec![file("nul", &[0x00, b'a'])];
    assert_eq!(run(&entries, false), block("nul", "\u{0}a\n"));
}

#[test]
fn two_runs_give_identical_output() {
    let entries = vec![file("x", b"1\r\n2"), file("y.bin", &[0xc3]), file("z", b"")];
    let first = flatten(&entries, false);
    let second = flatten(&entries, false);
    assert_eq!(first, second);
    let first = flatten(&entries, true);
    let second = flatten(&entries, true);
    assert_eq!(first, second);
}

#[test]
fn empty_file_gives_header_only() {
    assert_eq!(run(&vec![file("empty", b"")], false), block("empty", ""));
    assert_eq!(run(&Vec::new(), false), "");
}

#[test]
fn run_stops_at_undecodable_line() {
    let mut content = vec![b'a'; SNIFF_LEN];
    content.extend_from_slice(b"\nok\n\xff\nnever\n");
    let entries = vec![file("long", &content), file("after", b"after")];
    let err = flatten(&entries, false).expect_err("run stops");
    let mut expected = b"\n\n----- long -----\n\n".to_vec();
    expected.extend_from_slice(&vec![b'a'; SNIFF_LEN]);
    expected.extend_from_slice(b"\nok\n");
    assert_eq!(err, expected);
}

#[test]
fn header_format() {
    assert_eq!(header(b"dir/f.rs"), b"\n\n----- dir/f.rs -----\n\n".to_vec());
    assert_eq!(header(b""), b"\n\n-----  -----\n\n".to_vec());
}

#[test]
fn text_lines_normalised() {
    assert_eq!(text_body(b"a\r\nb").unwrap(), b"a\nb\n".to_vec());
    assert_eq!(text_body(b"a\n").unwrap(), b"a\n".to_vec());
    assert_eq!(text_body(b"").unwrap(), Vec::<u8>::new());
    assert_eq!(text_body(b"\n").unwrap(), b"\n".to_vec());
    assert_eq!(text_body(b"a\rb\r").unwrap(), b"a\rb\r\n".to_vec());
    assert_eq!(text_body(b"x\n\xff\ny").unwrap_err(), b"x\n".to_vec());
    assert_eq!(text_body(b"\xe2\x82").unwrap_err(), Vec::<u8>::new());
}

#[test]
fn split_lines_exact() {
    let lines = split_lines(b"a\r\nb\n\nc\r");
    assert_eq!(lines, vec![b"a".to_vec(), b"b".to_vec(), b"".to_vec(), b"c\r".to_vec()]);
    assert!(split_lines(b"").is_empty());
}

#[test]
fn sniff_reads_only_leading_bytes() {
    let mut text_then_bad = vec![b'a'; SNIFF_LEN];
    text_then_bad.push(0xff);
    assert!(!looks_binary(&text_then_bad));
    assert_eq!(sniff_window(&text_then_bad).len(), SNIFF_LEN);
    let mut bad_early = vec![b'a'; SNIFF_LEN - 1];
    bad_early.push(0xff);
    assert!(looks_binary(&bad_early));
    assert!(!looks_binary(b""));
    assert!(looks_binary(&[0xc3, 0x28]));
    assert!(!looks_binary("héllo".as_bytes()));
    // A multi-byte character cut by the window's end reads as binary.
    let mut cut = vec![b'a'; SNIFF_LEN - 1];
    cut.extend_from_slice("é".as_bytes());
    assert!(looks_binary(&cut));
}

#[test]
fn classify_verdicts() {
    assert_eq!(classify(false, &components("src")), Verdict::NotAFile);
    assert_eq!(classify(true, &components(".git/HEAD")), Verdict::InVcsDir);
    assert_eq!(classify(true, &components("a/.gitignore")), Verdict::IgnoreFile);
    assert_eq!(classify(true, &components(".gitignore/x")), Verdict::Include);
    assert_eq!(classify(true, &components("a/b.txt")), Verdict::Include);
    assert_eq!(classify(true, &Vec::new()), Verdict::Include);
}
