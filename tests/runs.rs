use idl2wit::batch::{config_for, Batch, DirEntry, Job, PipelineOutcome, Record};
use idl2wit::error::FatalError;
use idl2wit::mode::{classify, Mode, PathKinds};
use idl2wit::paths::FsPath;

fn path(s: &str) -> FsPath {
    FsPath::new(s.split('/').filter(|p| !p.is_empty()).map(|p| p.chars().collect()).collect())
}

fn show(p: &FsPath) -> String {
    p.parts.iter().map(|c| c.iter().collect::<String>()).collect::<Vec<_>>().join("/")
}

fn text(v: &[char]) -> String {
    v.iter().collect()
}

fn entry(s: &str, is_dir: bool) -> DirEntry {
    DirEntry { path: path(s), is_dir }
}

fn kinds(input_is_dir: bool, output_exists: bool, output_is_dir: bool) -> PathKinds {
    PathKinds { input_is_dir, output_exists, output_is_dir }
}

fn tree(input: &str, output: &str) -> Batch {
    match classify(&path(input), &path(output), kinds(true, true, true)) {
        Ok(m) => Batch::start(m),
        Err(_) => panic!("tree mode expected"),
    }
}

#[test]
fn directory_into_file_is_refused() {
    let r = classify(&path("in"), &path("out.wit"), kinds(true, true, false));
    assert!(matches!(r, Err(FatalError::DirectoryIntoFile)));
    assert_eq!(FatalError::DirectoryIntoFile.message(), "Cannot output directory to file");
}

#[test]
fn directory_into_missing_output_walks_tree() {
    let r = classify(&path("in"), &path("out"), kinds(true, false, false));
    match r {
        Ok(Mode::Tree { root, out_root }) => {
            assert_eq!(show(&root), "in");
            assert_eq!(show(&out_root), "out");
        }
        _ => panic!("tree mode expected"),
    }
}

#[test]
fn single_file_uses_output_verbatim() {
    let r = classify(&path("a.idl"), &path("out/b.wit"), kinds(false, false, false));
    match r {
        Ok(Mode::SingleFile { source, target }) => {
            assert_eq!(show(&source), "a.idl");
            assert_eq!(show(&target), "out/b.wit");
            let c = match config_for(&source) {
                Ok(c) => c,
                Err(_) => panic!("config expected"),
            };
            assert_eq!(text(&c.interface_name), "a-interface");
            assert_eq!(text(&c.singleton_prefix), "global-");
            assert!(c.skip_unsupported);
        }
        _ => panic!("single-file mode expected"),
    }
}

#[test]
fn file_into_directory_renames() {
    let r = classify(&path("defs/Foo.webidl"), &path("out"), kinds(false, true, true));
    match r {
        Ok(Mode::FileIntoDirectory { source, target }) => {
            assert_eq!(show(&source), "defs/Foo.webidl");
            assert_eq!(show(&target), "out/Foo.wit");
        }
        _ => panic!("file-into-directory mode expected"),
    }
    let r = classify(&path(""), &path("out"), kinds(false, true, true));
    assert!(matches!(r, Err(FatalError::MissingFileName)));
}

#[test]
fn config_needs_file_name() {
    assert!(matches!(config_for(&path("")), Err(FatalError::MissingFileName)));
}

#[test]
fn listing_is_filtered_and_mirrored() {
    let mut b = tree("src", "out");
    let first = b.next_job();
    assert!(matches!(first, Some(Job::Descend { .. })));
    let entries = vec![
        entry("src/Foo123.idl", false),
        entry("src/bar.webidl", false),
        entry("src/readme.txt", false),
    ];
    assert!(b.expand(&entries).is_ok());
    let mut seen = Vec::new();
    while let Some(job) = b.next_job() {
        match job {
            Job::Convert { source, target } => {
                let c = match config_for(&source) {
                    Ok(c) => c,
                    Err(_) => panic!("config expected"),
                };
                seen.push((show(&source), show(&target), text(&c.interface_name)));
            }
            Job::Descend { .. } => panic!("no directory listed"),
        }
    }
    assert_eq!(
        seen,
        vec![
            ("src/Foo123.idl".to_string(), "out/Foo123.wit".to_string(), "foo-interface".to_string()),
            ("src/bar.webidl".to_string(), "out/bar.wit".to_string(), "bar-interface".to_string()),
        ]
    );
}

#[test]
fn nested_directories_are_mirrored() {
    let mut b = tree("a/src", "out");
    b.next_job();
    let top = vec![entry("a/src/sub", true), entry("a/src/x.idl", false)];
    assert!(b.expand(&top).is_ok());
    match b.next_job() {
        Some(Job::Descend { dir, out }) => {
            assert_eq!(show(&dir), "a/src/sub");
            assert_eq!(show(&out), "out/sub");
        }
        _ => panic!("descent expected first"),
    }
    let inner = vec![entry("a/src/sub/deep", true), entry("a/src/sub/y.webidl", false)];
    assert!(b.expand(&inner).is_ok());
    match b.next_job() {
        Some(Job::Descend { dir, out }) => {
            assert_eq!(show(&dir), "a/src/sub/deep");
            assert_eq!(show(&out), "out/sub/deep");
        }
        _ => panic!("nested descent expected"),
    }
    match b.next_job() {
        Some(Job::Convert { source, target }) => {
            assert_eq!(show(&source), "a/src/sub/y.webidl");
            assert_eq!(show(&target), "out/sub/y.wit");
        }
        _ => panic!("conversion expected"),
    }
    match b.next_job() {
        Some(Job::Convert { source, target }) => {
            assert_eq!(show(&source), "a/src/x.idl");
            assert_eq!(show(&target), "out/x.wit");
        }
        _ => panic!("conversion expected"),
    }
    assert!(b.next_job().is_none());
}

#[test]
fn entry_outside_root_fails_and_adds_nothing() {
    let mut b = tree("src", "out");
    b.next_job();
    let entries = vec![entry("src/a.idl", false), entry("elsewhere/b.idl", false)];
    assert!(matches!(b.expand(&entries), Err(FatalError::OutsideRoot)));
    assert!(b.pending.is_empty());
    let same = vec![entry("src", true)];
    assert!(matches!(b.expand(&same), Err(FatalError::OutsideRoot)));
}

#[test]
fn fault_skips_file_and_run_goes_on() {
    let mut b = tree("src", "out");
    b.next_job();
    let entries = vec![entry("src/bad.idl", false), entry("src/good.idl", false)];
    assert!(b.expand(&entries).is_ok());
    let (s, t) = match b.next_job() {
        Some(Job::Convert { source, target }) => (source, target),
        _ => panic!("conversion expected"),
    };
    assert_eq!(show(&s), "src/bad.idl");
    assert!(b.finish_unit(s, t, PipelineOutcome::Fault).is_none());
    assert_eq!(b.pending.len(), 1);
    let (s, t) = match b.next_job() {
        Some(Job::Convert { source, target }) => (source, target),
        _ => panic!("conversion expected"),
    };
    assert_eq!(show(&s), "src/good.idl");
    let out = b.finish_unit(s, t, PipelineOutcome::Translated("package a:b;".to_string()));
    assert_eq!(out, Some("package a:b;".to_string()));
    assert!(b.next_job().is_none());
    assert_eq!(b.log.len(), 2);
    assert!(matches!(&b.log[0], Record::Skipped { reason: PipelineOutcome::Fault, .. }));
    match &b.log[1] {
        Record::Converted { source, target } => {
            assert_eq!(show(source), "src/good.idl");
            assert_eq!(show(target), "out/good.wit");
        }
        _ => panic!("converted record expected"),
    }
}

#[test]
fn reported_errors_are_skipped() {
    let mut b = tree("src", "out");
    b.next_job();
    let r = b.finish_unit(path("src/a.idl"), path("out/a.wit"), PipelineOutcome::ParseFailed("bad".to_string()));
    assert!(r.is_none());
    let r = b.finish_unit(path("src/b.idl"), path("out/b.wit"), PipelineOutcome::Rejected("no".to_string()));
    assert!(r.is_none());
    assert_eq!(b.log.len(), 2);
    assert!(matches!(&b.log[0], Record::Skipped { reason: PipelineOutcome::ParseFailed(_), .. }));
    assert!(matches!(&b.log[1], Record::Skipped { reason: PipelineOutcome::Rejected(_), .. }));
}

#[test]
fn error_messages_carry_cause() {
    assert_eq!(FatalError::Read("gone".to_string()).message(), "Error reading input file: gone");
    assert_eq!(FatalError::Write("full".to_string()).message(), "Error writing output file: full");
    assert_eq!(FatalError::List("denied".to_string()).message(), "Error reading directory: denied");
}

#[test]
fn paths_join_and_relativize() {
    let base = path("a/b");
    let p = path("a/b/c/d.idl");
    let rel = match p.relative_to(&base) {
        Some(r) => r,
        None => panic!("prefix expected"),
    };
    assert_eq!(show(&rel), "c/d.idl");
    assert!(path("a/x/c").relative_to(&base).is_none());
    assert_eq!(show(&path("out").join(&rel)), "out/c/d.idl");
    assert_eq!(show(&path("out/c/d.idl").with_target_name()), "out/c/d.wit");
}

#[test]
fn exit_code_reflects_result() {
    assert_eq!(idl2wit::error::exit_code(&Ok(())), 0);
    assert_eq!(idl2wit::error::exit_code(&Err(FatalError::OutsideRoot)), 1);
}
