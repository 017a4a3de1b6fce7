//! File stems, joined paths, and where chroots are deployed.

use std::path::Path;

use chroot_deploy::args::Deploy;
use chroot_deploy::context::Context;
use chroot_deploy::deploy::{deploy, deploy_message};
use chroot_deploy::path::{file_name, file_stem, join, last_stem, NoFileStem};

/// All strings of at most the given length over an alphabet.
fn strings(alphabet: &[char], length: usize) -> Vec<String> {
    let mut all = vec![String::new()];
    let mut last = all.clone();
    for _ in 0..length {
        let mut next = Vec::new();
        for s in &last {
            for c in alphabet {
                let mut s = s.clone();
                s.push(*c);
                next.push(s);
            }
        }
        all.extend(next.iter().cloned());
        last = next;
    }
    all
}

/// The stem of a path by cutting off one extension after the other.
fn std_stem(path: &str) -> Option<String> {
    let mut last = path.to_string();
    loop {
        let stem = Path::new(&last).file_stem()?.to_str()?.to_string();
        if stem == last {
            return Some(stem);
        }
        last = stem;
    }
}

fn request(archive: &[u8]) -> Deploy {
    Deploy {
        archive: archive.to_vec(),
        user: None,
        remove: false,
        command: None,
    }
}

/// Check that we can extract a file's stem properly.
#[test]
fn file_stem_extraction() {
    let path = b"/tmp/stage3-amd64-openrc-20240211T161834Z.tar.xz";
    let stem = file_stem(path).unwrap();
    assert_eq!(stem, b"stage3-amd64-openrc-20240211T161834Z");
}

#[test]
fn file_stem_edge_cases() {
    assert_eq!(file_stem(b"a.b.c.d/x.y.z"), Ok(&b"x"[..]));
    assert_eq!(file_stem(b"name"), Ok(&b"name"[..]));
    assert_eq!(file_stem(b"dir.d/name///"), Ok(&b"name"[..]));
    assert_eq!(file_stem(b"dir/name.x/./."), Ok(&b"name"[..]));
    assert_eq!(file_stem(b".hidden.tar.xz"), Ok(&b".hidden"[..]));
    assert_eq!(file_stem(b"a..b"), Ok(&b"a"[..]));
    assert_eq!(file_stem(b"\xff\xfe.tar"), Ok(&b"\xff\xfe"[..]));
    assert_eq!(file_stem(b""), Err(NoFileStem));
    assert_eq!(file_stem(b"/"), Err(NoFileStem));
    assert_eq!(file_stem(b"."), Err(NoFileStem));
    assert_eq!(file_stem(b"dir/.."), Err(NoFileStem));
    assert_eq!(file_stem(b"..tar"), Err(NoFileStem));
    assert_eq!(file_stem(b"..."), Err(NoFileStem));
}

/// A stem is its own stem.
#[test]
fn file_stem_is_idempotent() {
    let stem = file_stem(b"/x/.one.two.three").unwrap();
    assert_eq!(stem, b".one");
    assert_eq!(file_stem(stem).unwrap(), stem);
}

#[test]
fn paths_are_those_of_the_standard_library() {
    for path in strings(&['a', '.', '/'], 7) {
        let p = Path::new(&path);
        let bytes = path.as_bytes();
        let name = p.file_name().map(|n| n.to_str().unwrap().as_bytes());
        assert_eq!(file_name(bytes), name, "name of {path:?}");
        let stem = p.file_stem().map(|n| n.to_str().unwrap().as_bytes());
        assert_eq!(last_stem(bytes), stem, "stem of {path:?}");
        let full = std_stem(&path);
        assert_eq!(
            file_stem(bytes).ok().map(|s| s.to_vec()),
            full.map(|s| s.into_bytes()),
            "full stem of {path:?}"
        );
    }
}

#[test]
fn joins_are_those_of_the_standard_library() {
    for base in strings(&['a', '/'], 4) {
        for path in strings(&['a', '.', '/'], 3) {
            let joined = Path::new(&base).join(&path);
            assert_eq!(
                join(base.as_bytes(), path.as_bytes()),
                joined.to_str().unwrap().as_bytes(),
                "{base:?} joined with {path:?}"
            );
        }
    }
}

#[test]
fn deployment_is_named_after_archive() {
    let mut wanted = request(b"/data/stage3.tar.xz");
    wanted.remove = true;
    wanted.user = Some(b"user".to_vec());
    let deployment = deploy(b"/tmp", wanted).unwrap();
    assert_eq!(deployment.chroot_dir, b"/tmp/stage3");
    assert_eq!(deployment.ref_path, b"/tmp/stage3.lck");
    assert_eq!(deployment.request.archive, b"/data/stage3.tar.xz");
    assert_eq!(deployment.request.user, Some(b"user".to_vec()));
    assert!(deployment.request.remove);
    assert_eq!(deployment.request.command, None);
}

#[test]
fn pid_file_differs_in_extension() {
    for archive in strings(&['a', '.', '/'], 7) {
        if let Some(stem) = std_stem(&archive) {
            let deployment = deploy(b"/tmp", request(archive.as_bytes())).unwrap();
            let chroot_dir = Path::new("/tmp").join(&stem);
            let ref_path = chroot_dir.with_extension("lck");
            assert_eq!(deployment.chroot_dir, chroot_dir.to_str().unwrap().as_bytes());
            assert_eq!(deployment.ref_path, ref_path.to_str().unwrap().as_bytes());
        } else {
            assert!(deploy(b"/tmp", request(archive.as_bytes())).is_err());
        }
    }
}

#[test]
fn deployment_of_hidden_archive() {
    let deployment = deploy(b"/tmp/", request(b".stage3.tar.xz")).unwrap();
    assert_eq!(deployment.chroot_dir, b"/tmp/.stage3");
    assert_eq!(deployment.ref_path, b"/tmp/.stage3.lck");
}

#[test]
fn deployment_without_file_stem() {
    let failure = deploy(b"/tmp", request(b"..")).unwrap_err();
    assert_eq!(failure.context, Context::FileStem);
    assert_eq!(failure.error, NoFileStem);
    assert_eq!(deploy_message(b".."), "failed to extract file stem of path `..`");
    assert_eq!(
        deploy_message(b"/\xff/.."),
        "failed to extract file stem of path `/\u{fffd}/..`"
    );
}

/// Different stems make for different directories and PID files.
#[test]
fn deployments_do_not_overlap() {
    let one = deploy(b"/tmp", request(b"a/one.tar.xz")).unwrap();
    let two = deploy(b"/tmp", request(b"b/two.tar.xz")).unwrap();
    let same = deploy(b"/tmp", request(b"c/one.tar")).unwrap();
    assert_ne!(one.chroot_dir, two.chroot_dir);
    assert_ne!(one.ref_path, two.ref_path);
    assert_ne!(one.chroot_dir, two.ref_path);
    assert_ne!(one.chroot_dir, one.ref_path);
    assert_eq!(one.chroot_dir, same.chroot_dir);
    assert_eq!(one.ref_path, same.ref_path);
}
