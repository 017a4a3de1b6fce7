//! The PID file and its lock.

use chroot_deploy::context::Context;
use chroot_deploy::decimal::{
    append_decimal, append_signed_decimal, parse_u32, push_decimal,
};
use chroot_deploy::lock::{lock_step, LockStep};
use chroot_deploy::pids::{add_pid, read_pids, remove_pid, write_pids, AddPidResult, NotUtf8};

/// The PIDs in a file that can be read.
fn read(data: &[u8]) -> Vec<u32> {
    read_pids(data).unwrap()
}

/// Check that we can add a PID to a file.
#[test]
fn lock_file_add_pid() {
    let file = b"".to_vec();
    let (file, result) = add_pid(&file, 1234).unwrap();
    assert_eq!(result, AddPidResult::OwnPid);
    let pids = read(&file);
    assert_eq!(pids, vec![1234]);
}

/// Check that we can add multiple PIDs to a file.
#[test]
fn lock_file_add_pid_multi() {
    let file = b"".to_vec();

    let (file, result) = add_pid(&file, 1000).unwrap();
    assert!(matches!(result, AddPidResult::OwnPid));

    let (file, result) = add_pid(&file, 2000).unwrap();
    assert!(matches!(result, AddPidResult::ExistingPid(1000)));

    let (file, result) = add_pid(&file, 3000).unwrap();
    assert!(matches!(result, AddPidResult::ExistingPid(1000)));

    let (file, unused) = remove_pid(&file, 2000).unwrap();
    assert!(!unused);

    let (file, unused) = remove_pid(&file, 1000).unwrap();
    assert!(!unused);

    let (file, unused) = remove_pid(&file, 3000).unwrap();
    assert!(unused);
    assert!(file.is_empty());
}

/// Check that we can remove a PID from a file.
#[test]
fn lock_file_remove_pid() {
    let file = b"".to_vec();
    let (file, result) = add_pid(&file, 1234).unwrap();
    assert_eq!(result, AddPidResult::OwnPid);

    let (file, unused) = remove_pid(&file, 1234).unwrap();
    assert!(unused);
    let pids = read(&file);
    assert!(pids.is_empty());
}

/// Check that PIDs are stored sorted.
#[test]
fn lock_file_pids_sorted() {
    let file = b"".to_vec();
    let (file, _result) = add_pid(&file, 3000).unwrap();
    let (file, _result) = add_pid(&file, 1000).unwrap();
    let (file, _result) = add_pid(&file, 2000).unwrap();
    assert_eq!(file, b"1000\n2000\n3000");

    let pids = read(&file);
    assert_eq!(pids, vec![1000, 2000, 3000]);
}

/// Check that a file that somebody else has locked is waited for. The lock itself
/// is the system's: this is the rule for waiting alone.
#[test]
fn lock_file_lock() {
    let taken: Result<bool, String> = Ok(false);
    assert_eq!(lock_step(taken).unwrap(), LockStep::Retry(100));
    let free: Result<bool, String> = Ok(true);
    assert_eq!(lock_step(free).unwrap(), LockStep::Locked);
}

#[test]
fn lock_failure_ends_waiting() {
    let failure = lock_step(Err("no locks")).unwrap_err();
    assert_eq!(failure.context, Context::LockFile);
    assert_eq!(failure.error, "no locks");
}

/// A file that is not valid UTF-8 is not touched: there is nothing to write back,
/// no PID to join and nothing to clean up.
#[test]
fn file_that_is_no_text_is_refused() {
    for file in [&b"\xff\n1000"[..], b"\xff", b"1000\n\xc3", b"1\n\xed\xa0\x80\n2", b"\xc0\x80"] {
        assert_eq!(read_pids(file), Err(NotUtf8));
        assert_eq!(add_pid(file, 7), Err(NotUtf8));
        assert_eq!(remove_pid(file, 7), Err(NotUtf8));
        assert_eq!(remove_pid(file, 1000), Err(NotUtf8));
    }
    let text = "1000\ngröße €\n";
    assert_eq!(read(text.as_bytes()), vec![1000]);
    assert_eq!(
        add_pid(text.as_bytes(), 7),
        Ok((b"7\n1000".to_vec(), AddPidResult::ExistingPid(1000)))
    );
}

#[test]
fn lines_that_are_no_pids_are_ignored() {
    let file = b"\n12\r\nfoo\n+7\n -3\n4294967295\n4294967296\n0012\n\n8 \n5\r";
    assert_eq!(read(file), vec![7, 12, 12, 4294967295]);
    let without: &[u8] = b"3\n1\n";
    let with: &[u8] = b"3\nnot a PID\r\n1\n";
    assert_eq!(read(without), read(with));
}

/// What is not a PID is gone once the list is written back.
#[test]
fn update_cleans_the_file() {
    let (file, result) = add_pid(b"x\n9\n\n4\n9", 5).unwrap();
    assert_eq!(result, AddPidResult::ExistingPid(4));
    assert_eq!(file, b"4\n5\n9\n9");
    let (file, unused) = remove_pid(b"x\n9\n\n4\n9", 5).unwrap();
    assert!(!unused);
    assert_eq!(file, b"4\n9\n9");
}

/// Only one of several equal entries is removed.
#[test]
fn one_entry_is_removed() {
    let (file, unused) = remove_pid(b"5\n5", 5).unwrap();
    assert_eq!(file, b"5");
    assert!(!unused);
    let (file, unused) = remove_pid(&file, 5).unwrap();
    assert_eq!(file, b"");
    assert!(unused);
}

/// Removing a PID from an empty file leaves it empty.
#[test]
fn removal_from_empty_file() {
    let (file, unused) = remove_pid(b"", 5).unwrap();
    assert_eq!(file, b"");
    assert!(unused);
    let (file, unused) = remove_pid(b"nonsense", 5).unwrap();
    assert_eq!(file, b"");
    assert!(unused);
}

#[test]
fn adding_twice_changes_nothing() {
    let (once, _) = add_pid(b"8\n3", 5).unwrap();
    let (twice, result) = add_pid(&once, 5).unwrap();
    assert_eq!(once, twice);
    assert_eq!(result, AddPidResult::ExistingPid(3));
    assert_eq!(once, b"3\n5\n8");
}

#[test]
fn removal_undoes_addition() {
    let before = read(b"8\n3\n30");
    let (file, _) = add_pid(b"8\n3\n30", 5).unwrap();
    let (file, _) = remove_pid(&file, 5).unwrap();
    assert_eq!(read(&file), before);
}

#[test]
fn written_pids_are_read_back() {
    let pids = vec![0, 1, 9, 10, 99, 100, 4294967295];
    let content = write_pids(&pids);
    assert_eq!(content, b"0\n1\n9\n10\n99\n100\n4294967295");
    assert_eq!(read(&content), pids);
    assert_eq!(write_pids(&[]), b"");
    assert_eq!(write_pids(&[7]), b"7");
    assert_eq!(read(&write_pids(&[3, 1, 2])), vec![1, 2, 3]);
}

/// The list is always that of the processes that joined and did not leave.
#[test]
fn visits_are_counted() {
    let mut file = Vec::new();
    let mut users: Vec<u32> = Vec::new();
    let mut state: u32 = 12345;
    for _ in 0..500 {
        state = state.wrapping_mul(1664525).wrapping_add(1013904223);
        let pid = state >> 28;
        if state & 0x1000 == 0 {
            let (content, result) = add_pid(&file, pid).unwrap();
            file = content;
            match users.iter().min() {
                None => assert_eq!(result, AddPidResult::OwnPid),
                Some(first) => assert_eq!(result, AddPidResult::ExistingPid(*first)),
            }
            if !users.contains(&pid) {
                users.push(pid);
            }
        } else {
            let (content, unused) = remove_pid(&file, pid).unwrap();
            file = content;
            users.retain(|user| *user != pid);
            assert_eq!(unused, users.is_empty());
        }
        let mut sorted = users.clone();
        sorted.sort();
        assert_eq!(read(&file), sorted);
    }
}

fn std_pids(data: &str) -> Vec<u32> {
    let mut pids: Vec<u32> = data
        .lines()
        .filter(|line| !line.is_empty())
        .filter_map(|line| line.parse::<u32>().ok())
        .collect();
    pids.sort_unstable();
    pids
}

#[test]
fn reading_agrees_with_the_standard_library() {
    let alphabet = ['1', '9', '\n', '\r', '+', '-', ' '];
    let mut last = vec![String::new()];
    for _ in 0..5 {
        let mut next = Vec::new();
        for s in &last {
            assert_eq!(read(s.as_bytes()), std_pids(s), "{s:?}");
            for c in alphabet {
                let mut s = s.clone();
                s.push(c);
                next.push(s);
            }
        }
        last = next;
    }
}

#[test]
fn numbers_are_parsed() {
    for text in [
        "", "+", "-", "0", "00", "+0", "-0", "++1", "1+", "12a", "a", "1 ", " 1", "4294967295",
        "4294967296", "42949672950", "99999999999999999999999999", "00000000000000000042",
        "+4294967295", "1_000",
    ] {
        assert_eq!(parse_u32(text.as_bytes()), text.parse::<u32>().ok(), "{text:?}");
    }
}

#[test]
fn numbers_are_written() {
    for n in [0, 1, 9, 10, 11, 99, 100, 65535, 1000000, 4294967295u32] {
        let mut bytes = b"n=".to_vec();
        push_decimal(&mut bytes, n);
        assert_eq!(bytes, format!("n={n}").into_bytes());
        let mut text = String::from("n=");
        append_decimal(&mut text, n);
        assert_eq!(text, format!("n={n}"));
        assert_eq!(parse_u32(n.to_string().as_bytes()), Some(n));
    }
    for n in [0, 7, -1, -10, i32::MAX, i32::MIN] {
        let mut text = String::new();
        append_signed_decimal(&mut text, n);
        assert_eq!(text, n.to_string());
    }
}
