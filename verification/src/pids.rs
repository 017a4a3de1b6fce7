//! The PID file: the list of the processes that use a deployed chroot.
//!
//! The file is a text with one decimal PID per line. Anybody may write to it, so
//! a line that is not a PID is skipped when the file is read, and is gone once
//! the list is written back. A file that is not a text at all, because its bytes
//! are not valid UTF-8, is another matter: nothing is read from it, and there is
//! nothing to write back.

use vstd::multiset::*;
use vstd::prelude::*;
use vstd::relations::*;
use vstd::seq_lib::*;
use vstd::slice::slice_subrange;

use crate::ascii::{CARRIAGE_RETURN, NEWLINE};
use crate::decimal::{parse_u32, push_decimal};
use crate::text::is_utf8;

verus! {

/// The number of bytes in front of the first line feed, or of all bytes where
/// there is none.
pub open spec fn line_end(data: Seq<u8>) -> int
    decreases data.len(),
{
    if data.len() == 0 || data[0] == NEWLINE {
        0
    } else {
        1 + line_end(data.skip(1))
    }
}

/// A line without the carriage return in front of its line feed.
pub open spec fn without_carriage_return(line: Seq<u8>) -> Seq<u8> {
    if line.len() > 0 && line.last() == CARRIAGE_RETURN {
        line.drop_last()
    } else {
        line
    }
}

/// The lines of a text. A line ends in a line feed, or in a carriage return
/// and a line feed, which are not part of it; the last line need not.
pub open spec fn lines(data: Seq<u8>) -> Seq<Seq<u8>>
    decreases data.len(),
{
    let end = line_end(data);
    if data.len() == 0 {
        Seq::empty()
    } else if 0 <= end < data.len() {
        seq![without_carriage_return(data.take(end))] + lines(data.skip(end + 1))
    } else {
        seq![data]
    }
}

/// The PIDs in a PID file, in the order in which they stand there.
pub open spec fn pid_entries(data: Seq<u8>) -> Seq<u32> {
    lines(data).filter_map(|line: Seq<u8>| crate::decimal::parsed_u32(line))
}

/// The order of PIDs.
pub open spec fn pid_order() -> spec_fn(u32, u32) -> bool {
    |a: u32, b: u32| a <= b
}

/// Whether PIDs stand in ascending order.
pub open spec fn sorted(pids: Seq<u32>) -> bool {
    forall|i: int, j: int| 0 <= i <= j < pids.len() ==> pids[i] <= pids[j]
}

/// The same PIDs in ascending order.
pub open spec fn ordered(pids: Seq<u32>) -> Seq<u32> {
    pids.sort_by(pid_order())
}

/// What a PID file lists: its PIDs in ascending order.
pub open spec fn pid_list(data: Seq<u8>) -> Seq<u32> {
    ordered(pid_entries(data))
}

/// The content of a PID file with the given PIDs: their decimal notations, with
/// a line feed between each two of them.
pub open spec fn pid_content(pids: Seq<u32>) -> Seq<u8>
    decreases pids.len(),
{
    if pids.len() == 0 {
        Seq::empty()
    } else if pids.len() == 1 {
        crate::decimal::decimal(pids[0] as nat)
    } else {
        crate::decimal::decimal(pids[0] as nat) + seq![NEWLINE] + pid_content(pids.skip(1))
    }
}

/// The list with a PID added to it; a PID that is listed is not added again.
pub open spec fn with_pid(pids: Seq<u32>, pid: u32) -> Seq<u32> {
    if pids.contains(pid) {
        pids
    } else {
        ordered(pids.push(pid))
    }
}

/// The list without one occurrence of a PID, if it is listed at all.
pub open spec fn without_pid(pids: Seq<u32>, pid: u32) -> Seq<u32> {
    if pids.contains(pid) {
        pids.remove(pids.index_of(pid))
    } else {
        pids
    }
}

/// A PID file is not valid UTF-8.
#[derive(Debug, Clone, Copy, PartialEq, Eq, Structural)]
pub struct NotUtf8;

/// What came of adding a PID to a PID file.
#[derive(Debug, Clone, Copy, PartialEq, Eq, Structural)]
pub enum AddPidResult {
    /// Nobody was listed: the caller owns the PID file, and keeps it locked to
    /// set things up.
    OwnPid,
    /// The caller should join the namespace of the process with this PID.
    ExistingPid(u32),
}

/// What comes of adding a PID to a list.
pub open spec fn add_result(pids: Seq<u32>) -> AddPidResult {
    if pids.len() == 0 {
        AddPidResult::OwnPid
    } else {
        AddPidResult::ExistingPid(pids[0])
    }
}

/// The content of a PID file once a PID was added to it.
pub open spec fn added(data: Seq<u8>, pid: u32) -> Seq<u8> {
    pid_content(with_pid(pid_list(data), pid))
}

/// The content of a PID file once a PID was removed from it.
pub open spec fn removed(data: Seq<u8>, pid: u32) -> Seq<u8> {
    pid_content(without_pid(pid_list(data), pid))
}

/// What reading a PID file gives: the PIDs that it lists, or nothing where it is not
/// valid UTF-8.
pub open spec fn read_result(data: Seq<u8>) -> Option<Seq<u32>> {
    if vstd::utf8::valid_utf8(data) {
        Some(pid_list(data))
    } else {
        None
    }
}

/// What adding a PID to a PID file gives: the content to write back and what came
/// of it, or nothing where the file is not valid UTF-8.
pub open spec fn addition(data: Seq<u8>, pid: u32) -> Option<(Seq<u8>, AddPidResult)> {
    if vstd::utf8::valid_utf8(data) {
        Some((added(data, pid), add_result(pid_list(data))))
    } else {
        None
    }
}

/// What removing a PID from a PID file gives: the content to write back and whether
/// nobody is listed any more, or nothing where the file is not valid UTF-8.
pub open spec fn removal(data: Seq<u8>, pid: u32) -> Option<(Seq<u8>, bool)> {
    if vstd::utf8::valid_utf8(data) {
        Some((removed(data, pid), without_pid(pid_list(data), pid).len() == 0))
    } else {
        None
    }
}

/// Whether a PID file lists just the given processes, each once.
pub open spec fn lists(data: Seq<u8>, users: Set<u32>) -> bool {
    &&& pid_list(data).no_duplicates()
    &&& forall|pid: u32| pid_list(data).contains(pid) <==> users.contains(pid)
}

/// What a process does to the PID file of a chroot.
pub enum Visit {
    /// It starts to use the chroot.
    Join(u32),
    /// It stops using the chroot.
    Leave(u32),
}

/// The PID file after a course of visits to a chroot that nobody used.
pub open spec fn content_after(visits: Seq<Visit>) -> Seq<u8>
    decreases visits.len(),
{
    if visits.len() == 0 {
        Seq::empty()
    } else {
        match visits.last() {
            Visit::Join(pid) => added(content_after(visits.drop_last()), pid),
            Visit::Leave(pid) => removed(content_after(visits.drop_last()), pid),
        }
    }
}

/// The processes that use the chroot after a course of visits.
pub open spec fn users_after(visits: Seq<Visit>) -> Set<u32>
    decreases visits.len(),
{
    if visits.len() == 0 {
        Set::empty()
    } else {
        match visits.last() {
            Visit::Join(pid) => users_after(visits.drop_last()).insert(pid),
            Visit::Leave(pid) => users_after(visits.drop_last()).remove(pid),
        }
    }
}

proof fn lemma_order()
    ensures
        total_ordering(pid_order()),
{
}

proof fn lemma_sorted_by(pids: Seq<u32>)
    ensures
        sorted(pids) <==> sorted_by(pids, pid_order()),
{
    let leq = pid_order();
    if sorted_by(pids, leq) {
        assert forall|i: int, j: int| 0 <= i <= j < pids.len() implies pids[i] <= pids[j] by {
            if i < j {
                assert(leq(pids[i], pids[j]));
            }
        }
    }
}

/// Ordering PIDs gives an ascending list with the same PIDs, each as often.
pub proof fn ordered_is_sorted(pids: Seq<u32>)
    ensures
        sorted(ordered(pids)),
        ordered(pids).to_multiset() == pids.to_multiset(),
{
    lemma_order();
    pids.lemma_sort_by_ensures(pid_order());
    lemma_sorted_by(ordered(pids));
}

/// There is one way only to put PIDs into ascending order.
pub proof fn ordered_is_unique(pids: Seq<u32>, other: Seq<u32>)
    requires
        sorted(other),
        other.to_multiset() == pids.to_multiset(),
    ensures
        ordered(pids) == other,
{
    lemma_order();
    ordered_is_sorted(pids);
    lemma_sorted_by(ordered(pids));
    lemma_sorted_by(other);
    lemma_sorted_unique(ordered(pids), other, pid_order());
}

/// Search a PID in an ascending list. The result is the position of an
/// occurrence, or, as an error, the position at which the PID belongs.
fn binary_search(pids: &Vec<u32>, pid: u32) -> (r: Result<usize, usize>)
    requires
        sorted(pids@),
    ensures
        r matches Ok(i) ==> i < pids@.len() && pids@[i as int] == pid,
        r matches Err(i) ==> i <= pids@.len() && (forall|j: int|
            0 <= j < i ==> pids@[j] < pid) && (forall|j: int|
            i <= j < pids@.len() ==> pids@[j] > pid),
{
    let mut low: usize = 0;
    let mut high: usize = pids.len();
    while low < high
        invariant
            sorted(pids@),
            low <= high <= pids@.len(),
            forall|j: int| 0 <= j < low ==> pids@[j] < pid,
            forall|j: int| high <= j < pids@.len() ==> pids@[j] > pid,
        decreases high - low,
    {
        let middle: usize = low + (high - low) / 2;
        if pids[middle] == pid {
            return Ok(middle);
        } else if pids[middle] < pid {
            low = middle + 1;
        } else {
            high = middle;
        }
    }
    Err(low)
}

/// The position of the first line feed is pinned by what stands in front of it.
proof fn lemma_line_end(data: Seq<u8>, end: int)
    requires
        0 <= end <= data.len(),
        forall|i: int| 0 <= i < end ==> data[i] != NEWLINE,
        end < data.len() ==> data[end] == NEWLINE,
    ensures
        line_end(data) == end,
    decreases data.len(),
{
    if end > 0 {
        lemma_line_end(data.skip(1), end - 1);
    }
}

proof fn lemma_filter_map_add<A, B>(a: Seq<A>, b: Seq<A>, f: spec_fn(A) -> Option<B>)
    ensures
        (a + b).filter_map(f) == a.filter_map(f) + b.filter_map(f),
    decreases b.len(),
{
    if b.len() == 0 {
        assert(a + b =~= a);
    } else {
        assert((a + b).drop_last() =~= a + b.drop_last());
        lemma_filter_map_add(a, b.drop_last(), f);
    }
}

/// What a PID file holds is what its first line holds, followed by what the
/// rest of it holds.
proof fn lemma_first_entry(data: Seq<u8>, end: int)
    requires
        0 <= end <= data.len(),
        data.len() > 0,
        forall|i: int| 0 <= i < end ==> data[i] != NEWLINE,
        end < data.len() ==> data[end] == NEWLINE,
    ensures
        end < data.len() ==> pid_entries(data) == (match crate::decimal::parsed_u32(
            without_carriage_return(data.take(end)),
        ) {
            Some(pid) => seq![pid],
            None => Seq::<u32>::empty(),
        }) + pid_entries(data.skip(end + 1)),
        end == data.len() ==> pid_entries(data) == (match crate::decimal::parsed_u32(data) {
            Some(pid) => seq![pid],
            None => Seq::<u32>::empty(),
        }),
{
    let f = |line: Seq<u8>| crate::decimal::parsed_u32(line);
    lemma_line_end(data, end);
    if end < data.len() {
        let line = without_carriage_return(data.take(end));
        Seq::lemma_filter_map_singleton(line, f);
        lemma_filter_map_add(seq![line], lines(data.skip(end + 1)), f);
    } else {
        Seq::lemma_filter_map_singleton(data, f);
    }
}

/// Add a PID to an ascending list, also where it is listed already.
fn insert_pid(pids: &mut Vec<u32>, pid: u32)
    requires
        sorted(old(pids)@),
    ensures
        sorted(final(pids)@),
        final(pids)@.to_multiset() == old(pids)@.to_multiset().insert(pid),
{
    let index: usize = match binary_search(pids, pid) {
        Ok(index) => index,
        Err(index) => index,
    };
    pids.insert(index, pid);
    proof {
        to_multiset_insert(old(pids)@, index as int, pid);
    }
}

/// Collect the PIDs that stand in a PID file, in ascending order.
fn collect_pids(data: &[u8]) -> (pids: Vec<u32>)
    ensures
        pids@ == pid_list(data@),
        sorted(pids@),
        pids@.to_multiset() == pid_entries(data@).to_multiset(),
{
    let mut pids: Vec<u32> = Vec::new();
    let mut start: usize = 0;
    let ghost mut seen: Seq<u32> = Seq::empty();
    assert(data@.skip(0) =~= data@);
    assert(seen + pid_entries(data@) =~= pid_entries(data@));
    while start < data.len()
        invariant
            start <= data@.len(),
            sorted(pids@),
            pids@.to_multiset() == seen.to_multiset(),
            pid_entries(data@) == seen + pid_entries(data@.skip(start as int)),
        decreases data@.len() - start,
    {
        let mut end: usize = start;
        while end < data.len() && data[end] != NEWLINE
            invariant
                start <= end <= data@.len(),
                forall|i: int| start <= i < end ==> data@[i] != NEWLINE,
            decreases data@.len() - end,
        {
            end += 1;
        }
        let ghost rest = data@.skip(start as int);
        let ghost length = end - start;
        proof {
            assert forall|i: int| 0 <= i < length implies rest[i] != NEWLINE by {
                assert(rest[i] == data@[start + i]);
            }
            lemma_first_entry(rest, length);
        }
        let stop: usize = if end < data.len() && end > start && data[end - 1] == CARRIAGE_RETURN {
            end - 1
        } else {
            end
        };
        let next: usize = if end < data.len() {
            end + 1
        } else {
            end
        };
        let line = slice_subrange(data, start, stop);
        proof {
            if end < data@.len() {
                assert(line@ =~= without_carriage_return(rest.take(length)));
                assert(rest.skip(length + 1) =~= data@.skip(next as int));
            } else {
                assert(line@ =~= rest);
                assert(data@.skip(next as int) =~= Seq::<u8>::empty());
                assert(pid_entries(data@.skip(next as int)) =~= Seq::<u32>::empty());
            }
        }
        match parse_u32(line) {
            Some(pid) => {
                proof {
                    broadcast use group_to_multiset_ensures;

                    assert(seen.push(pid).to_multiset() == seen.to_multiset().insert(pid));
                    assert(seen + (seq![pid] + pid_entries(data@.skip(next as int))) =~= seen.push(
                        pid,
                    ) + pid_entries(data@.skip(next as int)));
                    seen = seen.push(pid);
                }
                insert_pid(&mut pids, pid);
            },
            None => {
                assert(seen + (Seq::<u32>::empty() + pid_entries(data@.skip(next as int))) =~= seen
                    + pid_entries(data@.skip(next as int)));
            },
        }
        start = next;
    }
    proof {
        assert(data@.skip(start as int) =~= Seq::<u8>::empty());
        assert(seen =~= pid_entries(data@));
        ordered_is_unique(pid_entries(data@), pids@);
    }
    pids
}

/// Read the PIDs in a PID file, in ascending order. That fails if and only if
/// the file is not valid UTF-8.
pub fn read_pids(data: &[u8]) -> (r: Result<Vec<u32>, NotUtf8>)
    ensures
        r is Ok <==> vstd::utf8::valid_utf8(data@),
        r matches Ok(pids) ==> {
            &&& pids@ == pid_list(data@)
            &&& sorted(pids@)
            &&& pids@.to_multiset() == pid_entries(data@).to_multiset()
        },
        r is Ok <==> read_result(data@) is Some,
        r matches Ok(pids) ==> read_result(data@) == Some(pids@),
{
    if is_utf8(data) {
        Ok(collect_pids(data))
    } else {
        Err(NotUtf8)
    }
}

/// The content of a PID file that lists the given PIDs.
pub fn write_pids(pids: &[u32]) -> (content: Vec<u8>)
    ensures
        content@ == pid_content(pids@),
{
    let mut content: Vec<u8> = Vec::new();
    let mut i: usize = 0;
    assert(pids@.skip(0) =~= pids@);
    while i < pids.len()
        invariant
            i <= pids@.len(),
            i == 0 ==> content@ == Seq::<u8>::empty(),
            i < pids@.len() ==> pid_content(pids@) == content@ + (if i > 0 {
                seq![NEWLINE]
            } else {
                Seq::<u8>::empty()
            }) + pid_content(pids@.skip(i as int)),
            i == pids@.len() && i > 0 ==> pid_content(pids@) == content@,
        decreases pids@.len() - i,
    {
        let ghost rest = pids@.skip(i as int);
        let ghost before = content@;
        if i > 0 {
            content.push(NEWLINE);
        }
        push_decimal(&mut content, pids[i]);
        proof {
            assert(rest.skip(1) =~= pids@.skip(i + 1));
            let separator = if i > 0 {
                seq![NEWLINE]
            } else {
                Seq::<u8>::empty()
            };
            let number = crate::decimal::decimal(rest[0] as nat);
            assert(content@ =~= before + separator + number);
            if rest.len() > 1 {
                assert(before + separator + (number + seq![NEWLINE] + pid_content(rest.skip(1)))
                    =~= content@ + seq![NEWLINE] + pid_content(pids@.skip(i + 1)));
            }
        }
        i += 1;
    }
    content
}

/// Add a PID to a PID file. The result is the content to write back, and what
/// came of it. Where the file is not valid UTF-8 there is none, and the file is
/// to stay as it is.
pub fn add_pid(data: &[u8], pid: u32) -> (r: Result<(Vec<u8>, AddPidResult), NotUtf8>)
    ensures
        r is Ok <==> vstd::utf8::valid_utf8(data@),
        r matches Ok(done) ==> done.0@ == added(data@, pid) && done.1 == add_result(
            pid_list(data@),
        ),
        r is Ok <==> addition(data@, pid) is Some,
        r matches Ok(done) ==> addition(data@, pid) == Some((done.0@, done.1)),
{
    let mut pids = match read_pids(data) {
        Ok(pids) => pids,
        Err(error) => return Err(error),
    };
    let result = if pids.len() > 0 {
        AddPidResult::ExistingPid(pids[0])
    } else {
        AddPidResult::OwnPid
    };
    if let Err(index) = binary_search(&pids, pid) {
        let ghost before = pids@;
        pids.insert(index, pid);
        proof {
            broadcast use group_to_multiset_ensures;

            to_multiset_insert(before, index as int, pid);
            assert(!before.contains(pid));
            ordered_is_unique(before.push(pid), pids@);
        }
    }
    Ok((write_pids(pids.as_slice()), result))
}

/// Removing one of several equal PIDs from an ascending list gives the same
/// list, whichever it is.
proof fn lemma_remove_any(pids: Seq<u32>, i: int, j: int)
    requires
        sorted(pids),
        0 <= i < pids.len(),
        0 <= j < pids.len(),
        pids[i] == pids[j],
    ensures
        sorted(pids.remove(i)),
        pids.remove(i) == pids.remove(j),
{
    broadcast use group_to_multiset_ensures;

    assert(sorted(pids.remove(i)));
    assert(sorted(pids.remove(j)));
    ordered_is_unique(pids.remove(i), pids.remove(i));
    ordered_is_unique(pids.remove(i), pids.remove(j));
}

/// Remove a PID from a PID file. The result is the content to write back, and
/// whether nobody is listed any more. Where the file is not valid UTF-8 there is
/// none, and the file is to stay as it is.
pub fn remove_pid(data: &[u8], pid: u32) -> (r: Result<(Vec<u8>, bool), NotUtf8>)
    ensures
        r is Ok <==> vstd::utf8::valid_utf8(data@),
        r matches Ok(done) ==> done.0@ == removed(data@, pid) && done.1 == (without_pid(
            pid_list(data@),
            pid,
        ).len() == 0),
        r is Ok <==> removal(data@, pid) is Some,
        r matches Ok(done) ==> removal(data@, pid) == Some((done.0@, done.1)),
{
    let mut pids = match read_pids(data) {
        Ok(pids) => pids,
        Err(error) => return Err(error),
    };
    if let Ok(index) = binary_search(&pids, pid) {
        let ghost before = pids@;
        pids.remove(index);
        proof {
            assert(before[index as int] == pid);
            lemma_remove_any(before, index as int, before.index_of(pid));
        }
    }
    let unused = pids.len() == 0;
    Ok((write_pids(pids.as_slice()), unused))
}

/// Reading a PID file gives back the PIDs that were written to it, in the order
/// in which they were written.
pub proof fn entries_of_content(pids: Seq<u32>)
    ensures
        pid_entries(pid_content(pids)) == pids,
    decreases pids.len(),
{
    let data = pid_content(pids);
    if pids.len() == 0 {
        assert(pid_entries(data) =~= pids);
    } else {
        let number = crate::decimal::decimal(pids[0] as nat);
        crate::decimal::decimal_denotes(pids[0] as nat);
        crate::decimal::parse_reads_decimal(pids[0]);
        assert forall|i: int| 0 <= i < number.len() implies data[i] != NEWLINE by {
            assert(crate::decimal::is_digit(number[i]));
            assert(data[i] == number[i]);
        }
        lemma_first_entry(data, number.len() as int);
        if pids.len() == 1 {
            assert(pids =~= seq![pids[0]]);
        } else {
            assert(data[number.len() as int] == NEWLINE);
            assert(data.take(number.len() as int) =~= number);
            assert(crate::decimal::is_digit(number.last()));
            assert(data.skip(number.len() as int + 1) =~= pid_content(pids.skip(1)));
            entries_of_content(pids.skip(1));
            assert(seq![pids[0]] + pids.skip(1) =~= pids);
        }
    }
}

proof fn lemma_content_is_ascii(pids: Seq<u32>)
    ensures
        forall|i: int| 0 <= i < pid_content(pids).len() ==> pid_content(pids)[i] < 0x80,
    decreases pids.len(),
{
    if pids.len() > 0 {
        let number = crate::decimal::decimal(pids[0] as nat);
        crate::decimal::decimal_denotes(pids[0] as nat);
        assert forall|i: int| 0 <= i < number.len() implies number[i] < 0x80 by {
            assert(crate::decimal::is_digit(number[i]));
        }
        let rest = pid_content(pids.skip(1));
        lemma_content_is_ascii(pids.skip(1));
        let data = pid_content(pids);
        assert forall|i: int| 0 <= i < data.len() implies data[i] < 0x80 by {
            if i < number.len() {
                assert(data[i] == number[i]);
            } else if i > number.len() {
                assert(data[i] == rest[i - number.len() - 1]);
            } else {
                assert(data[i] == NEWLINE);
            }
        }
    }
}

/// What is written to a PID file is valid UTF-8, so that it can be read again.
pub proof fn content_is_utf8(pids: Seq<u32>)
    ensures
        vstd::utf8::valid_utf8(pid_content(pids)),
{
    let data = pid_content(pids);
    let chars = crate::decimal::ascii_chars(data);
    lemma_content_is_ascii(pids);
    assert forall|i: int| 0 <= i < chars.len() implies '\0' <= #[trigger] chars[i] <= '\u{7f}' by {
        assert(chars[i] == data[i] as char);
    }
    vstd::utf8::is_ascii_chars_encode_utf8(chars);
    assert(vstd::utf8::encode_utf8(chars) =~= data) by {
        assert forall|i: int| 0 <= i < data.len() implies vstd::utf8::encode_utf8(chars)[i]
            == data[i] by {
            assert(chars[i] as u8 == data[i]);
        }
    }
    vstd::utf8::encode_utf8_valid_utf8(chars);
}

/// A PID file to which an ascending list was written lists just that.
pub proof fn list_of_content(pids: Seq<u32>)
    requires
        sorted(pids),
    ensures
        pid_list(pid_content(pids)) == pids,
{
    entries_of_content(pids);
    ordered_is_unique(pids, pids);
}

/// What is written back to a PID file by adding or removing a PID stands there
/// in ascending order, whatever the file held before, and is read back as it
/// is: everything that was not a PID is gone.
pub proof fn update_is_ordered(data: Seq<u8>, pid: u32)
    ensures
        sorted(pid_entries(added(data, pid))),
        pid_entries(added(data, pid)) == with_pid(pid_list(data), pid),
        pid_list(added(data, pid)) == with_pid(pid_list(data), pid),
        sorted(pid_entries(removed(data, pid))),
        pid_entries(removed(data, pid)) == without_pid(pid_list(data), pid),
        pid_list(removed(data, pid)) == without_pid(pid_list(data), pid),
{
    let pids = pid_list(data);
    ordered_is_sorted(pid_entries(data));
    ordered_is_sorted(pids.push(pid));
    if pids.contains(pid) {
        lemma_remove_any(pids, pids.index_of(pid), pids.index_of(pid));
    }
    entries_of_content(with_pid(pids, pid));
    list_of_content(with_pid(pids, pid));
    entries_of_content(without_pid(pids, pid));
    list_of_content(without_pid(pids, pid));
}

/// A PID that was added is listed, and adding it again changes nothing.
pub proof fn add_is_idempotent(data: Seq<u8>, pid: u32)
    ensures
        pid_list(added(data, pid)).contains(pid),
        added(added(data, pid), pid) == added(data, pid),
{
    broadcast use group_to_multiset_ensures;

    let pids = pid_list(data);
    update_is_ordered(data, pid);
    ordered_is_sorted(pids.push(pid));
    assert(pids.push(pid).last() == pid);
    assert(pids.push(pid).contains(pid));
    assert(pids.push(pid).to_multiset().count(pid) > 0);
}

/// Removing a PID undoes adding it, unless it was listed before.
pub proof fn remove_undoes_add(data: Seq<u8>, pid: u32)
    requires
        !pid_list(data).contains(pid),
    ensures
        pid_list(removed(added(data, pid), pid)) == pid_list(data),
        removed(added(data, pid), pid) == pid_content(pid_list(data)),
{
    broadcast use group_to_multiset_ensures;
    broadcast use vstd::multiset::group_multiset_axioms;

    let pids = pid_list(data);
    let more = with_pid(pids, pid);
    ordered_is_sorted(pid_entries(data));
    update_is_ordered(data, pid);
    update_is_ordered(added(data, pid), pid);
    add_is_idempotent(data, pid);
    ordered_is_sorted(pids.push(pid));
    let i = more.index_of(pid);
    assert(more[i] == pid);
    lemma_remove_any(more, i, i);
    assert(pids.push(pid).to_multiset() == pids.to_multiset().insert(pid));
    assert(more.remove(i).to_multiset() == more.to_multiset().remove(pid));
    assert(more.remove(i).to_multiset() =~= pids.to_multiset());
    ordered_is_unique(pids, more.remove(i));
    ordered_is_unique(pids, pids);
}

/// Adding a PID to a file that lists a set of processes gives one that lists
/// that process too. The caller owns the file if and only if nobody was
/// listed; else it is told the least of the listed PIDs.
pub proof fn add_joins(data: Seq<u8>, users: Set<u32>, pid: u32)
    requires
        lists(data, users),
    ensures
        lists(added(data, pid), users.insert(pid)),
        add_result(pid_list(data)) is OwnPid <==> users == Set::<u32>::empty(),
        add_result(pid_list(data)) matches AddPidResult::ExistingPid(first) ==> users.contains(
            first,
        ) && forall|other: u32| users.contains(other) ==> first <= other,
{
    broadcast use group_to_multiset_ensures;
    broadcast use vstd::multiset::group_multiset_axioms;

    let pids = pid_list(data);
    let more = with_pid(pids, pid);
    ordered_is_sorted(pid_entries(data));
    update_is_ordered(data, pid);
    ordered_is_sorted(pids.push(pid));
    if pids.len() > 0 {
        assert(pids.contains(pids[0]));
        assert(users.contains(pids[0]));
        assert forall|other: u32| users.contains(other) implies pids[0] <= other by {
            assert(pids.contains(other));
        }
    } else {
        assert(users =~= Set::<u32>::empty());
    }
    if !pids.contains(pid) {
        assert(pids.push(pid).no_duplicates());
        pids.push(pid).lemma_multiset_has_no_duplicates();
        more.lemma_multiset_has_no_duplicates_conv();
        assert forall|other: u32| more.contains(other) <==> users.insert(pid).contains(other) by {
            assert(more.contains(other) <==> more.to_multiset().count(other) > 0);
            assert(pids.push(pid).contains(other) <==> pids.push(pid).to_multiset().count(other)
                > 0);
            if pids.contains(other) {
                let i = pids.index_of(other);
                assert(pids.push(pid)[i] == other);
            }
            if other == pid {
                assert(pids.push(pid)[pids.len() as int] == pid);
            }
        }
    } else {
        assert(users.insert(pid) =~= users);
    }
}

/// Removing a PID from a file that lists a set of processes gives one that
/// lists that process no more. It is reported unused if and only if no other
/// process was listed.
pub proof fn remove_leaves(data: Seq<u8>, users: Set<u32>, pid: u32)
    requires
        lists(data, users),
    ensures
        lists(removed(data, pid), users.remove(pid)),
        without_pid(pid_list(data), pid).len() == 0 <==> users.remove(pid) == Set::<u32>::empty(),
{
    let pids = pid_list(data);
    let fewer = without_pid(pids, pid);
    update_is_ordered(data, pid);
    if pids.contains(pid) {
        let i = pids.index_of(pid);
        assert(pids[i] == pid);
        assert forall|other: u32| fewer.contains(other) <==> users.remove(pid).contains(other) by {
            if fewer.contains(other) {
                let j = fewer.index_of(other);
                assert(fewer[j] == other);
                assert(pids[if j < i { j } else { j + 1 }] == other);
            }
            if users.remove(pid).contains(other) {
                let j = pids.index_of(other);
                assert(pids[j] == other);
                assert(fewer[if j < i { j } else { j - 1 }] == other);
            }
        }
    } else {
        assert(users.remove(pid) =~= users);
    }
    if fewer.len() == 0 {
        assert(users.remove(pid) =~= Set::<u32>::empty());
    } else {
        assert(fewer.contains(fewer[0]));
        assert(users.remove(pid).contains(fewer[0]));
    }
}

/// Whatever processes come and go, the PID file lists just those that use the
/// chroot.
pub proof fn visits_are_counted(visits: Seq<Visit>)
    ensures
        lists(content_after(visits), users_after(visits)),
    decreases visits.len(),
{
    if visits.len() == 0 {
        let none = Seq::<u32>::empty();
        assert(pid_content(none) =~= Seq::<u8>::empty());
        list_of_content(none);
    } else {
        let earlier = visits.drop_last();
        visits_are_counted(earlier);
        match visits.last() {
            Visit::Join(pid) => add_joins(content_after(earlier), users_after(earlier), pid),
            Visit::Leave(pid) => remove_leaves(content_after(earlier), users_after(earlier), pid),
        }
    }
}

/// The lines of a text that is put together of complete lines and something
/// more.
proof fn lemma_lines_add(head: Seq<u8>, tail: Seq<u8>)
    requires
        head.len() > 0 ==> head.last() == NEWLINE,
    ensures
        lines(head + tail) == lines(head) + lines(tail),
    decreases head.len(),
{
    if head.len() == 0 {
        assert(head + tail =~= tail);
        assert(lines(head) + lines(tail) =~= lines(tail));
    } else {
        let end = lemma_some_line_end(head);
        lemma_line_end(head, end);
        lemma_line_end(head + tail, end);
        let rest = head.skip(end + 1);
        assert((head + tail).take(end) =~= head.take(end));
        assert((head + tail).skip(end + 1) =~= rest + tail);
        if rest.len() > 0 {
            assert(rest.last() == head.last());
        }
        lemma_lines_add(rest, tail);
        let line = seq![without_carriage_return(head.take(end))];
        assert(line + (lines(rest) + lines(tail)) =~= line + lines(rest) + lines(tail));
    }
}

/// A text that ends in a line feed has a first one.
proof fn lemma_some_line_end(data: Seq<u8>) -> (end: int)
    requires
        data.len() > 0,
        data.last() == NEWLINE,
    ensures
        0 <= end < data.len(),
        data[end] == NEWLINE,
        forall|i: int| 0 <= i < end ==> data[i] != NEWLINE,
    decreases data.len(),
{
    if data[0] == NEWLINE {
        0
    } else {
        let rest = data.skip(1);
        let end = lemma_some_line_end(rest);
        assert forall|i: int| 0 <= i < end + 1 implies data[i] != NEWLINE by {
            if i > 0 {
                assert(data[i] == rest[i - 1]);
            }
        }
        end + 1
    }
}

/// A line that is not a PID is ignored, wherever it stands in the file.
pub proof fn foreign_line_is_ignored(before: Seq<u8>, line: Seq<u8>, after: Seq<u8>)
    requires
        before.len() > 0 ==> before.last() == NEWLINE,
        !line.contains(NEWLINE),
        crate::decimal::parsed_u32(without_carriage_return(line)) is None,
    ensures
        pid_entries(before + line + seq![NEWLINE] + after) == pid_entries(before + after),
        pid_list(before + line + seq![NEWLINE] + after) == pid_list(before + after),
{
    let f = |l: Seq<u8>| crate::decimal::parsed_u32(l);
    let rest = line + seq![NEWLINE] + after;
    assert(before + line + seq![NEWLINE] + after =~= before + rest);
    lemma_lines_add(before, rest);
    lemma_lines_add(before, after);
    assert forall|i: int| 0 <= i < line.len() implies rest[i] != NEWLINE by {
        assert(line.contains(line[i]));
    }
    lemma_first_entry(rest, line.len() as int);
    assert(rest.take(line.len() as int) =~= line);
    assert(rest.skip(line.len() as int + 1) =~= after);
    lemma_filter_map_add(lines(before), lines(rest), f);
    lemma_filter_map_add(lines(before), lines(after), f);
    assert(Seq::<u32>::empty() + pid_entries(after) =~= pid_entries(after));
}

/// A PID file holds what its first line holds, and behind that what the rest of it
/// holds. A line ends in a line feed, and may have a carriage return in front of
/// that; the last line need not end in anything, and a carriage return there is
/// part of it.
pub proof fn each_line_counts(line: Seq<u8>, rest: Seq<u8>)
    requires
        !line.contains('\n' as u8),
    ensures
        ({
            let entry = match crate::decimal::parsed_u32(line) {
                Some(pid) => seq![pid],
                None => Seq::<u32>::empty(),
            };
            &&& pid_entries(line) == entry
            &&& line.len() == 0 || line.last() != '\r' as u8 ==> pid_entries(
                line.push('\n' as u8) + rest,
            ) == entry + pid_entries(rest)
            &&& pid_entries(line.push('\r' as u8).push('\n' as u8) + rest) == entry + pid_entries(
                rest,
            )
        }),
{
    assert forall|i: int| 0 <= i < line.len() implies line[i] != NEWLINE by {
        assert(line.contains(line[i]));
    }
    let n = line.len() as int;
    if n == 0 {
        assert(pid_entries(line) =~= Seq::<u32>::empty());
    } else {
        lemma_first_entry(line, n);
    }
    let plain = line.push(NEWLINE) + rest;
    lemma_first_entry(plain, n);
    assert(plain.take(n) =~= line);
    assert(plain.skip(n + 1) =~= rest);
    let returned = line.push(CARRIAGE_RETURN).push(NEWLINE) + rest;
    lemma_first_entry(returned, n + 1);
    assert(returned.take(n + 1) =~= line.push(CARRIAGE_RETURN));
    assert(line.push(CARRIAGE_RETURN).drop_last() =~= line);
    assert(returned.skip(n + 2) =~= rest);
}

/// A PID file lists the PIDs that stand in it, each as often as it stands there, in
/// ascending order.
pub proof fn entries_are_listed(data: Seq<u8>)
    ensures
        pid_list(data).to_multiset() == pid_entries(data).to_multiset(),
        pid_list(data).len() == pid_entries(data).len(),
        forall|i: int, j: int|
            0 <= i <= j < pid_list(data).len() ==> pid_list(data)[i] <= pid_list(data)[j],
{
    broadcast use group_to_multiset_ensures;

    ordered_is_sorted(pid_entries(data));
    assert(pid_list(data).to_multiset().len() == pid_list(data).len());
    assert(pid_entries(data).to_multiset().len() == pid_entries(data).len());
}

/// A list of PIDs is written with a line feed between each two of them, and
/// nothing in front of the first and behind the last.
pub proof fn content_separates_pids(pids: Seq<u32>, more: Seq<u32>, pid: u32)
    ensures
        pid_content(Seq::empty()) == Seq::<u8>::empty(),
        pid_content(seq![pid]) == crate::decimal::decimal(pid as nat),
        pids.len() > 0 && more.len() > 0 ==> pid_content(pids + more) == pid_content(pids).push(
            '\n' as u8,
        ) + pid_content(more),
    decreases pids.len(),
{
    if pids.len() > 0 && more.len() > 0 {
        let number = crate::decimal::decimal(pids[0] as nat);
        assert((pids + more).skip(1) =~= pids.skip(1) + more);
        if pids.len() == 1 {
            assert(pids.skip(1) + more =~= more);
            assert(number + seq![NEWLINE] + pid_content(more) =~= number.push(NEWLINE)
                + pid_content(more));
        } else {
            content_separates_pids(pids.skip(1), more, pid);
            let rest = pid_content(pids.skip(1));
            assert(number + seq![NEWLINE] + (rest.push(NEWLINE) + pid_content(more)) =~= (number
                + seq![NEWLINE] + rest).push(NEWLINE) + pid_content(more));
        }
    }
}

/// Whatever a PID file held, a PID that is added stands in it, and all others stand
/// in it as often as before. A PID that stood in it is not added once more.
pub proof fn add_changes_one_entry(data: Seq<u8>, pid: u32)
    ensures
        pid_entries(added(data, pid)).to_multiset() == if pid_entries(data).contains(pid) {
            pid_entries(data).to_multiset()
        } else {
            pid_entries(data).to_multiset().insert(pid)
        },
        sorted(pid_entries(added(data, pid))),
{
    broadcast use group_to_multiset_ensures;

    let pids = pid_list(data);
    let entries = pid_entries(data);
    update_is_ordered(data, pid);
    ordered_is_sorted(entries);
    ordered_is_sorted(pids.push(pid));
    assert(pids.contains(pid) <==> pids.to_multiset().count(pid) > 0);
    assert(entries.contains(pid) <==> entries.to_multiset().count(pid) > 0);
}

/// Whatever a PID file held, a PID that is removed stands in it once less, if it
/// stood there at all, and all others stand in it as often as before.
pub proof fn remove_changes_one_entry(data: Seq<u8>, pid: u32)
    ensures
        pid_entries(removed(data, pid)).to_multiset() == pid_entries(data).to_multiset().remove(
            pid,
        ),
        sorted(pid_entries(removed(data, pid))),
{
    broadcast use group_to_multiset_ensures;
    broadcast use vstd::multiset::group_multiset_axioms;

    let pids = pid_list(data);
    let entries = pid_entries(data);
    update_is_ordered(data, pid);
    ordered_is_sorted(entries);
    assert(pids.contains(pid) <==> pids.to_multiset().count(pid) > 0);
    let after = pid_entries(removed(data, pid)).to_multiset();
    if pids.contains(pid) {
        let i = pids.index_of(pid);
        assert(pids[i] == pid);
        assert(pids.remove(i).to_multiset() == pids.to_multiset().remove(pid));
    } else {
        assert(after =~= entries.to_multiset().remove(pid));
    }
}

/// Whoever adds its PID owns the PID file if and only if no PID stood in it, and
/// else is told the least PID that stood in it.
pub proof fn owner_is_alone(data: Seq<u8>)
    ensures
        add_result(pid_list(data)) is OwnPid <==> pid_entries(data).len() == 0,
        add_result(pid_list(data)) matches AddPidResult::ExistingPid(first) ==> pid_entries(
            data,
        ).contains(first) && forall|i: int|
            0 <= i < pid_entries(data).len() ==> first <= #[trigger] pid_entries(data)[i],
{
    broadcast use group_to_multiset_ensures;

    let pids = pid_list(data);
    let entries = pid_entries(data);
    entries_are_listed(data);
    if pids.len() > 0 {
        assert(pids.contains(pids[0]));
        assert(pids.to_multiset().count(pids[0]) > 0);
        assert(entries.contains(pids[0]));
        assert forall|i: int| 0 <= i < entries.len() implies pids[0] <= #[trigger] entries[i] by {
            assert(entries.contains(entries[i]));
            assert(entries.to_multiset().count(entries[i]) > 0);
            assert(pids.contains(entries[i]));
        }
    }
}

/// A PID file can be read, and changed, if and only if it is valid UTF-8. Reading it
/// gives all PIDs that stand in it, each as often as it stands there, in ascending
/// order.
pub proof fn valid_file_is_read(data: Seq<u8>, pid: u32)
    ensures
        read_result(data) is Some <==> vstd::utf8::valid_utf8(data),
        addition(data, pid) is Some <==> vstd::utf8::valid_utf8(data),
        removal(data, pid) is Some <==> vstd::utf8::valid_utf8(data),
        read_result(data) matches Some(pids) ==> {
            &&& pids.to_multiset() == pid_entries(data).to_multiset()
            &&& forall|i: int, j: int| 0 <= i <= j < pids.len() ==> pids[i] <= pids[j]
        },
{
    entries_are_listed(data);
}

/// Adding a PID gives a file in which it stands, and all others as often as before,
/// and removing a PID one in which it stands once less. Who adds its PID owns the
/// file if and only if no PID stood in it, and else is told the least one; who
/// removes its PID is told that nobody is left if and only if no PID stands in what
/// is written back.
pub proof fn changes_are_told(data: Seq<u8>, pid: u32)
    requires
        vstd::utf8::valid_utf8(data),
    ensures
        ({
            let before = pid_entries(data);
            &&& addition(data, pid) matches Some((content, result))
            &&& pid_entries(content).to_multiset() == if before.contains(pid) {
                before.to_multiset()
            } else {
                before.to_multiset().insert(pid)
            }
            &&& result is OwnPid <==> before.len() == 0
            &&& result matches AddPidResult::ExistingPid(first) ==> before.contains(first)
                && forall|i: int| 0 <= i < before.len() ==> first <= #[trigger] before[i]
        }),
        ({
            let left = pid_entries(data).to_multiset().remove(pid);
            &&& removal(data, pid) matches Some((content, unused))
            &&& pid_entries(content).to_multiset() == left
            &&& unused <==> pid_entries(content).len() == 0
            &&& unused <==> left.len() == 0
        }),
{
    broadcast use group_to_multiset_ensures;

    add_changes_one_entry(data, pid);
    remove_changes_one_entry(data, pid);
    update_is_ordered(data, pid);
    owner_is_alone(data);
    let content = removed(data, pid);
    assert(pid_entries(content).to_multiset().len() == pid_entries(content).len());
}

/// A file can be read again after each change.
pub proof fn changed_file_is_read(data: Seq<u8>, pid: u32)
    requires
        vstd::utf8::valid_utf8(data),
    ensures
        addition(data, pid) matches Some(done) && read_result(done.0) is Some,
        removal(data, pid) matches Some(done) && read_result(done.0) is Some,
{
    content_is_utf8(with_pid(pid_list(data), pid));
    content_is_utf8(without_pid(pid_list(data), pid));
}

} // verus!
