//! What is asked of `journalctl` and how its list of boots is read.
use crate::text::{decimal, push_decimal, string_from_chars};
use vstd::prelude::*;

verus! {

/// Where `journalctl` is looked for, in this order.
pub open spec fn journalctl_candidates() -> Seq<Seq<char>> {
    seq!["/usr/bin/journalctl"@, "/bin/journalctl"@, "journalctl"@]
}

/// The places where `journalctl` is looked for, in order.
pub fn journalctl_candidate_paths() -> (res: Vec<&'static str>)
    ensures
        res@.len() == 3,
        forall|i: int| 0 <= i < 3 ==> (#[trigger] res@[i])@ == journalctl_candidates()[i],
{
    let v = vec!["/usr/bin/journalctl", "/bin/journalctl", "journalctl"];
    v
}

/// The first candidate that is present, given which of them are.
pub open spec fn first_present(present: Seq<bool>) -> Option<int>
    decreases present.len(),
{
    if present.len() == 0 {
        None
    } else {
        match first_present(present.drop_last()) {
            Some(i) => Some(i),
            None => if present.last() {
                Some(present.len() - 1)
            } else {
                None
            },
        }
    }
}

/// The message given when no candidate is present.
pub fn journalctl_missing_message() -> (res: &'static str)
    ensures
        res@ == "journalctl not found. This application requires systemd."@,
{
    "journalctl not found. This application requires systemd."
}

/// The `journalctl` to run: the first candidate that is present (`present[i]` tells
/// whether candidate `i` exists), or none when none is.
pub fn journalctl_path(present: &[bool]) -> (res: Option<&'static str>)
    requires
        present@.len() == 3,
    ensures
        match first_present(present@) {
            Some(i) => res matches Some(p) && p@ == journalctl_candidates()[i],
            None => res is None,
        },
{
    let paths = journalctl_candidate_paths();
    let mut i: usize = 0;
    while i < 3
        invariant
            i <= 3,
            present@.len() == 3,
            paths@.len() == 3,
            forall|k: int| 0 <= k < 3 ==> (#[trigger] paths@[k])@ == journalctl_candidates()[k],
            first_present(present@.take(i as int)) is None,
        decreases 3 - i,
    {
        proof {
            let t = present@.take(i + 1);
            assert(t.drop_last() == present@.take(i as int));
        }
        if present[i] {
            proof {
                let t = present@.take(i + 1);
                assert(first_present(t) == Some(i as int));
                lemma_first_present_extends(present@, i as int + 1);
            }
            return Some(paths[i]);
        }
        i = i + 1;
    }
    assert(present@.take(3) == present@);
    None
}

/// A candidate found among the first `k` stays the first one found in the whole list.
pub proof fn lemma_first_present_extends(present: Seq<bool>, k: int)
    requires
        0 <= k <= present.len(),
        first_present(present.take(k)) is Some,
    ensures
        first_present(present) == first_present(present.take(k)),
    decreases present.len() - k,
{
    if k < present.len() {
        let t = present.take(k + 1);
        assert(t.drop_last() == present.take(k));
        lemma_first_present_extends(present, k + 1);
    } else {
        assert(present.take(k) == present);
    }
}

/// Whether `journalctl` can be run: some candidate is present.
pub fn check_journalctl_available(present: &[bool]) -> (res: bool)
    requires
        present@.len() == 3,
    ensures
        res == (first_present(present@) is Some),
{
    journalctl_path(present).is_some()
}

/// A signed integer as `to_string` prints it.
pub open spec fn signed_decimal(n: int) -> Seq<char> {
    if n < 0 {
        seq!['-'] + decimal((-n) as nat)
    } else {
        decimal(n as nat)
    }
}

/// The arguments that read at most `limit` entries of boot `boot_index` (0 = the
/// current boot, -1 the one before, ...) as JSON lines.
pub open spec fn journal_args(boot_index: int, limit: nat) -> Seq<Seq<char>> {
    seq![
        "-b"@,
        signed_decimal(boot_index),
        "-n"@,
        decimal(limit),
        "-o"@,
        "json"@,
        "--no-pager"@,
    ]
}

fn signed_text(n: i32) -> (res: String)
    ensures
        res@ == signed_decimal(n as int),
{
    let mut out: Vec<char> = Vec::new();
    if n < 0 {
        out.push('-');
        let m: i64 = 0 - (n as i64);
        push_decimal(m as u64, &mut out);
    } else {
        push_decimal(n as u64, &mut out);
    }
    string_from_chars(out.as_slice())
}

fn unsigned_text(n: usize) -> (res: String)
    ensures
        res@ == decimal(n as nat),
{
    let mut out: Vec<char> = Vec::new();
    push_decimal(n as u64, &mut out);
    string_from_chars(out.as_slice())
}

/// The `journalctl` arguments that read at most `limit` entries of a boot.
pub fn journal_query_args(boot_index: i32, limit: usize) -> (res: Vec<String>)
    ensures
        res@.len() == 7,
        forall|i: int| 0 <= i < 7 ==> (#[trigger] res@[i])@ == journal_args(boot_index as int, limit as nat)[i],
{
    let mut v: Vec<String> = Vec::new();
    v.push(String::from_str("-b"));
    v.push(signed_text(boot_index));
    v.push(String::from_str("-n"));
    v.push(unsigned_text(limit));
    v.push(String::from_str("-o"));
    v.push(String::from_str("json"));
    v.push(String::from_str("--no-pager"));
    v
}

/// One line of `journalctl --list-boots -o json`: the boot's index, and the time of
/// its first entry, or its id where the time is missing. A line lacking the index, or
/// both texts, gives nothing; the index is truncated to 32 bits.
pub fn boot_entry(index: Option<i64>, first_entry: Option<String>, boot_id: Option<String>) -> (res: Option<(i32, String)>)
    ensures
        match (index, first_entry, boot_id) {
            (Some(i), Some(f), _) => res == Some((i as i32, f)),
            (Some(i), None, Some(b)) => res == Some((i as i32, b)),
            _ => res is None,
        },
{
    match index {
        Some(i) => {
            let idx = i as i32;
            match first_entry {
                Some(f) => Some((idx, f)),
                None => match boot_id {
                    Some(b) => Some((idx, b)),
                    None => None,
                },
            }
        },
        None => None,
    }
}

} // verus!
