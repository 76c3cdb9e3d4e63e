use vstd::prelude::*;

verus! {

/// Bytes in the fixed part of an inotify event record: the watch descriptor, the mask, the
/// cookie and the length of the name that follows, each four bytes.
pub const EVENT_HEADER_LEN: usize = 16;

/// The unsigned 32-bit word in the four bytes of `b` at `i`, in little-endian order when
/// `little`, else big-endian.
pub open spec fn word_at(b: Seq<u8>, i: int, little: bool) -> int {
    if little {
        b[i] + 256 * b[i + 1] + 65536 * b[i + 2] + 16777216 * b[i + 3]
    } else {
        b[i + 3] + 256 * b[i + 2] + 65536 * b[i + 1] + 16777216 * b[i]
    }
}

/// Where the NUL-terminated name starting at `start` ends: at the first NUL byte before `end`,
/// or at `end` (or the end of `b`, where that comes first).
pub open spec fn name_end(b: Seq<u8>, start: int, end: int) -> int
    decreases end - start,
{
    if start >= end || start >= b.len() || b[start] == 0 {
        start
    } else {
        name_end(b, start + 1, end)
    }
}

/// Whether the event record at `off` concerns the watched file: a record carrying a name
/// names `file`; a record without one comes from the watch `watch_file`.
pub open spec fn record_concerns(b: Seq<u8>, off: int, file: Seq<u8>, watch_file: Option<i32>, little: bool) -> bool {
    let len = word_at(b, off + 12, little);
    if len > 0 {
        let start = off + 16;
        b.subrange(start, name_end(b, start, start + len)) == file
    } else {
        watch_file == Some(word_at(b, off, little) as i32)
    }
}

/// Whether a record of the event records in `b`, from `off` on, concerns the watched file.
/// Records follow each other, each a header and its name; a record whose header does not
/// fit in `b` ends the walk.
pub open spec fn records_concern(b: Seq<u8>, off: int, file: Seq<u8>, watch_file: Option<i32>, little: bool) -> bool
    decreases b.len() - off,
{
    if off < 0 || off + 16 > b.len() {
        false
    } else if record_concerns(b, off, file, watch_file, little) {
        true
    } else {
        let next = off + 16 + word_at(b, off + 12, little);
        if next <= b.len() {
            records_concern(b, next, file, watch_file, little)
        } else {
            false
        }
    }
}

fn word(b: &[u8], i: usize, little: bool) -> (r: u32)
    requires
        i + 4 <= b@.len(),
    ensures
        r == word_at(b@, i as int, little),
{
    let n = b.len();
    assert(i + 3 < n);
    let low: u32 = if little { b[i] as u32 } else { b[i + 3] as u32 };
    let second: u32 = if little { b[i + 1] as u32 } else { b[i + 2] as u32 };
    let third: u32 = if little { b[i + 2] as u32 } else { b[i + 1] as u32 };
    let high: u32 = if little { b[i + 3] as u32 } else { b[i] as u32 };
    assert(low < 256 && second < 256 && third < 256 && high < 256);
    low + 256 * second + 65536 * third + 16777216 * high
}

/// Whether the name in `b` from `start` (up to a NUL byte, `end` or the end of `b`) is `file`.
fn name_is(b: &[u8], start: usize, end: usize, file: &[u8]) -> (r: bool)
    requires
        start <= b@.len(),
    ensures
        r == (b@.subrange(start as int, name_end(b@, start as int, end as int)) == file@),
{
    let mut k: usize = start;
    while k < end && k < b.len() && b[k] != 0
        invariant
            start <= k <= b@.len(),
            name_end(b@, start as int, end as int) == name_end(b@, k as int, end as int),
        decreases b@.len() - k,
    {
        k = k + 1;
    }
    let ghost stop = name_end(b@, start as int, end as int);
    assert(stop == k);
    if k - start != file.len() {
        assert(b@.subrange(start as int, stop).len() != file@.len());
        return false;
    }
    let mut j: usize = 0;
    while j < file.len()
        invariant
            k - start == file@.len(),
            k == name_end(b@, start as int, end as int),
            start <= k <= b@.len(),
            j <= file@.len(),
            forall|t: int| 0 <= t < j ==> b@[start + t] == file@[t],
        decreases file@.len() - j,
    {
        if b[start + j] != file[j] {
            assert(b@.subrange(start as int, k as int)[j as int] == b@[start + j]);
            assert(b@.subrange(start as int, k as int)[j as int] != file@[j as int]);
            assert(b@.subrange(start as int, k as int) != file@);
            return false;
        }
        j = j + 1;
    }
    assert(b@.subrange(start as int, k as int) =~= file@);
    true
}

/// Whether any of the inotify event records in `b` (as read from the descriptor) concerns
/// the configuration file: an event naming `file` in the watched directory, or an event
/// without a name from the file's own watch `watch_file`. `little` says the machine's byte
/// order.
pub fn events_concern_file(b: &[u8], file: &[u8], watch_file: Option<i32>, little: bool) -> (r: bool)
    ensures
        r == records_concern(b@, 0, file@, watch_file, little),
{
    let mut off: usize = 0;
    while b.len() - off >= EVENT_HEADER_LEN
        invariant
            off <= b@.len(),
            records_concern(b@, 0, file@, watch_file, little) == records_concern(b@, off as int, file@, watch_file, little),
        decreases b@.len() - off,
    {
        let len = word(b, off + 12, little);
        let start = off + EVENT_HEADER_LEN;
        let concerns = if len > 0 {
            let end: usize = if (len as u64) > ((b.len() - start) as u64) {
                b.len()
            } else {
                start + len as usize
            };
            proof {
                assert(name_end(b@, start as int, end as int) == name_end(b@, start as int, start + len)) by {
                    lemma_name_end_clamp(b@, start as int, end as int, start + len);
                }
            }
            name_is(b, start, end, file)
        } else {
            match watch_file {
                Some(wd) => wd == word(b, off, little) as i32,
                None => false,
            }
        };
        if concerns {
            return true;
        }
        if (len as u64) > ((b.len() - start) as u64) {
            return false;
        }
        off = start + len as usize;
    }
    false
}

/// Clamping the end of a name to the end of `b` leaves where the name ends unchanged.
proof fn lemma_name_end_clamp(b: Seq<u8>, start: int, e1: int, e2: int)
    requires
        0 <= start <= b.len(),
        e1 == e2 || (e1 == b.len() && e2 > b.len()),
    ensures
        name_end(b, start, e1) == name_end(b, start, e2),
    decreases b.len() - start,
{
    if start < b.len() && start < e1 && b[start] != 0 {
        lemma_name_end_clamp(b, start + 1, e1, e2);
    }
}

} // verus!
