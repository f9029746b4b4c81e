//! Choices that shape the torrent list: which torrents a name filter keeps,
//! the sort key, and the sort order.

use vstd::prelude::*;

verus! {

/// The key the torrent list is sorted by.
#[derive(Clone, Copy, Debug, PartialEq, Eq, Structural)]
pub enum TorrentSort {
    BySize,
    ByName,
    ByProgress,
    ByStatus,
}

/// The direction of the sort.
#[derive(Clone, Copy, Debug, PartialEq, Eq, Structural)]
pub enum Order {
    Asc,
    Desc,
}

/// The sort key named by a selector value; anything unknown sorts by name.
pub open spec fn sort_named(raw: Seq<char>) -> TorrentSort {
    if raw == "name"@ {
        TorrentSort::ByName
    } else if raw == "progress"@ {
        TorrentSort::ByProgress
    } else if raw == "status"@ {
        TorrentSort::ByStatus
    } else if raw == "size"@ {
        TorrentSort::BySize
    } else {
        TorrentSort::ByName
    }
}

/// Reads the sort key chosen in the list's selector.
pub fn parse_value(raw: String) -> (r: TorrentSort)
    ensures
        r == sort_named(raw@),
{
    if raw == "name".to_owned() {
        TorrentSort::ByName
    } else if raw == "progress".to_owned() {
        TorrentSort::ByProgress
    } else if raw == "status".to_owned() {
        TorrentSort::ByStatus
    } else if raw == "size".to_owned() {
        TorrentSort::BySize
    } else {
        TorrentSort::ByName
    }
}

impl Order {
    /// The other direction.
    pub fn reversed(&self) -> (r: Order)
        ensures
            r != *self,
    {
        match self {
            Order::Asc => Order::Desc,
            Order::Desc => Order::Asc,
        }
    }
}

/// Whether `filter` occurs in `name` starting at character `i`.
pub open spec fn occurs_at(name: Seq<char>, filter: Seq<char>, i: int) -> bool {
    0 <= i && i + filter.len() <= name.len() && name.subrange(i, i + filter.len()) == filter
}

/// Whether `filter` occurs anywhere in `name`; the empty filter occurs in
/// every name.
pub open spec fn contains_text(name: Seq<char>, filter: Seq<char>) -> bool {
    exists|i: int| occurs_at(name, filter, i)
}

/// Whether `filter` occurs in `name` at character `i`, compared character by
/// character.
fn occurs_at_exec(name: &Vec<char>, filter: &Vec<char>, i: usize) -> (r: bool)
    requires
        i + filter@.len() <= name@.len(),
    ensures
        r == occurs_at(name@, filter@, i as int),
{
    let name_len = name.len();
    let mut j: usize = 0;
    while j < filter.len()
        invariant
            i + filter@.len() <= name@.len(),
            name_len == name@.len(),
            j <= filter@.len(),
            forall|t: int| 0 <= t < j ==> name@[i + t] == filter@[t],
        decreases filter@.len() - j,
    {
        if name[i + j] != filter[j] {
            assert(name@.subrange(i as int, i + filter@.len())[j as int] != filter@[j as int]);
            return false;
        }
        j = j + 1;
    }
    assert(name@.subrange(i as int, i + filter@.len()) =~= filter@);
    true
}

/// The characters of a text.
fn chars_of(s: &str) -> (r: Vec<char>)
    ensures
        r@ == s@,
{
    let n = s.unicode_len();
    let mut out: Vec<char> = Vec::new();
    let mut i: usize = 0;
    while i < n
        invariant
            n == s@.len(),
            i <= n,
            out@ == s@.take(i as int),
        decreases n - i,
    {
        out.push(s.get_char(i));
        assert(s@.take(i + 1) =~= s@.take(i as int).push(s@[i as int]));
        i = i + 1;
    }
    assert(s@.take(n as int) =~= s@);
    out
}

/// Whether a torrent named `name` passes the list's name filter: the filter
/// text must occur in the name.
pub fn name_matches(name: &str, filter: &str) -> (r: bool)
    ensures
        r == contains_text(name@, filter@),
{
    let name_chars = chars_of(name);
    let filter_chars = chars_of(filter);
    let n = name_chars.len();
    let m = filter_chars.len();
    if m > n {
        assert forall|i: int| !occurs_at(name@, filter@, i) by {}
        return false;
    }
    if m == 0 {
        assert(name@.subrange(0, 0) =~= filter@);
        assert(occurs_at(name@, filter@, 0));
        return true;
    }
    let last: usize = n - m;
    let mut i: usize = 0;
    while i <= last
        invariant
            name_chars@ == name@,
            filter_chars@ == filter@,
            n == name@.len(),
            m == filter@.len(),
            1 <= m <= n,
            last == n - m,
            i <= last + 1,
            forall|t: int| 0 <= t < i ==> !occurs_at(name@, filter@, t),
        decreases last + 1 - i,
    {
        if occurs_at_exec(&name_chars, &filter_chars, i) {
            return true;
        }
        i = i + 1;
    }
    assert forall|t: int| !occurs_at(name@, filter@, t) by {
        if 0 <= t && t + m <= n {
            assert(t < i);
        }
    }
    false
}

} // verus!
