//! The daemon's torrent status enumeration and its integer wire encoding.

use vstd::prelude::*;

verus! {

/// State of a torrent as reported by the daemon.
///
/// The daemon encodes these as the integers 0 to 6 in declaration order; the
/// mapping is spelled out in [`status_wire_value`] rather than left to the
/// declaration order.
#[derive(Clone, Copy, Debug, PartialEq, Eq, Structural)]
pub enum TorrentStatus {
    Stopped,
    QueuedVerify,
    Verifying,
    QueuedDownload,
    Downloading,
    QueuedSeed,
    Seeding,
}

/// The integer the daemon uses for each status.
pub open spec fn status_wire_value(s: TorrentStatus) -> u8 {
    match s {
        TorrentStatus::Stopped => 0,
        TorrentStatus::QueuedVerify => 1,
        TorrentStatus::Verifying => 2,
        TorrentStatus::QueuedDownload => 3,
        TorrentStatus::Downloading => 4,
        TorrentStatus::QueuedSeed => 5,
        TorrentStatus::Seeding => 6,
    }
}

/// The status that a wire integer stands for, if any.
pub open spec fn status_from_wire_value(v: u8) -> Option<TorrentStatus> {
    if v == 0 {
        Some(TorrentStatus::Stopped)
    } else if v == 1 {
        Some(TorrentStatus::QueuedVerify)
    } else if v == 2 {
        Some(TorrentStatus::Verifying)
    } else if v == 3 {
        Some(TorrentStatus::QueuedDownload)
    } else if v == 4 {
        Some(TorrentStatus::Downloading)
    } else if v == 5 {
        Some(TorrentStatus::QueuedSeed)
    } else if v == 6 {
        Some(TorrentStatus::Seeding)
    } else {
        None
    }
}

/// The label shown to users for each status; the three queued states share one.
pub open spec fn status_label(s: TorrentStatus) -> Seq<char> {
    match s {
        TorrentStatus::Stopped => "Stopped"@,
        TorrentStatus::QueuedVerify => "Queued"@,
        TorrentStatus::QueuedDownload => "Queued"@,
        TorrentStatus::QueuedSeed => "Queued"@,
        TorrentStatus::Verifying => "Verifying"@,
        TorrentStatus::Downloading => "Downloading"@,
        TorrentStatus::Seeding => "Seeding"@,
    }
}

impl TorrentStatus {
    /// Encodes the status as the daemon's integer.
    pub fn to_wire(&self) -> (r: u8)
        ensures
            r == status_wire_value(*self),
            r <= 6,
    {
        match self {
            TorrentStatus::Stopped => 0,
            TorrentStatus::QueuedVerify => 1,
            TorrentStatus::Verifying => 2,
            TorrentStatus::QueuedDownload => 3,
            TorrentStatus::Downloading => 4,
            TorrentStatus::QueuedSeed => 5,
            TorrentStatus::Seeding => 6,
        }
    }

    /// Decodes a daemon integer; values above 6 name no status.
    pub fn from_wire(v: u8) -> (r: Option<TorrentStatus>)
        ensures
            r == status_from_wire_value(v),
            r is None <==> v > 6,
    {
        match v {
            0 => Some(TorrentStatus::Stopped),
            1 => Some(TorrentStatus::QueuedVerify),
            2 => Some(TorrentStatus::Verifying),
            3 => Some(TorrentStatus::QueuedDownload),
            4 => Some(TorrentStatus::Downloading),
            5 => Some(TorrentStatus::QueuedSeed),
            6 => Some(TorrentStatus::Seeding),
            _ => None,
        }
    }
}

/// Every status encodes to its wire integer and decodes back to itself, and
/// every wire integer that decodes at all encodes back to the same integer.
pub proof fn lemma_status_wire_round_trip(s: TorrentStatus, v: u8)
    ensures
        status_from_wire_value(status_wire_value(s)) == Some(s),
        status_from_wire_value(v) matches Some(t) ==> status_wire_value(t) == v,
{
}

/// The user-facing label of a status.
pub fn torrent_status_text(status: &TorrentStatus) -> (r: &'static str)
    ensures
        r@ == status_label(*status),
{
    match status {
        TorrentStatus::Stopped => "Stopped",
        TorrentStatus::QueuedVerify => "Queued",
        TorrentStatus::QueuedDownload => "Queued",
        TorrentStatus::QueuedSeed => "Queued",
        TorrentStatus::Verifying => "Verifying",
        TorrentStatus::Downloading => "Downloading",
        TorrentStatus::Seeding => "Seeding",
    }
}

} // verus!
