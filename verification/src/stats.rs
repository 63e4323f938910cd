//! The records that the packet path and the control plane share, and the
//! counting of packets by source address.
use vstd::prelude::*;

verus! {

/// What the control plane tells the packet path.
#[derive(Clone, Copy, Debug, PartialEq, Eq, Structural)]
pub struct RuntimeControls {
    pub global_enabled: bool,
    pub close_to_leader: bool,
}

/// Packet counts of one source address.
#[derive(Clone, Copy, Debug, PartialEq, Eq, Structural)]
pub struct ConnectionStats {
    pub pkt_count: u64,
    pub blocked_pkt_count: u64,
    pub far_from_leader_pkt_count: u64,
    pub zero_rtt_pkt_count: u64,
}

/// Which of the counts a packet adds to.
#[derive(Clone, Copy, Debug, PartialEq, Eq, Structural)]
pub enum StatType {
    All,
    Blocked,
    FarFromLeader,
    ZeroRtt,
}

impl Default for RuntimeControls {
    /// Everything off.
    fn default() -> (r: Self)
        ensures
            r == (RuntimeControls { global_enabled: false, close_to_leader: false }),
    {
        RuntimeControls { global_enabled: false, close_to_leader: false }
    }
}

impl Default for ConnectionStats {
    /// Every count zero.
    fn default() -> (r: Self)
        ensures
            r == ConnectionStats::zero(),
    {
        ConnectionStats {
            pkt_count: 0,
            blocked_pkt_count: 0,
            far_from_leader_pkt_count: 0,
            zero_rtt_pkt_count: 0,
        }
    }
}

impl ConnectionStats {
    /// The record in which every count is zero.
    pub open spec fn zero() -> ConnectionStats {
        ConnectionStats {
            pkt_count: 0,
            blocked_pkt_count: 0,
            far_from_leader_pkt_count: 0,
            zero_rtt_pkt_count: 0,
        }
    }

    /// The count of the given type.
    pub open spec fn count(self, stat_type: StatType) -> u64 {
        match stat_type {
            StatType::All => self.pkt_count,
            StatType::Blocked => self.blocked_pkt_count,
            StatType::FarFromLeader => self.far_from_leader_pkt_count,
            StatType::ZeroRtt => self.zero_rtt_pkt_count,
        }
    }

    /// The record with one more packet in the count of the given type.
    pub open spec fn incremented(self, stat_type: StatType) -> ConnectionStats {
        match stat_type {
            StatType::All => ConnectionStats { pkt_count: (self.pkt_count + 1) as u64, ..self },
            StatType::Blocked => ConnectionStats {
                blocked_pkt_count: (self.blocked_pkt_count + 1) as u64,
                ..self
            },
            StatType::FarFromLeader => ConnectionStats {
                far_from_leader_pkt_count: (self.far_from_leader_pkt_count + 1) as u64,
                ..self
            },
            StatType::ZeroRtt => ConnectionStats {
                zero_rtt_pkt_count: (self.zero_rtt_pkt_count + 1) as u64,
                ..self
            },
        }
    }

    /// The count of the given type.
    pub fn count_of(&self, stat_type: StatType) -> (r: u64)
        ensures
            r == self.count(stat_type),
    {
        match stat_type {
            StatType::All => self.pkt_count,
            StatType::Blocked => self.blocked_pkt_count,
            StatType::FarFromLeader => self.far_from_leader_pkt_count,
            StatType::ZeroRtt => self.zero_rtt_pkt_count,
        }
    }
}

/// What to insert for an address before a packet of it is counted: a fresh
/// record where the table has no entry for it.
pub open spec fn fresh_entry(found: bool) -> Option<ConnectionStats> {
    if found {
        None
    } else {
        Some(ConnectionStats::zero())
    }
}

/// The record to store in place of an entry for one more packet; none where
/// there is no entry.
pub open spec fn counted_entry(entry: Option<ConnectionStats>, stat_type: StatType) -> Option<
    ConnectionStats,
> {
    match entry {
        Some(stats) => Some(stats.incremented(stat_type)),
        None => None,
    }
}

/// What to insert for an address before a packet of it is counted, given
/// whether the table has an entry for it: a fresh record where it has none.
pub fn missing_entry(found: bool) -> (r: Option<ConnectionStats>)
    ensures
        r == fresh_entry(found),
{
    if found {
        None
    } else {
        Some(ConnectionStats::default())
    }
}

/// Counts one packet, given the entry that the table holds for its address
/// after the insertion: the record to store in its place. Where the insertion
/// failed there is no entry, and nothing is counted.
pub fn increment_counter(entry: Option<ConnectionStats>, stat_type: StatType) -> (r: Option<
    ConnectionStats,
>)
    requires
        entry matches Some(stats) ==> stats.count(stat_type) < u64::MAX,
    ensures
        r == counted_entry(entry, stat_type),
{
    match entry {
        Some(stats) => {
            let mut stats = stats;
            match stat_type {
                StatType::All => {
                    stats.pkt_count += 1;
                },
                StatType::Blocked => {
                    stats.blocked_pkt_count += 1;
                },
                StatType::FarFromLeader => {
                    stats.far_from_leader_pkt_count += 1;
                },
                StatType::ZeroRtt => {
                    stats.zero_rtt_pkt_count += 1;
                },
            }
            Some(stats)
        },
        None => None,
    }
}

/// The table after one packet of an address was counted. An address without
/// an entry first gets a fresh one, if the table has room.
pub open spec fn counted(
    table: Map<u32, ConnectionStats>,
    room: bool,
    address: u32,
    stat_type: StatType,
) -> Map<u32, ConnectionStats> {
    let present = if !table.dom().contains(address) && room {
        table.insert(address, ConnectionStats::zero())
    } else {
        table
    };
    if present.dom().contains(address) {
        present.insert(address, present[address].incremented(stat_type))
    } else {
        present
    }
}

/// Counting a packet is to insert what [`missing_entry`] says, which succeeds
/// if the table has room, then to look the entry up and to store what
/// [`increment_counter`] says in its place.
pub proof fn law_counting_takes_two_steps(
    table: Map<u32, ConnectionStats>,
    room: bool,
    address: u32,
    stat_type: StatType,
)
    ensures
        ({
            let inserted = match fresh_entry(table.dom().contains(address)) {
                Some(fresh) => if room {
                    table.insert(address, fresh)
                } else {
                    table
                },
                None => table,
            };
            let entry = if inserted.dom().contains(address) {
                Some(inserted[address])
            } else {
                None
            };
            counted(table, room, address, stat_type) == match counted_entry(entry, stat_type) {
                Some(stats) => inserted.insert(address, stats),
                None => inserted,
            }
        }),
{
}

} // verus!
