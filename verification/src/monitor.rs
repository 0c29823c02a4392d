//! Which host metrics are reported, and how disk usage is counted.

use vstd::prelude::*;

use crate::model::{DiskMetric, NetMetric};
use crate::text::{
    contains, contains_str, lower, lower_chars, starts_with, starts_with_str, to_chars,
};

verus! {

/// A mounted disk is reported when it has any space; its use is what is not
/// available (never below zero).
pub fn disk_metric(mount: String, total_bytes: u64, available_bytes: u64) -> (r: Option<DiskMetric>)
    ensures
        total_bytes == 0 ==> r is None,
        total_bytes > 0 ==> (r matches Some(d) && d.mount@ == mount@ && d.total_bytes == total_bytes
            && d.used_bytes == (if available_bytes >= total_bytes {
            0
        } else {
            total_bytes - available_bytes
        })),
{
    if total_bytes == 0 {
        return None;
    }
    Some(DiskMetric { mount, total_bytes, used_bytes: total_bytes.saturating_sub(available_bytes) })
}

/// A network interface is reported unless its name (in any case) starts with
/// `lo` or mentions `loopback`.
pub open spec fn reported_interface(name: Seq<char>) -> bool {
    !starts_with(lower(name), "lo"@) && !contains(lower(name), "loopback"@)
}

/// The traffic counters of a network interface, when it is reported.
pub fn net_metric(name: String, rx_bytes: u64, tx_bytes: u64) -> (r: Option<NetMetric>)
    ensures
        reported_interface(name@) ==> (r matches Some(n) && n.name@ == name@ && n.rx_bytes == rx_bytes
            && n.tx_bytes == tx_bytes),
        !reported_interface(name@) ==> r is None,
{
    let l = lower_chars(to_chars(name.as_str()).as_slice());
    if starts_with_str(l.as_slice(), "lo") || contains_str(l.as_slice(), "loopback") {
        return None;
    }
    Some(NetMetric { name, rx_bytes, tx_bytes })
}

} // verus!
