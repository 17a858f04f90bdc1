//! Node registry types. Nodes are dedicated servers that join one control plane.

use crate::capacity::{capacity_of, node_capacity, CapacityRule, NodeCapacity};
use vstd::prelude::*;

verus! {

/// A moment in UTC: nanoseconds since the Unix epoch.
pub type Nanos = i64;

#[derive(Debug)]
pub struct Node {
    pub id: String,
    pub hostname: String,
    /// "all-in-one" or "worker".
    pub role: String,
    pub total_memory_kb: u64,
    /// Internal address for cross-node placement (host:port).
    pub advertise_addr: String,
    /// Cleared while draining; the scheduler skips unschedulable nodes.
    pub schedulable: bool,
    pub draining: bool,
    /// Preflight result: without KVM a node can register but not host VMs.
    pub kvm_ok: bool,
    pub registered_at: Nanos,
    pub last_heartbeat_at: Nanos,
}

impl Clone for Node {
    fn clone(&self) -> (r: Self)
        ensures
            r == *self,
    {
        Node {
            id: self.id.clone(),
            hostname: self.hostname.clone(),
            role: self.role.clone(),
            total_memory_kb: self.total_memory_kb,
            advertise_addr: self.advertise_addr.clone(),
            schedulable: self.schedulable,
            draining: self.draining,
            kvm_ok: self.kvm_ok,
            registered_at: self.registered_at,
            last_heartbeat_at: self.last_heartbeat_at,
        }
    }
}

impl Node {
    /// Takes new placements.
    pub open spec fn available(self) -> bool {
        self.schedulable && !self.draining && self.kvm_ok
    }

    /// What the node's memory comes to by a rule.
    pub fn capacity(&self, rule: &CapacityRule) -> (r: NodeCapacity)
        ensures
            r == capacity_of(self.total_memory_kb, *rule),
    {
        node_capacity(self.total_memory_kb, rule)
    }

    /// True if the node should receive new placements right now.
    pub fn is_available(&self) -> (r: bool)
        ensures
            r == self.available(),
    {
        self.schedulable && !self.draining && self.kvm_ok
    }

    /// Take the node out of rotation: nothing is placed on it any more, and what
    /// runs there may finish.
    pub fn drain(&mut self, now: Nanos)
        ensures
            *final(self) == (Node {
                schedulable: false,
                draining: true,
                last_heartbeat_at: now,
                ..*old(self)
            }),
            !final(self).available(),
    {
        self.schedulable = false;
        self.draining = true;
        self.last_heartbeat_at = now;
    }
}

} // verus!
