//! Decisions taken while walking the device tree for memory: which header
//! irregularities are tolerated, and which nodes and properties are read.

use vstd::prelude::*;

verus! {

/// The bytes of `memory`, the prefix of the names of memory nodes.
pub open spec fn memory_prefix() -> Seq<u8> {
    seq![109u8, 101u8, 109u8, 111u8, 114u8, 121u8]
}

/// Whether a node name starts with `memory`.
pub open spec fn is_memory(name: Seq<u8>) -> bool {
    name.len() >= 6 && name.subrange(0, 6) == memory_prefix()
}

/// An irregularity found in a device tree's header.
#[derive(Clone, Copy, Debug, PartialEq, Eq, Structural)]
pub enum HeaderIssue {
    /// The blob's address is aligned to this many bytes only.
    Misaligned(u32),
    /// The header names this last compatible version.
    LastCompVersion(u32),
    /// Any other irregularity.
    Other,
}

/// The header irregularities under which memory discovery goes on.
pub struct HeaderTolerance {
    /// Alignments of the blob that are accepted though they fall short.
    pub misalignments: Vec<u32>,
    /// Whether any last compatible version is accepted.
    pub any_last_comp_version: bool,
}

impl HeaderTolerance {
    /// What boot firmware is known to hand over: a blob aligned to 4 bytes
    /// only, and any last compatible version.
    pub fn boot() -> (r: Self)
        ensures
            r.misalignments@ == seq![4u32],
            r.any_last_comp_version,
    {
        let mut misalignments: Vec<u32> = Vec::new();
        misalignments.push(4);
        HeaderTolerance { misalignments, any_last_comp_version: true }
    }

    /// Whether discovery goes on under `issue`.
    pub fn tolerates(&self, issue: HeaderIssue) -> (r: bool)
        ensures
            r == match issue {
                HeaderIssue::Misaligned(n) => self.misalignments@.contains(n),
                HeaderIssue::LastCompVersion(_) => self.any_last_comp_version,
                HeaderIssue::Other => false,
            },
    {
        match issue {
            HeaderIssue::Misaligned(n) => {
                let mut i: usize = 0;
                while i < self.misalignments.len()
                    invariant
                        issue == HeaderIssue::Misaligned(n),
                        i <= self.misalignments@.len(),
                        forall|j: int| 0 <= j < i ==> self.misalignments@[j] != n,
                    decreases self.misalignments@.len() - i,
                {
                    if self.misalignments[i] == n {
                        assert(self.misalignments@[i as int] == n);
                        return true;
                    }
                    i += 1;
                }
                false
            },
            HeaderIssue::LastCompVersion(_) => self.any_last_comp_version,
            HeaderIssue::Other => false,
        }
    }
}

/// What the walk does after a node or property.
#[derive(Clone, Copy, Debug, PartialEq, Eq, Structural)]
pub enum WalkStep {
    /// Enter the node.
    Into,
    /// Go past the node or property.
    Over,
    /// Leave the node that holds the property.
    Out,
}

/// Whether `name` starts with `memory`.
pub fn is_memory_name(name: &[u8]) -> (r: bool)
    ensures
        r == is_memory(name@),
{
    if name.len() < 6 {
        return false;
    }
    let prefix: [u8; 6] = [109u8, 101u8, 109u8, 111u8, 114u8, 121u8];
    let mut i: usize = 0;
    while i < 6
        invariant
            name@.len() >= 6,
            prefix@ == memory_prefix(),
            i <= 6,
            forall|j: int| 0 <= j < i ==> name@[j] == memory_prefix()[j],
        decreases 6 - i,
    {
        if name[i] != prefix[i] {
            assert(name@.subrange(0, 6)[i as int] != memory_prefix()[i as int]);
            return false;
        }
        i += 1;
    }
    assert(name@.subrange(0, 6) =~= memory_prefix());
    true
}

/// The step at a child node named `name`: only the memory nodes right under
/// the root are entered.
pub fn subnode_step(at_root: bool, name: &[u8]) -> (r: WalkStep)
    ensures
        r == if at_root && is_memory(name@) {
            WalkStep::Into
        } else {
            WalkStep::Over
        },
{
    if at_root && is_memory_name(name) {
        WalkStep::Into
    } else {
        WalkStep::Over
    }
}

/// The step after a property of the node named `node`: a `reg` property of
/// a memory node is read, and the node is left after it; any other property
/// is passed over.
pub fn property_step(is_reg: bool, node: &[u8]) -> (r: WalkStep)
    ensures
        r == if is_reg && is_memory(node@) {
            WalkStep::Out
        } else {
            WalkStep::Over
        },
{
    if is_reg && is_memory_name(node) {
        WalkStep::Out
    } else {
        WalkStep::Over
    }
}

} // verus!
