use vstd::prelude::*;
use crate::aabb::Vec2;
use crate::game::{Colour, ToRender};

verus! {

/// Capacity, in instances, of the device instance buffer and of the upload
/// buffer that feeds it.
pub const MAX_INSTANCES: usize = 1024;

/// The per-instance attributes of one drawn quad.
#[derive(Debug, Clone, Copy, PartialEq, Eq, Structural)]
pub struct QuadInstance {
    pub position: Vec2,
    pub size: Vec2,
    pub colour: Colour,
}

/// An instance at the origin, of zero size, black.
pub open spec fn zero_instance() -> QuadInstance {
    QuadInstance {
        position: Vec2 { x: 0, y: 0 },
        size: Vec2 { x: 0, y: 0 },
        colour: Colour { r: 0, g: 0, b: 0 },
    }
}

impl QuadInstance {
    pub fn zeroed() -> (r: QuadInstance)
        ensures
            r == zero_instance(),
    {
        QuadInstance {
            position: Vec2::new(0, 0),
            size: Vec2::new(0, 0),
            colour: Colour::new(0, 0, 0),
        }
    }
}

/// The instance that draws a snapshot entry.
pub open spec fn instance_of(t: ToRender) -> QuadInstance {
    QuadInstance { position: t.aabb.top_left_coord, size: t.aabb.size, colour: t.colour }
}

pub fn instance_from(t: &ToRender) -> (r: QuadInstance)
    ensures
        r == instance_of(*t),
{
    QuadInstance { position: t.aabb.top_left_coord, size: t.aabb.size, colour: t.colour }
}

pub open spec fn min_nat(a: nat, b: nat) -> nat {
    if a <= b {
        a
    } else {
        b
    }
}

/// An upload buffer of `MAX_INSTANCES` zeroed instances.
pub fn new_upload_buffer() -> (r: Vec<QuadInstance>)
    ensures
        r@.len() == MAX_INSTANCES,
        forall|i: int| 0 <= i < r@.len() ==> r@[i] == zero_instance(),
{
    let mut r: Vec<QuadInstance> = Vec::new();
    while r.len() < MAX_INSTANCES
        invariant
            r@.len() <= MAX_INSTANCES,
            forall|i: int| 0 <= i < r@.len() ==> r@[i] == zero_instance(),
        decreases MAX_INSTANCES - r@.len(),
    {
        r.push(QuadInstance::zeroed());
    }
    r
}

/// Writes the snapshot's entries, in order, into the upload buffer's
/// successive slots, stopping when either runs out, and returns how many
/// were written: that many instances are then copied and drawn. Entries
/// beyond the buffer's capacity are dropped; slots beyond the written ones
/// keep what they held.
pub fn write_instances(upload: &mut Vec<QuadInstance>, snapshot: &Vec<ToRender>) -> (count: usize)
    ensures
        count == min_nat(snapshot@.len(), old(upload)@.len()),
        final(upload)@.len() == old(upload)@.len(),
        forall|i: int| 0 <= i < count ==> final(upload)@[i] == instance_of(#[trigger] snapshot@[i]),
        forall|i: int| count <= i < old(upload)@.len() ==> final(upload)@[i] == old(upload)@[i],
{
    let mut count: usize = 0;
    while count < snapshot.len() && count < upload.len()
        invariant
            count <= snapshot@.len(),
            count <= upload@.len(),
            upload@.len() == old(upload)@.len(),
            forall|i: int| 0 <= i < count ==> upload@[i] == instance_of(#[trigger] snapshot@[i]),
            forall|i: int| count <= i < upload@.len() ==> upload@[i] == old(upload)@[i],
        decreases snapshot@.len() - count,
    {
        let instance = instance_from(&snapshot[count]);
        upload.set(count, instance);
        count = count + 1;
    }
    count
}

} // verus!
