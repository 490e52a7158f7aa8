use vstd::prelude::*;

use crate::errors::Error;
use crate::member::{member_views, member_wf, Member, MemberView};
use crate::value_objects::CircleId;

verus! {

/// A club aggregate: a name, a capacity, one owner, and the other members.
///
/// The owner is never part of `members`; storage keeps the owner among the
/// member rows, and the mapping layer performs that split and merge.
#[derive(Debug)]
pub struct Circle {
    pub id: CircleId,
    pub name: String,
    pub capacity: i16,
    pub owner: Member,
    pub members: Vec<Member>,
}

/// Mathematical model of a circle aggregate.
#[verifier::ext_equal]
pub ghost struct CircleView {
    pub id: int,
    pub name: Seq<char>,
    pub capacity: int,
    pub owner: MemberView,
    pub members: Seq<MemberView>,
}

impl View for Circle {
    type V = CircleView;

    open spec fn view(&self) -> CircleView {
        CircleView {
            id: self.id@,
            name: self.name@,
            capacity: self.capacity as int,
            owner: self.owner@,
            members: member_views(self.members@),
        }
    }
}

/// The aggregate invariant: a well-formed owner and members, and room for
/// everyone — the capacity covers the owner plus each other member.
pub open spec fn circle_wf(c: CircleView) -> bool {
    &&& member_wf(c.owner)
    &&& forall|i: int| 0 <= i < c.members.len() ==> member_wf(#[trigger] c.members[i])
    &&& c.capacity >= 1 + c.members.len()
}

/// The owner's id does not recur among the other members' ids.
pub open spec fn owner_not_among_members(c: CircleView) -> bool {
    forall|i: int| 0 <= i < c.members.len() ==> (#[trigger] c.members[i]).id != c.owner.id
}

impl Circle {
    /// Builds a new, not yet persisted circle with the owner as its only
    /// person. Succeeds exactly when the capacity is at least one.
    pub fn create(name: String, capacity: i16, owner: Member) -> (r: Result<Circle, Error>)
        ensures
            capacity >= 1 <==> r is Ok,
            r matches Ok(c) ==> c@ == (CircleView {
                id: 0,
                name: name@,
                capacity: capacity as int,
                owner: owner@,
                members: Seq::<MemberView>::empty(),
            }),
            r is Err ==> r == Err::<Circle, Error>(Error::Validation),
    {
        if capacity >= 1 {
            let c = Circle {
                id: CircleId::unassigned(),
                name,
                capacity,
                owner,
                members: Vec::new(),
            };
            proof {
                assert(c@.members =~= Seq::<MemberView>::empty());
            }
            Ok(c)
        } else {
            Err(Error::Validation)
        }
    }

    /// Adds one more member. Fails when the circle is full: the owner, the
    /// present members and the newcomer must all fit within the capacity.
    pub fn add_member(&mut self, member: Member) -> (r: Result<(), Error>)
        ensures
            (old(self)@.members.len() + 2 <= old(self)@.capacity) <==> r is Ok,
            r is Ok ==> final(self)@ == (CircleView {
                members: old(self)@.members.push(member@),
                ..old(self)@
            }),
            r is Err ==> *final(self) == *old(self) && r == Err::<(), Error>(Error::Validation),
    {
        if self.capacity >= 2 && self.members.len() <= (self.capacity as usize) - 2 {
            self.members.push(member);
            proof {
                assert(self@.members =~= old(self)@.members.push(member@));
                assert(self@ =~= (CircleView {
                    members: old(self)@.members.push(member@),
                    ..old(self)@
                }));
            }
            Ok(())
        } else {
            Err(Error::Validation)
        }
    }

    /// Partial update: each field changes only when a new value is supplied.
    /// Fails when the resulting capacity could not hold the owner and the
    /// present members; nothing changes on failure.
    pub fn update(&mut self, name: Option<String>, capacity: Option<i16>) -> (r: Result<(), Error>)
        ensures
            ({
                let new_cap = match capacity {
                    Some(c) => c as int,
                    None => old(self)@.capacity,
                };
                let new_name = match name {
                    Some(n) => n@,
                    None => old(self)@.name,
                };
                &&& ((old(self)@.members.len() + 1 <= new_cap) <==> r is Ok)
                &&& (r is Ok ==> final(self)@ == (CircleView {
                    name: new_name,
                    capacity: new_cap,
                    ..old(self)@
                }))
                &&& (r is Err ==> *final(self) == *old(self) && r == Err::<(), Error>(
                    Error::Validation,
                ))
            }),
    {
        let new_cap: i16 = match capacity {
            Some(c) => c,
            None => self.capacity,
        };
        if new_cap >= 1 && self.members.len() <= (new_cap as usize) - 1 {
            if let Some(n) = name {
                self.name = n;
            }
            self.capacity = new_cap;
            Ok(())
        } else {
            Err(Error::Validation)
        }
    }

    /// Rebuilds a circle from storage. Storage is trusted, so nothing is
    /// re-validated, but the mapping layer must already have split the owner
    /// out of the member list.
    pub fn reconstruct(
        id: CircleId,
        name: String,
        owner: Member,
        capacity: i16,
        members: Vec<Member>,
    ) -> (c: Circle)
        requires
            forall|i: int| 0 <= i < members@.len() ==> (#[trigger] members@[i])@.id != owner@.id,
        ensures
            c@ == (CircleView {
                id: id@,
                name: name@,
                capacity: capacity as int,
                owner: owner@,
                members: member_views(members@),
            }),
            owner_not_among_members(c@),
    {
        let c = Circle { id, name, capacity, owner, members };
        proof {
            assert forall|i: int| 0 <= i < c@.members.len() implies (#[trigger] c@.members[i]).id
                != c@.owner.id by {
                assert(c@.members[i] == c.members@[i]@);
            }
        }
        c
    }
}

} // verus!
