use vstd::prelude::*;

use crate::circle::{circle_wf, owner_not_among_members, Circle, CircleView};
use crate::errors::Error;
use crate::member::{member_views, Member, MemberView};
use crate::seq_facts::{lemma_filter_all, lemma_filter_none, lemma_filter_singleton};
use crate::value_objects::{
    grade_in_range, lemma_major_name_round_trip, spec_major_name, spec_parse_major, CircleId,
    Grade, Major, MemberId,
};

verus! {

broadcast use vstd::seq_lib::group_seq_lib_default, Seq::lemma_filter_push;

/// One member row, as the members table stores it for some circle.
#[derive(Debug)]
pub struct MemberData {
    pub id: i16,
    pub name: String,
    pub age: i16,
    pub grade: i16,
    pub major: String,
}

/// Mathematical model of a member row.
#[verifier::ext_equal]
pub ghost struct MemberDataView {
    pub id: int,
    pub name: Seq<char>,
    pub age: int,
    pub grade: int,
    pub major: Seq<char>,
}

impl View for MemberData {
    type V = MemberDataView;

    open spec fn view(&self) -> MemberDataView {
        MemberDataView {
            id: self.id as int,
            name: self.name@,
            age: self.age as int,
            grade: self.grade as int,
            major: self.major@,
        }
    }
}

/// The rows a sequence of `MemberData` values models.
pub open spec fn member_data_views(s: Seq<MemberData>) -> Seq<MemberDataView> {
    s.map_values(|m: MemberData| m@)
}

/// The relational form of one circle: its circle row (id, name, owner
/// pointer, capacity) and the full set of member rows stored for it — the
/// owner's row among them, distinguished only by the `owner_id` pointer.
#[derive(Debug)]
pub struct CircleData {
    pub id: i16,
    pub name: String,
    pub owner_id: i16,
    pub capacity: i16,
    pub members: Vec<MemberData>,
}

/// Mathematical model of a circle's relational form.
#[verifier::ext_equal]
pub ghost struct CircleDataView {
    pub id: int,
    pub name: Seq<char>,
    pub owner_id: int,
    pub capacity: int,
    pub members: Seq<MemberDataView>,
}

impl View for CircleData {
    type V = CircleDataView;

    open spec fn view(&self) -> CircleDataView {
        CircleDataView {
            id: self.id as int,
            name: self.name@,
            owner_id: self.owner_id as int,
            capacity: self.capacity as int,
            members: member_data_views(self.members@),
        }
    }
}

/// Whether a stored member row can be rehydrated: its grade lies in the
/// academic-year range and its major is one of the recognized names.
pub open spec fn data_valid(m: MemberDataView) -> bool {
    &&& grade_in_range(m.grade)
    &&& spec_parse_major(m.major) is Some
}

/// The member a valid row denotes.
pub open spec fn member_of_data(m: MemberDataView) -> MemberView {
    MemberView {
        id: m.id,
        name: m.name,
        age: m.age,
        grade: m.grade,
        major: match spec_parse_major(m.major) {
            Some(mj) => mj,
            None => vstd::pervasive::arbitrary(),
        },
    }
}

/// The row a member is stored as.
pub open spec fn data_of_member(m: MemberView) -> MemberDataView {
    MemberDataView {
        id: m.id,
        name: m.name,
        age: m.age,
        grade: m.grade,
        major: spec_major_name(m.major),
    }
}

/// The members a sequence of rows denotes.
pub open spec fn members_of_datas(s: Seq<MemberDataView>) -> Seq<MemberView> {
    s.map_values(|m: MemberDataView| member_of_data(m))
}

/// The rows a sequence of members is stored as.
pub open spec fn datas_of_members(s: Seq<MemberView>) -> Seq<MemberDataView> {
    s.map_values(|m: MemberView| data_of_member(m))
}

/// Holds of a rehydrated member the owner pointer singles out.
pub open spec fn is_owner_pred(owner_id: int) -> spec_fn(MemberView) -> bool {
    |m: MemberView| m.id == owner_id
}

/// Holds of a rehydrated member the owner pointer passes over.
pub open spec fn not_owner_pred(owner_id: int) -> spec_fn(MemberView) -> bool {
    |m: MemberView| m.id != owner_id
}

/// Among rehydrated members, those whose id equals the owner pointer.
pub open spec fn owner_candidates(ms: Seq<MemberView>, owner_id: int) -> Seq<MemberView> {
    ms.filter(is_owner_pred(owner_id))
}

/// Among rehydrated members, those whose id differs from the owner pointer.
pub open spec fn non_owners(ms: Seq<MemberView>, owner_id: int) -> Seq<MemberView> {
    ms.filter(not_owner_pred(owner_id))
}

/// The relational form an aggregate is written out as: the owner's row
/// first, then one row per other member.
pub open spec fn spec_to_data(c: CircleView) -> CircleDataView {
    CircleDataView {
        id: c.id,
        name: c.name,
        owner_id: c.owner.id,
        capacity: c.capacity,
        members: seq![data_of_member(c.owner)] + datas_of_members(c.members),
    }
}

/// The aggregate a relational form is read back as: every row must be
/// valid, and the owner is looked up by the `owner_id` pointer within the
/// full row set (the first such row); all rows whose id differs become the
/// `members` list. A missing owner row marks a partially written aggregate.
pub open spec fn spec_from_data(d: CircleDataView) -> Result<CircleView, Error> {
    if exists|i: int| 0 <= i < d.members.len() && !data_valid(#[trigger] d.members[i]) {
        Err(Error::Validation)
    } else {
        let ms = members_of_datas(d.members);
        let owners = owner_candidates(ms, d.owner_id);
        if owners.len() == 0 {
            Err(Error::DataIntegrity)
        } else {
            Ok(
                CircleView {
                    id: d.id,
                    name: d.name,
                    capacity: d.capacity,
                    owner: owners[0],
                    members: non_owners(ms, d.owner_id),
                },
            )
        }
    }
}

impl MemberData {
    /// Writes a member out as its row.
    pub fn of_member(m: &Member) -> (r: MemberData)
        ensures
            r@ == data_of_member(m@),
    {
        MemberData {
            id: m.id.value,
            name: m.name.clone(),
            age: m.age,
            grade: m.grade.value,
            major: m.major.name(),
        }
    }

    /// Rehydrates one row into a member, re-checking only what the typed
    /// value objects demand (grade range, recognized major).
    pub fn try_into_member(&self) -> (r: Result<Member, Error>)
        ensures
            data_valid(self@) <==> r is Ok,
            r matches Ok(m) ==> m@ == member_of_data(self@),
            r is Err ==> r == Err::<Member, Error>(Error::Validation),
    {
        let grade = match Grade::try_new(self.grade) {
            Ok(g) => g,
            Err(_) => {
                return Err(Error::Validation);
            },
        };
        let major = match Major::try_from_str(self.major.as_str()) {
            Ok(m) => m,
            Err(_) => {
                return Err(Error::Validation);
            },
        };
        Ok(Member::reconstruct(MemberId::new(self.id), self.name.clone(), self.age, grade, major))
    }
}

impl CircleData {
    /// Writes an aggregate out as its relational form: one circle row and
    /// one member row per person, the owner's row first.
    pub fn from_circle(c: &Circle) -> (d: CircleData)
        ensures
            d@ == spec_to_data(c@),
    {
        let mut rows: Vec<MemberData> = Vec::new();
        rows.push(MemberData::of_member(&c.owner));
        let ghost target = spec_to_data(c@).members;
        let mut i: usize = 0;
        while i < c.members.len()
            invariant
                0 <= i <= c.members@.len(),
                rows@.len() == 1 + i,
                member_data_views(rows@) =~= target.take(1 + i),
                target == spec_to_data(c@).members,
            decreases c.members@.len() - i,
        {
            rows.push(MemberData::of_member(&c.members[i]));
            proof {
                assert(member_data_views(rows@) =~= target.take(1 + i + 1));
            }
            i = i + 1;
        }
        let d = CircleData {
            id: c.id.value,
            name: c.name.clone(),
            owner_id: c.owner.id.value,
            capacity: c.capacity,
            members: rows,
        };
        proof {
            assert(member_data_views(d.members@) =~= target);
            assert(d@ =~= spec_to_data(c@));
        }
        d
    }

    /// Reads the relational form back into an aggregate, splitting the owner
    /// (the first row the `owner_id` pointer matches) from the other members.
    pub fn try_into_circle(&self) -> (r: Result<Circle, Error>)
        ensures
            match spec_from_data(self@) {
                Ok(cv) => r matches Ok(c) && c@ == cv,
                Err(e) => r == Err::<Circle, Error>(e),
            },
    {
        let ghost dms = member_data_views(self.members@);
        let ghost ms = members_of_datas(dms);
        let mut owner: Option<Member> = None;
        let mut others: Vec<Member> = Vec::new();
        let mut i: usize = 0;
        while i < self.members.len()
            invariant
                0 <= i <= self.members@.len(),
                dms == member_data_views(self.members@),
                ms == members_of_datas(dms),
                forall|j: int| 0 <= j < i ==> data_valid(#[trigger] dms[j]),
                match owner {
                    Some(m) => owner_candidates(ms.take(i as int), self@.owner_id).len() >= 1
                        && m@ == owner_candidates(ms.take(i as int), self@.owner_id)[0],
                    None => owner_candidates(ms.take(i as int), self@.owner_id).len() == 0,
                },
                member_views(others@) =~= non_owners(ms.take(i as int), self@.owner_id),
            decreases self.members@.len() - i,
        {
            let m = match self.members[i].try_into_member() {
                Ok(m) => m,
                Err(_) => {
                    return Err(Error::Validation);
                },
            };
            proof {
                assert(dms[i as int] == self.members@[i as int]@);
                assert(ms[i as int] == member_of_data(dms[i as int]));
                assert(ms.take(i + 1) =~= ms.take(i as int).push(ms[i as int]));
            }
            if m.id.value == self.owner_id {
                if owner.is_none() {
                    owner = Some(m);
                }
            } else {
                others.push(m);
                proof {
                    assert(member_views(others@) =~= non_owners(
                        ms.take(i + 1),
                        self@.owner_id,
                    ));
                }
            }
            i = i + 1;
        }
        proof {
            assert(ms.take(self.members@.len() as int) =~= ms);
        }
        let own = match owner {
            Some(m) => m,
            None => {
                return Err(Error::DataIntegrity);
            },
        };
        proof {
            let owners = owner_candidates(ms, self@.owner_id);
            assert(owners[0].id == self@.owner_id);
            assert forall|j: int| 0 <= j < others@.len() implies (#[trigger] others@[j])@.id
                != own@.id by {
                assert(member_views(others@)[j] == others@[j]@);
                assert(non_owners(ms, self@.owner_id)[j].id != self@.owner_id);
            }
        }
        let c = Circle::reconstruct(
            CircleId::new(self.id),
            self.name.clone(),
            own,
            self.capacity,
            others,
        );
        proof {
            let cv = match spec_from_data(self@) {
                Ok(cv) => cv,
                Err(_) => vstd::pervasive::arbitrary(),
            };
            assert(c@ =~= cv);
        }
        Ok(c)
    }
}

/// Law: the storage mapping is lossless. Writing an aggregate out as its
/// relational form and reading that form back yields the aggregate again,
/// for every aggregate whose owner's id does not recur among its members.
pub proof fn lemma_mapping_round_trip(c: CircleView)
    requires
        circle_wf(c),
        owner_not_among_members(c),
    ensures
        spec_from_data(spec_to_data(c)) == Ok::<CircleView, Error>(c),
{
    let d = spec_to_data(c);
    let rows = d.members;
    assert forall|i: int| 0 <= i < rows.len() implies data_valid(#[trigger] rows[i]) by {
        if i == 0 {
            lemma_major_name_round_trip(c.owner.major);
        } else {
            assert(rows[i] == data_of_member(c.members[i - 1]));
            lemma_major_name_round_trip(c.members[i - 1].major);
        }
    }
    let ms = members_of_datas(rows);
    assert forall|i: int| 0 <= i < ms.len() implies ms[i] == (seq![c.owner] + c.members)[i] by {
        if i == 0 {
            lemma_major_name_round_trip(c.owner.major);
        } else {
            lemma_major_name_round_trip(c.members[i - 1].major);
        }
    }
    assert(ms =~= seq![c.owner] + c.members);
    let oid = c.owner.id;
    lemma_filter_singleton(c.owner, is_owner_pred(oid));
    lemma_filter_none(c.members, is_owner_pred(oid));
    assert(owner_candidates(ms, oid) =~= seq![c.owner]);
    lemma_filter_singleton(c.owner, not_owner_pred(oid));
    lemma_filter_all(c.members, not_owner_pred(oid));
    assert(non_owners(ms, oid) =~= c.members);
    let got = match spec_from_data(d) {
        Ok(cv) => cv,
        Err(_) => vstd::pervasive::arbitrary(),
    };
    assert(got =~= c);
}

} // verus!
