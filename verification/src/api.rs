use vstd::prelude::*;

use crate::circle::{Circle, CircleView};
use crate::data::{data_of_member, datas_of_members, MemberDataView};
use crate::errors::Error;
use crate::member::{Member, MemberView};
use crate::store::{
    can_persist, can_replace, circles_with, spec_create, spec_find, spec_update, store_inv,
    CircleStore,
};
use crate::value_objects::{grade_in_range, spec_parse_major, CircleId, Grade, Major};

verus! {

broadcast use vstd::seq_lib::group_seq_lib_default;

/// What a caller submits to create a circle with its owner.
#[derive(Debug)]
pub struct CreateCircleRequestBody {
    pub circle_name: String,
    pub capacity: i16,
    pub owner_name: String,
    pub owner_age: i16,
    pub owner_grade: i16,
    pub owner_major: String,
}

/// The ids the store assigned to a created circle and its owner.
#[derive(Debug, PartialEq, Eq, Structural)]
pub struct CreateCircleResponseBody {
    pub circle_id: i16,
    pub owner_id: i16,
}

/// The path parameter of a fetch.
#[derive(Debug, PartialEq, Eq, Structural)]
pub struct FetchCircleInputParam {
    pub id: i16,
}

/// One member as a fetch reports it.
#[derive(Debug)]
pub struct MemberOutput {
    pub id: i16,
    pub name: String,
    pub age: i16,
    pub grade: i16,
    pub major: String,
}

impl View for MemberOutput {
    type V = MemberDataView;

    open spec fn view(&self) -> MemberDataView {
        MemberDataView {
            id: self.id as int,
            name: self.name@,
            age: self.age as int,
            grade: self.grade as int,
            major: self.major@,
        }
    }
}

/// The members a sequence of outputs reports.
pub open spec fn member_output_views(s: Seq<MemberOutput>) -> Seq<MemberDataView> {
    s.map_values(|m: MemberOutput| m@)
}

/// A fetched circle as it is reported: the circle's own fields, its owner,
/// and the other members.
#[derive(Debug)]
pub struct FetcheCircleResponseBody {
    pub circle_id: i16,
    pub circle_name: String,
    pub capacity: i16,
    pub owner: MemberOutput,
    pub members: Vec<MemberOutput>,
}

/// The path parameter of an update.
#[derive(Debug, PartialEq, Eq, Structural)]
pub struct UpdateCircleInputParam {
    pub id: i16,
}

/// What a caller submits to update a circle: each field is applied only
/// when it is present.
#[derive(Debug)]
pub struct UpdateCircleRequestBody {
    pub circle_name: Option<String>,
    pub capacity: Option<i16>,
}

/// An update request joined with the id it addresses.
#[derive(Debug)]
pub struct UpdateCircleInput {
    pub id: i16,
    pub circle_name: Option<String>,
    pub capacity: Option<i16>,
}

impl UpdateCircleRequestBody {
    /// Joins the request body with the id taken from the request path.
    pub fn convert_to_input(self, id: i16) -> (r: UpdateCircleInput)
        ensures
            r.id == id,
            r.circle_name == self.circle_name,
            r.capacity == self.capacity,
    {
        UpdateCircleInput { id, circle_name: self.circle_name, capacity: self.capacity }
    }
}

/// The id of an updated circle, confirmed back to the caller.
#[derive(Debug, PartialEq, Eq, Structural)]
pub struct UpdateCircleResponseBody {
    pub id: i16,
}

impl MemberOutput {
    /// Reports one member.
    pub fn of_member(m: &Member) -> (r: MemberOutput)
        ensures
            r@ == data_of_member(m@),
    {
        MemberOutput {
            id: m.id.value,
            name: m.name.clone(),
            age: m.age,
            grade: m.grade.value,
            major: m.major.name(),
        }
    }
}

/// Whether a create request passes every construction-time validation:
/// grade within range, a recognized major, a non-empty owner name, a
/// positive age and a capacity of at least one.
pub open spec fn create_body_valid(b: CreateCircleRequestBody) -> bool {
    &&& grade_in_range(b.owner_grade as int)
    &&& spec_parse_major(b.owner_major@) is Some
    &&& b.owner_name@.len() >= 1
    &&& b.owner_age >= 1
    &&& b.capacity >= 1
}

/// The owner a valid create request describes, not yet persisted.
pub open spec fn spec_owner_of_body(b: CreateCircleRequestBody) -> MemberView {
    MemberView {
        id: 0,
        name: b.owner_name@,
        age: b.owner_age as int,
        grade: b.owner_grade as int,
        major: match spec_parse_major(b.owner_major@) {
            Some(m) => m,
            None => vstd::pervasive::arbitrary(),
        },
    }
}

/// The circle a valid create request describes: the owner is its only
/// person, and nothing is persisted yet.
pub open spec fn spec_circle_of_body(b: CreateCircleRequestBody) -> CircleView {
    CircleView {
        id: 0,
        name: b.circle_name@,
        capacity: b.capacity as int,
        owner: spec_owner_of_body(b),
        members: Seq::<MemberView>::empty(),
    }
}

/// Creates a circle from a request: validates every field, builds the
/// aggregate, persists it, and reports the assigned ids. Validation fails
/// before the store is touched.
pub fn create_circle(store: &mut CircleStore, body: CreateCircleRequestBody) -> (r: Result<
    CreateCircleResponseBody,
    Error,
>)
    requires
        store_inv(old(store)@),
    ensures
        !create_body_valid(body) ==> r == Err::<CreateCircleResponseBody, Error>(Error::Validation)
            && *final(store) == *old(store),
        create_body_valid(body) && !can_persist(old(store)@, spec_circle_of_body(body)) ==> r
            == Err::<CreateCircleResponseBody, Error>(Error::Store) && *final(store) == *old(store),
        create_body_valid(body) && can_persist(old(store)@, spec_circle_of_body(body)) ==> {
            &&& r matches Ok(resp) && resp.circle_id as int == old(store)@.next_circle_id
                && resp.owner_id as int == old(store)@.next_member_id
            &&& final(store)@ == spec_create(old(store)@, spec_circle_of_body(body))
        },
        store_inv(final(store)@),
{
    let grade = match Grade::try_new(body.owner_grade) {
        Ok(g) => g,
        Err(e) => {
            return Err(e);
        },
    };
    let major = match Major::try_from_str(body.owner_major.as_str()) {
        Ok(m) => m,
        Err(e) => {
            return Err(e);
        },
    };
    let owner = match Member::create(body.owner_name, body.owner_age, grade, major) {
        Ok(m) => m,
        Err(e) => {
            return Err(e);
        },
    };
    let circle = match Circle::create(body.circle_name, body.capacity, owner) {
        Ok(c) => c,
        Err(e) => {
            return Err(e);
        },
    };
    proof {
        assert(circle@ =~= spec_circle_of_body(body));
    }
    let ids = match store.create(&circle) {
        Ok(ids) => ids,
        Err(e) => {
            return Err(e);
        },
    };
    Ok(CreateCircleResponseBody { circle_id: ids.0.value, owner_id: ids.1.value })
}

/// Fetches a circle by id and reports it: the circle row's fields, the
/// owner, and the other members, exactly as the store holds them.
pub fn fetch_circle(store: &CircleStore, param: FetchCircleInputParam) -> (r: Result<
    FetcheCircleResponseBody,
    Error,
>)
    ensures
        match spec_find(store@, param.id as int) {
            Err(e) => r == Err::<FetcheCircleResponseBody, Error>(e),
            Ok(cv) => {
                &&& r matches Ok(resp)
                &&& resp.circle_id as int == cv.id
                &&& resp.circle_name@ == cv.name
                &&& resp.capacity as int == cv.capacity
                &&& resp.owner@ == data_of_member(cv.owner)
                &&& member_output_views(resp.members@) == datas_of_members(cv.members)
            },
        },
{
    let circle_id = CircleId::new(param.id);
    let circle = match store.find_by_id(&circle_id) {
        Ok(c) => c,
        Err(e) => {
            return Err(e);
        },
    };
    let owner_out = MemberOutput::of_member(&circle.owner);
    let mut members_out: Vec<MemberOutput> = Vec::new();
    let mut i: usize = 0;
    while i < circle.members.len()
        invariant
            0 <= i <= circle.members@.len(),
            member_output_views(members_out@) =~= datas_of_members(circle@.members.take(i as int)),
        decreases circle.members@.len() - i,
    {
        let ghost prev = members_out@;
        members_out.push(MemberOutput::of_member(&circle.members[i]));
        proof {
            let ii = i as int;
            assert(circle@.members[ii] == circle.members@[ii]@);
            assert(member_output_views(members_out@) =~= member_output_views(prev).push(
                data_of_member(circle@.members[ii]),
            ));
            assert(datas_of_members(circle@.members.take(ii + 1)) =~= datas_of_members(
                circle@.members.take(ii),
            ).push(data_of_member(circle@.members[ii])));
            assert(member_output_views(members_out@) =~= datas_of_members(
                circle@.members.take(ii + 1),
            ));
        }
        i = i + 1;
    }
    proof {
        assert(circle@.members.take(circle.members@.len() as int) =~= circle@.members);
    }
    Ok(
        FetcheCircleResponseBody {
            circle_id: circle.id.value,
            circle_name: circle.name,
            capacity: circle.capacity,
            owner: owner_out,
            members: members_out,
        },
    )
}

/// Updates a circle: fetches it, applies the partial update to the
/// aggregate, and writes the whole aggregate back — so a capacity below the
/// member count plus the owner is rejected before the store changes, and an
/// omitted name or capacity keeps its stored value.
pub fn update_circle(store: &mut CircleStore, input: UpdateCircleInput) -> (r: Result<
    UpdateCircleResponseBody,
    Error,
>)
    requires
        store_inv(old(store)@),
    ensures
        match spec_find(old(store)@, input.id as int) {
            Err(e) => r == Err::<UpdateCircleResponseBody, Error>(e) && *final(store) == *old(
                store,
            ),
            Ok(cv) => {
                let new_cap = match input.capacity {
                    Some(c) => c as int,
                    None => cv.capacity,
                };
                let new_name = match input.circle_name {
                    Some(n) => n@,
                    None => cv.name,
                };
                let cv2 = CircleView { name: new_name, capacity: new_cap, ..cv };
                if cv.members.len() + 1 > new_cap {
                    r == Err::<UpdateCircleResponseBody, Error>(Error::Validation) && *final(store)
                        == *old(store)
                } else if !can_replace(old(store)@, cv2) {
                    r == Err::<UpdateCircleResponseBody, Error>(Error::Store) && *final(store)
                        == *old(store)
                } else {
                    r == Ok::<UpdateCircleResponseBody, Error>(
                        UpdateCircleResponseBody { id: input.id },
                    ) && final(store)@ == spec_update(old(store)@, cv2)
                }
            },
        },
        store_inv(final(store)@),
{
    let circle_id = CircleId::new(input.id);
    let mut circle = match store.find_by_id(&circle_id) {
        Ok(c) => c,
        Err(e) => {
            return Err(e);
        },
    };
    proof {
        let found = circles_with(store@.circles, input.id as int);
        assert(found[0].id == input.id as int);
        assert(circle@.id == input.id as int);
    }
    match circle.update(input.circle_name, input.capacity) {
        Ok(()) => (),
        Err(e) => {
            return Err(e);
        },
    }
    match store.update(&circle) {
        Ok(()) => Ok(UpdateCircleResponseBody { id: input.id }),
        Err(e) => Err(e),
    }
}

} // verus!
