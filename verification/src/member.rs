use vstd::prelude::*;
use vstd::string::StringExecFns;

use crate::errors::Error;
use crate::value_objects::{grade_in_range, Grade, Major, MemberId};

verus! {

/// A person belonging to a circle.
///
/// Immutable once constructed; a change is a full reconstruction.
#[derive(Debug)]
pub struct Member {
    pub id: MemberId,
    pub name: String,
    pub age: i16,
    pub grade: Grade,
    pub major: Major,
}

/// Mathematical model of a member.
#[verifier::ext_equal]
pub ghost struct MemberView {
    pub id: int,
    pub name: Seq<char>,
    pub age: int,
    pub grade: int,
    pub major: Major,
}

impl View for Member {
    type V = MemberView;

    open spec fn view(&self) -> MemberView {
        MemberView {
            id: self.id@,
            name: self.name@,
            age: self.age as int,
            grade: self.grade@,
            major: self.major,
        }
    }
}

/// The members a sequence of `Member` values models.
pub open spec fn member_views(s: Seq<Member>) -> Seq<MemberView> {
    s.map_values(|m: Member| m@)
}

/// What construction-time validation guarantees of a member:
/// a non-empty name, a positive age, a grade within the academic-year range.
pub open spec fn member_wf(m: MemberView) -> bool {
    &&& m.name.len() >= 1
    &&& m.age >= 1
    &&& grade_in_range(m.grade)
}

impl Member {
    /// Builds a new, not yet persisted member, validating its fields.
    ///
    /// Succeeds exactly when the name is non-empty and the age positive;
    /// the grade and major were already validated by their own constructors.
    pub fn create(name: String, age: i16, grade: Grade, major: Major) -> (r: Result<Member, Error>)
        ensures
            (name@.len() >= 1 && age >= 1) <==> r is Ok,
            r matches Ok(m) ==> m@ == (MemberView {
                id: 0,
                name: name@,
                age: age as int,
                grade: grade@,
                major,
            }),
            r is Err ==> r == Err::<Member, Error>(Error::Validation),
    {
        if name.as_str().unicode_len() >= 1 && age >= 1 {
            Ok(Member { id: MemberId::unassigned(), name, age, grade, major })
        } else {
            Err(Error::Validation)
        }
    }

    /// Rebuilds a member from storage. Storage is trusted, so the fields are
    /// not re-validated; grade and major must already be well-formed values.
    pub fn reconstruct(id: MemberId, name: String, age: i16, grade: Grade, major: Major) -> (m:
        Member)
        ensures
            m@ == (MemberView {
                id: id@,
                name: name@,
                age: age as int,
                grade: grade@,
                major,
            }),
    {
        Member { id, name, age, grade, major }
    }
}

} // verus!
