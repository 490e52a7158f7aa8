use vstd::prelude::*;
use vstd::string::StringExecFns;

use crate::errors::Error;

verus! {

/// Identifier of a circle. The value `0` stands for "not yet persisted";
/// the store assigns ids starting at `1`.
#[derive(Clone, Copy, Debug, PartialEq, Eq, Structural)]
pub struct CircleId {
    pub value: i16,
}

impl View for CircleId {
    type V = int;

    open spec fn view(&self) -> int {
        self.value as int
    }
}

impl CircleId {
    /// An identifier not yet assigned by the store.
    pub fn unassigned() -> (r: CircleId)
        ensures
            r@ == 0,
    {
        CircleId { value: 0 }
    }

    pub fn new(value: i16) -> (r: CircleId)
        ensures
            r@ == value as int,
    {
        CircleId { value }
    }
}

/// Identifier of a member. The value `0` stands for "not yet persisted".
#[derive(Clone, Copy, Debug, PartialEq, Eq, Structural)]
pub struct MemberId {
    pub value: i16,
}

impl View for MemberId {
    type V = int;

    open spec fn view(&self) -> int {
        self.value as int
    }
}

impl MemberId {
    /// An identifier not yet assigned by the store.
    pub fn unassigned() -> (r: MemberId)
        ensures
            r@ == 0,
    {
        MemberId { value: 0 }
    }

    pub fn new(value: i16) -> (r: MemberId)
        ensures
            r@ == value as int,
    {
        MemberId { value }
    }
}

/// Smallest academic year a grade may hold.
pub const GRADE_MIN: i16 = 1;

/// Largest academic year a grade may hold.
pub const GRADE_MAX: i16 = 4;

/// An academic year, always within `GRADE_MIN ..= GRADE_MAX`.
#[derive(Clone, Copy, Debug, PartialEq, Eq, Structural)]
pub struct Grade {
    pub value: i16,
}

impl View for Grade {
    type V = int;

    open spec fn view(&self) -> int {
        self.value as int
    }
}

/// Whether a raw integer is an acceptable academic year.
pub open spec fn grade_in_range(value: int) -> bool {
    GRADE_MIN <= value <= GRADE_MAX
}

impl Grade {
    /// Builds a grade, rejecting any value outside the academic-year range.
    pub fn try_new(value: i16) -> (r: Result<Grade, Error>)
        ensures
            grade_in_range(value as int) <==> r is Ok,
            r matches Ok(g) ==> g@ == value as int,
            r is Err ==> r == Err::<Grade, Error>(Error::Validation),
    {
        if GRADE_MIN <= value && value <= GRADE_MAX {
            Ok(Grade { value })
        } else {
            Err(Error::Validation)
        }
    }
}

/// The closed set of recognized study fields.
#[derive(Clone, Copy, Debug, PartialEq, Eq, Structural)]
pub enum Major {
    Music,
    Art,
    Economics,
    Law,
}

/// The canonical name under which a major is stored and reported.
pub open spec fn spec_major_name(m: Major) -> Seq<char> {
    match m {
        Major::Music => "Music"@,
        Major::Art => "Art"@,
        Major::Economics => "Economics"@,
        Major::Law => "Law"@,
    }
}

/// The major a stored or submitted name denotes, if any.
pub open spec fn spec_parse_major(s: Seq<char>) -> Option<Major> {
    if s == "Music"@ {
        Some(Major::Music)
    } else if s == "Art"@ {
        Some(Major::Art)
    } else if s == "Economics"@ {
        Some(Major::Economics)
    } else if s == "Law"@ {
        Some(Major::Law)
    } else {
        None
    }
}

impl Major {
    /// Builds a major from its name, rejecting a name outside the closed set.
    pub fn try_from_str(s: &str) -> (r: Result<Major, Error>)
        ensures
            match spec_parse_major(s@) {
                Some(m) => r == Ok::<Major, Error>(m),
                None => r == Err::<Major, Error>(Error::Validation),
            },
    {
        let owned = String::from_str(s);
        if owned == String::from_str("Music") {
            Ok(Major::Music)
        } else if owned == String::from_str("Art") {
            Ok(Major::Art)
        } else if owned == String::from_str("Economics") {
            Ok(Major::Economics)
        } else if owned == String::from_str("Law") {
            Ok(Major::Law)
        } else {
            Err(Error::Validation)
        }
    }

    /// The canonical name of this major.
    pub fn name(&self) -> (r: String)
        ensures
            r@ == spec_major_name(*self),
    {
        match self {
            Major::Music => String::from_str("Music"),
            Major::Art => String::from_str("Art"),
            Major::Economics => String::from_str("Economics"),
            Major::Law => String::from_str("Law"),
        }
    }
}

/// Every major's name parses back to that major.
pub proof fn lemma_major_name_round_trip(m: Major)
    ensures
        spec_parse_major(spec_major_name(m)) == Some(m),
{
    reveal_strlit("Music");
    reveal_strlit("Art");
    reveal_strlit("Economics");
    reveal_strlit("Law");
    assert("Music"@.len() == 5);
    assert("Art"@.len() == 3);
    assert("Economics"@.len() == 9);
    assert("Law"@.len() == 3);
    assert("Art"@[0] == 'A');
    assert("Law"@[0] == 'L');
}

} // verus!
