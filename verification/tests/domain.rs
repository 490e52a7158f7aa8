use circle_app::circle::Circle;
use circle_app::data::{CircleData, MemberData};
use circle_app::errors::Error;
use circle_app::member::Member;
use circle_app::value_objects::{CircleId, Grade, Major, MemberId};

fn music_member(name: &str, age: i16, grade: i16) -> Member {
    Member::create(
        String::from(name),
        age,
        Grade::try_new(grade).expect("grade should be valid"),
        Major::try_from_str("Music").expect("major should be recognized"),
    )
    .expect("member should be valid")
}

#[test]
fn grade_rejects_out_of_range_and_keeps_exact_value() {
    assert_eq!(Grade::try_new(0).unwrap_err(), Error::Validation);
    assert_eq!(Grade::try_new(5).unwrap_err(), Error::Validation);
    assert_eq!(Grade::try_new(-3).unwrap_err(), Error::Validation);
    for g in 1..=4 {
        let grade = Grade::try_new(g).expect("grade in range should succeed");
        assert_eq!(grade.value, g);
    }
}

#[test]
fn major_parses_known_names_only() {
    assert_eq!(Major::try_from_str("Music").unwrap(), Major::Music);
    assert_eq!(Major::try_from_str("Art").unwrap(), Major::Art);
    assert_eq!(Major::try_from_str("Economics").unwrap(), Major::Economics);
    assert_eq!(Major::try_from_str("Law").unwrap(), Major::Law);
    assert_eq!(Major::try_from_str("Basketball").unwrap_err(), Error::Validation);
    assert_eq!(Major::try_from_str("").unwrap_err(), Error::Validation);
    assert_eq!(Major::Music.name(), "Music");
}

#[test]
fn member_create_validates_name_and_age() {
    let grade = Grade::try_new(3).unwrap();
    let major = Major::try_from_str("Music").unwrap();
    assert_eq!(
        Member::create(String::new(), 21, grade, major).unwrap_err(),
        Error::Validation
    );
    assert_eq!(
        Member::create(String::from("owner1"), 0, grade, major).unwrap_err(),
        Error::Validation
    );
    let m = Member::create(String::from("owner1"), 21, grade, major).unwrap();
    assert_eq!(m.id.value, 0);
    assert_eq!(m.name, "owner1");
    assert_eq!(m.age, 21);
    assert_eq!(m.grade.value, 3);
    assert_eq!(m.major, Major::Music);
}

#[test]
fn circle_create_needs_capacity_and_starts_with_owner_only() {
    let owner = music_member("owner1", 21, 3);
    assert_eq!(
        Circle::create(String::from("circle_name1"), 0, owner).unwrap_err(),
        Error::Validation
    );
    let owner = music_member("owner1", 21, 3);
    let c = Circle::create(String::from("circle_name1"), 1, owner).unwrap();
    assert_eq!(c.id.value, 0);
    assert_eq!(c.name, "circle_name1");
    assert_eq!(c.capacity, 1);
    assert_eq!(c.owner.name, "owner1");
    assert!(c.members.is_empty());
}

#[test]
fn add_member_respects_capacity() {
    let owner = music_member("owner1", 21, 3);
    let mut c = Circle::create(String::from("circle_name1"), 2, owner).unwrap();
    assert!(c.add_member(music_member("member1", 19, 1)).is_ok());
    assert_eq!(c.members.len(), 1);
    assert_eq!(
        c.add_member(music_member("member2", 20, 2)).unwrap_err(),
        Error::Validation
    );
    assert_eq!(c.members.len(), 1);
}

#[test]
fn update_applies_only_supplied_fields() {
    let owner = music_member("owner1", 21, 3);
    let mut c = Circle::create(String::from("circle_name1"), 10, owner).unwrap();
    c.update(None, Some(20)).unwrap();
    assert_eq!(c.name, "circle_name1");
    assert_eq!(c.capacity, 20);
    c.update(Some(String::from("renamed")), None).unwrap();
    assert_eq!(c.name, "renamed");
    assert_eq!(c.capacity, 20);
}

#[test]
fn update_rejects_capacity_below_member_count() {
    let owner = music_member("owner1", 21, 3);
    let mut c = Circle::create(String::from("circle_name1"), 3, owner).unwrap();
    c.add_member(music_member("member1", 19, 1)).unwrap();
    // owner plus one member need a capacity of at least two
    assert_eq!(c.update(None, Some(1)).unwrap_err(), Error::Validation);
    assert_eq!(c.capacity, 3);
    assert!(c.update(None, Some(2)).is_ok());
    assert_eq!(c.capacity, 2);
}

#[test]
fn mapping_round_trips_a_persisted_circle() {
    let owner = Member::reconstruct(
        MemberId::new(7),
        String::from("owner1"),
        21,
        Grade::try_new(3).unwrap(),
        Major::Music,
    );
    let other = Member::reconstruct(
        MemberId::new(8),
        String::from("member1"),
        19,
        Grade::try_new(1).unwrap(),
        Major::Law,
    );
    let circle = Circle::reconstruct(
        CircleId::new(4),
        String::from("circle_name1"),
        owner,
        10,
        vec![other],
    );
    let data = CircleData::from_circle(&circle);
    assert_eq!(data.id, 4);
    assert_eq!(data.owner_id, 7);
    assert_eq!(data.members.len(), 2);
    let back = data.try_into_circle().expect("round trip should succeed");
    assert_eq!(back.id.value, 4);
    assert_eq!(back.name, "circle_name1");
    assert_eq!(back.capacity, 10);
    assert_eq!(back.owner.id.value, 7);
    assert_eq!(back.owner.name, "owner1");
    assert_eq!(back.owner.age, 21);
    assert_eq!(back.owner.grade.value, 3);
    assert_eq!(back.owner.major, Major::Music);
    assert_eq!(back.members.len(), 1);
    assert_eq!(back.members[0].id.value, 8);
    assert_eq!(back.members[0].name, "member1");
    assert_eq!(back.members[0].major, Major::Law);
}

#[test]
fn rehydration_fails_without_an_owner_row() {
    let data = CircleData {
        id: 4,
        name: String::from("circle_name1"),
        owner_id: 99,
        capacity: 10,
        members: vec![MemberData {
            id: 7,
            name: String::from("member1"),
            age: 19,
            grade: 1,
            major: String::from("Music"),
        }],
    };
    let err = data.try_into_circle().unwrap_err();
    assert_eq!(err, Error::DataIntegrity);
    assert_eq!(err.message(), "Owner not found");
}

#[test]
fn rehydration_fails_on_an_invalid_row() {
    let data = CircleData {
        id: 4,
        name: String::from("circle_name1"),
        owner_id: 7,
        capacity: 10,
        members: vec![MemberData {
            id: 7,
            name: String::from("owner1"),
            age: 21,
            grade: 9,
            major: String::from("Music"),
        }],
    };
    assert_eq!(data.try_into_circle().unwrap_err(), Error::Validation);
}
