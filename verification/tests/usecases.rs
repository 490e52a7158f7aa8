use circle_app::api::{
    create_circle, fetch_circle, update_circle, CreateCircleRequestBody, FetchCircleInputParam,
    UpdateCircleRequestBody,
};
use circle_app::circle::Circle;
use circle_app::errors::Error;
use circle_app::member::Member;
use circle_app::store::CircleStore;
use circle_app::value_objects::{Grade, Major};

fn create_body(
    circle_name: &str,
    capacity: i16,
    owner_name: &str,
    owner_age: i16,
    owner_grade: i16,
    owner_major: &str,
) -> CreateCircleRequestBody {
    CreateCircleRequestBody {
        circle_name: String::from(circle_name),
        capacity,
        owner_name: String::from(owner_name),
        owner_age,
        owner_grade,
        owner_major: String::from(owner_major),
    }
}

#[test]
fn test_create_circle() {
    let mut store = CircleStore::new();
    let body = create_body("circle_name1", 10, "owner1", 21, 3, "Music");
    let resp = create_circle(&mut store, body).expect("create should succeed");
    assert_eq!(resp.circle_id, 1);
    assert_eq!(resp.owner_id, 1);
}

#[test]
fn test_fetch_circle() {
    let mut store = CircleStore::new();
    let missing = fetch_circle(&store, FetchCircleInputParam { id: 1 }).unwrap_err();
    assert_eq!(missing, Error::NotFound);
    assert_eq!(missing.message(), "Circle not found");

    let body = create_body("circle_name1", 10, "owner1", 21, 3, "Music");
    let created = create_circle(&mut store, body).unwrap();
    let fetched = fetch_circle(&store, FetchCircleInputParam { id: created.circle_id }).unwrap();
    assert_eq!(fetched.circle_id, created.circle_id);
    assert_eq!(fetched.circle_name, "circle_name1");
    assert_eq!(fetched.capacity, 10);
    assert_eq!(fetched.owner.id, created.owner_id);
    assert!(fetched.members.is_empty());
}

#[test]
fn test_update_circle() {
    let mut store = CircleStore::new();
    let body = create_body("circle_name1", 10, "owner1", 21, 3, "Music");
    let created = create_circle(&mut store, body).unwrap();
    let update_body = UpdateCircleRequestBody {
        circle_name: Some(String::from("Football club")),
        capacity: Some(20),
    };
    let updated = update_circle(&mut store, update_body.convert_to_input(created.circle_id))
        .expect("update should succeed");
    assert_eq!(updated.id, created.circle_id);
    let fetched = fetch_circle(&store, FetchCircleInputParam { id: created.circle_id }).unwrap();
    assert_eq!(fetched.circle_name, "Football club");
    assert_eq!(fetched.capacity, 20);
}

#[test]
fn music_club_scenario_reports_every_field() {
    let mut store = CircleStore::new();
    let body = create_body("Music club", 10, "John Lennon", 21, 3, "Music");
    let created = create_circle(&mut store, body).expect("create should succeed");
    let fetched = fetch_circle(&store, FetchCircleInputParam { id: created.circle_id }).unwrap();
    assert_eq!(fetched.circle_id, created.circle_id);
    assert_eq!(fetched.circle_name, "Music club");
    assert_eq!(fetched.capacity, 10);
    assert_eq!(fetched.owner.id, created.owner_id);
    assert_eq!(fetched.owner.name, "John Lennon");
    assert_eq!(fetched.owner.age, 21);
    assert_eq!(fetched.owner.grade, 3);
    assert_eq!(fetched.owner.major, "Music");
    assert!(fetched.members.is_empty());
}

#[test]
fn renaming_the_music_club_keeps_its_owner_and_members() {
    let mut store = CircleStore::new();
    let body = create_body("Music club", 10, "John Lennon", 21, 3, "Music");
    let created = create_circle(&mut store, body).unwrap();
    let update_body = UpdateCircleRequestBody {
        circle_name: Some(String::from("Football club")),
        capacity: Some(20),
    };
    update_circle(&mut store, update_body.convert_to_input(created.circle_id)).unwrap();
    let fetched = fetch_circle(&store, FetchCircleInputParam { id: created.circle_id }).unwrap();
    assert_eq!(fetched.circle_name, "Football club");
    assert_eq!(fetched.capacity, 20);
    assert_eq!(fetched.owner.name, "John Lennon");
    assert!(fetched.members.is_empty());
}

#[test]
fn updating_capacity_alone_keeps_the_name() {
    let mut store = CircleStore::new();
    let body = create_body("Music club", 10, "John Lennon", 21, 3, "Music");
    let created = create_circle(&mut store, body).unwrap();
    let update_body = UpdateCircleRequestBody { circle_name: None, capacity: Some(20) };
    update_circle(&mut store, update_body.convert_to_input(created.circle_id)).unwrap();
    let fetched = fetch_circle(&store, FetchCircleInputParam { id: created.circle_id }).unwrap();
    assert_eq!(fetched.circle_name, "Music club");
    assert_eq!(fetched.capacity, 20);
}

#[test]
fn updating_to_a_too_small_capacity_fails_and_changes_nothing() {
    let mut store = CircleStore::new();
    let body = create_body("Music club", 10, "John Lennon", 21, 3, "Music");
    let created = create_circle(&mut store, body).unwrap();
    // owner alone needs a capacity of at least one
    let update_body = UpdateCircleRequestBody { circle_name: None, capacity: Some(0) };
    let err = update_circle(&mut store, update_body.convert_to_input(created.circle_id));
    assert_eq!(err.unwrap_err(), Error::Validation);
    let fetched = fetch_circle(&store, FetchCircleInputParam { id: created.circle_id }).unwrap();
    assert_eq!(fetched.capacity, 10);
}

#[test]
fn updating_a_missing_circle_reports_not_found() {
    let mut store = CircleStore::new();
    let update_body = UpdateCircleRequestBody { circle_name: None, capacity: Some(20) };
    let err = update_circle(&mut store, update_body.convert_to_input(1)).unwrap_err();
    assert_eq!(err, Error::NotFound);
    assert_eq!(err.message(), "Circle not found");
}

#[test]
fn invalid_grade_and_major_fail_before_the_store_changes() {
    let mut store = CircleStore::new();
    let bad_grade = create_body("circle_name1", 10, "owner1", 21, 9, "Music");
    assert_eq!(create_circle(&mut store, bad_grade).unwrap_err(), Error::Validation);
    let bad_major = create_body("circle_name1", 10, "owner1", 21, 3, "Basketball");
    assert_eq!(create_circle(&mut store, bad_major).unwrap_err(), Error::Validation);
    let bad_capacity = create_body("circle_name1", 0, "owner1", 21, 3, "Music");
    assert_eq!(create_circle(&mut store, bad_capacity).unwrap_err(), Error::Validation);
    assert_eq!(
        fetch_circle(&store, FetchCircleInputParam { id: 1 }).unwrap_err(),
        Error::NotFound
    );
}

#[test]
fn an_exhausted_id_counter_reports_a_store_error() {
    let mut store = CircleStore {
        circles: Vec::new(),
        members: Vec::new(),
        next_circle_id: i16::MAX,
        next_member_id: 1,
    };
    let body = create_body("circle_name1", 10, "owner1", 21, 3, "Music");
    let err = create_circle(&mut store, body).unwrap_err();
    assert_eq!(err, Error::Store);
    assert_eq!(err.message(), "Store error");
}

#[test]
fn create_then_find_round_trips_members_in_order() {
    let mut store = CircleStore::new();
    let owner = Member::create(
        String::from("owner1"),
        21,
        Grade::try_new(3).unwrap(),
        Major::try_from_str("Music").unwrap(),
    )
    .unwrap();
    let mut circle = Circle::create(String::from("circle_name1"), 5, owner).unwrap();
    circle
        .add_member(
            Member::create(
                String::from("member1"),
                19,
                Grade::try_new(1).unwrap(),
                Major::try_from_str("Law").unwrap(),
            )
            .unwrap(),
        )
        .unwrap();
    let (cid, oid) = store.create(&circle).expect("create should succeed");
    let found = store.find_by_id(&cid).expect("find should succeed");
    assert_eq!(found.id.value, cid.value);
    assert_eq!(found.name, "circle_name1");
    assert_eq!(found.capacity, 5);
    assert_eq!(found.owner.id.value, oid.value);
    assert_eq!(found.owner.name, "owner1");
    assert_eq!(found.members.len(), 1);
    assert_eq!(found.members[0].name, "member1");
    assert_eq!(found.members[0].major, Major::Law);
}

#[test]
fn delete_removes_the_circle_and_its_member_rows() {
    let mut store = CircleStore::new();
    let body = create_body("circle_name1", 10, "owner1", 21, 3, "Music");
    let created = create_circle(&mut store, body).unwrap();
    let circle = store
        .find_by_id(&circle_app::value_objects::CircleId::new(created.circle_id))
        .unwrap();
    store.delete(&circle).unwrap();
    assert!(store.members.is_empty());
    assert_eq!(
        fetch_circle(&store, FetchCircleInputParam { id: created.circle_id }).unwrap_err(),
        Error::NotFound
    );
}
