use vstd::prelude::*;

use crate::circle::{circle_wf, owner_not_among_members, Circle, CircleView};
use crate::data::{
    data_of_member, lemma_mapping_round_trip, member_data_views, spec_from_data,
    spec_to_data, CircleData, CircleDataView, MemberData, MemberDataView,
};
use crate::errors::Error;
use crate::member::{member_wf, Member, MemberView};
use crate::seq_facts::{lemma_filter_all, lemma_filter_none};
use crate::value_objects::{spec_major_name, CircleId, MemberId};

verus! {

broadcast use vstd::seq_lib::group_seq_lib_default, Seq::lemma_filter_push;

/// One row of the circles table.
#[derive(Debug)]
pub struct CircleRow {
    pub id: i16,
    pub name: String,
    pub owner_id: i16,
    pub capacity: i16,
}

/// Mathematical model of a circle row.
#[verifier::ext_equal]
pub ghost struct CircleRowView {
    pub id: int,
    pub name: Seq<char>,
    pub owner_id: int,
    pub capacity: int,
}

impl View for CircleRow {
    type V = CircleRowView;

    open spec fn view(&self) -> CircleRowView {
        CircleRowView {
            id: self.id as int,
            name: self.name@,
            owner_id: self.owner_id as int,
            capacity: self.capacity as int,
        }
    }
}

/// One row of the members table, keyed to its circle.
#[derive(Debug)]
pub struct MemberRow {
    pub id: i16,
    pub name: String,
    pub age: i16,
    pub grade: i16,
    pub major: String,
    pub circle_id: i16,
}

/// Mathematical model of a member row.
#[verifier::ext_equal]
pub ghost struct MemberRowView {
    pub id: int,
    pub name: Seq<char>,
    pub age: int,
    pub grade: int,
    pub major: Seq<char>,
    pub circle_id: int,
}

impl View for MemberRow {
    type V = MemberRowView;

    open spec fn view(&self) -> MemberRowView {
        MemberRowView {
            id: self.id as int,
            name: self.name@,
            age: self.age as int,
            grade: self.grade as int,
            major: self.major@,
            circle_id: self.circle_id as int,
        }
    }
}

/// The circle rows a vector models.
pub open spec fn circle_row_views(s: Seq<CircleRow>) -> Seq<CircleRowView> {
    s.map_values(|r: CircleRow| r@)
}

/// The member rows a vector models.
pub open spec fn member_row_views(s: Seq<MemberRow>) -> Seq<MemberRowView> {
    s.map_values(|r: MemberRow| r@)
}

/// Holds of a circle row with the given id.
pub open spec fn circle_id_pred(id: int) -> spec_fn(CircleRowView) -> bool {
    |r: CircleRowView| r.id == id
}

/// Holds of a circle row with a different id.
pub open spec fn circle_id_not_pred(id: int) -> spec_fn(CircleRowView) -> bool {
    |r: CircleRowView| r.id != id
}

/// Holds of a member row stored for the given circle.
pub open spec fn in_circle_pred(cid: int) -> spec_fn(MemberRowView) -> bool {
    |r: MemberRowView| r.circle_id == cid
}

/// Holds of a member row stored for some other circle.
pub open spec fn not_in_circle_pred(cid: int) -> spec_fn(MemberRowView) -> bool {
    |r: MemberRowView| r.circle_id != cid
}

/// The circle rows carrying the given id, in table order.
pub open spec fn circles_with(rows: Seq<CircleRowView>, id: int) -> Seq<CircleRowView> {
    rows.filter(circle_id_pred(id))
}

/// The circle rows left once the given id is removed.
pub open spec fn circles_without(rows: Seq<CircleRowView>, id: int) -> Seq<CircleRowView> {
    rows.filter(circle_id_not_pred(id))
}

/// The member rows stored for the given circle, in table order.
pub open spec fn rows_for(rows: Seq<MemberRowView>, cid: int) -> Seq<MemberRowView> {
    rows.filter(in_circle_pred(cid))
}

/// The member rows left once the given circle's rows are removed.
pub open spec fn rows_not_for(rows: Seq<MemberRowView>, cid: int) -> Seq<MemberRowView> {
    rows.filter(not_in_circle_pred(cid))
}

/// The stored row of one member, under an assigned id, for a circle.
pub open spec fn row_of_member(m: MemberView, id: int, cid: int) -> MemberRowView {
    MemberRowView {
        id,
        name: m.name,
        age: m.age,
        grade: m.grade,
        major: spec_major_name(m.major),
        circle_id: cid,
    }
}

/// The storage record a member row contributes to a circle's relational form.
pub open spec fn data_of_row(r: MemberRowView) -> MemberDataView {
    MemberDataView { id: r.id, name: r.name, age: r.age, grade: r.grade, major: r.major }
}

/// The storage records of a sequence of member rows.
pub open spec fn datas_of_rows(s: Seq<MemberRowView>) -> Seq<MemberDataView> {
    s.map_values(|r: MemberRowView| data_of_row(r))
}

/// The in-memory relational store: the two tables and the next id each
/// table's auto-increment counter will hand out. Every multi-row operation
/// on it is one Rust call, so an aggregate can never be half-written.
#[derive(Debug)]
pub struct CircleStore {
    pub circles: Vec<CircleRow>,
    pub members: Vec<MemberRow>,
    pub next_circle_id: i16,
    pub next_member_id: i16,
}

/// Mathematical model of the store.
#[verifier::ext_equal]
pub ghost struct StoreView {
    pub circles: Seq<CircleRowView>,
    pub members: Seq<MemberRowView>,
    pub next_circle_id: int,
    pub next_member_id: int,
}

impl View for CircleStore {
    type V = StoreView;

    open spec fn view(&self) -> StoreView {
        StoreView {
            circles: circle_row_views(self.circles@),
            members: member_row_views(self.members@),
            next_circle_id: self.next_circle_id as int,
            next_member_id: self.next_member_id as int,
        }
    }
}

/// The store's table invariant: ids are assigned (positive), unique, and
/// below the counters that will hand out the next ones, and every member
/// row points at an id some circle row could carry.
pub open spec fn store_inv(s: StoreView) -> bool {
    &&& 1 <= s.next_circle_id <= i16::MAX
    &&& 1 <= s.next_member_id <= i16::MAX
    &&& forall|i: int|
        0 <= i < s.circles.len() ==> 1 <= (#[trigger] s.circles[i]).id < s.next_circle_id
    &&& forall|i: int, j: int|
        0 <= i < s.circles.len() && 0 <= j < s.circles.len() && i != j ==> (
        #[trigger] s.circles[i]).id != (#[trigger] s.circles[j]).id
    &&& forall|i: int|
        0 <= i < s.members.len() ==> 1 <= (#[trigger] s.members[i]).id < s.next_member_id
    &&& forall|i: int, j: int|
        0 <= i < s.members.len() && 0 <= j < s.members.len() && i != j ==> (
        #[trigger] s.members[i]).id != (#[trigger] s.members[j]).id
    &&& forall|i: int|
        0 <= i < s.members.len() ==> 1 <= (#[trigger] s.members[i]).circle_id < s.next_circle_id
}

/// The relational form of the circle a given row heads: the row's own
/// fields plus every member row stored for its id.
pub open spec fn spec_row_set(s: StoreView, row: CircleRowView) -> CircleDataView {
    CircleDataView {
        id: row.id,
        name: row.name,
        owner_id: row.owner_id,
        capacity: row.capacity,
        members: datas_of_rows(rows_for(s.members, row.id)),
    }
}

/// What fetching an id from the store yields: `NotFound` when no circle row
/// carries the id, otherwise the rehydration of the first such row together
/// with its member rows.
pub open spec fn spec_find(s: StoreView, id: int) -> Result<CircleView, Error> {
    let found = circles_with(s.circles, id);
    if found.len() == 0 {
        Err(Error::NotFound)
    } else {
        spec_from_data(spec_row_set(s, found[0]))
    }
}

/// The member rows a persisted circle occupies: the owner's row first,
/// under the first fresh id, then one row per other member in order.
pub open spec fn inserted_rows(c: CircleView, cid: int, first_id: int) -> Seq<MemberRowView> {
    seq![row_of_member(c.owner, first_id, cid)] + Seq::new(
        c.members.len(),
        |i: int| row_of_member(c.members[i], first_id + 1 + i, cid),
    )
}

/// Whether the id counters can still cover one circle row and its members.
pub open spec fn can_persist(s: StoreView, c: CircleView) -> bool {
    &&& s.next_circle_id + 1 <= i16::MAX
    &&& s.next_member_id + 1 + c.members.len() <= i16::MAX
}

/// The store after a circle is created: one new circle row under the next
/// circle id, pointing at the owner's freshly assigned member id, and the
/// aggregate's member rows appended.
pub open spec fn spec_create(s: StoreView, c: CircleView) -> StoreView {
    StoreView {
        circles: s.circles.push(
            CircleRowView {
                id: s.next_circle_id,
                name: c.name,
                owner_id: s.next_member_id,
                capacity: c.capacity,
            },
        ),
        members: s.members + inserted_rows(c, s.next_circle_id, s.next_member_id),
        next_circle_id: s.next_circle_id + 1,
        next_member_id: s.next_member_id + 1 + c.members.len(),
    }
}

/// The circle rows after an update: every row carrying the circle's id is
/// rewritten to the new name, capacity and owner pointer; the rest stay.
pub open spec fn updated_circle_rows(
    rows: Seq<CircleRowView>,
    c: CircleView,
    owner_id: int,
) -> Seq<CircleRowView> {
    rows.map_values(
        |r: CircleRowView|
            if r.id == c.id {
                CircleRowView { id: r.id, name: c.name, owner_id, capacity: c.capacity }
            } else {
                r
            },
    )
}

/// The store after a circle is updated: its circle row rewritten, its old
/// member rows dropped, and the aggregate's member rows re-inserted fresh.
pub open spec fn spec_update(s: StoreView, c: CircleView) -> StoreView {
    StoreView {
        circles: updated_circle_rows(s.circles, c, s.next_member_id),
        members: rows_not_for(s.members, c.id) + inserted_rows(c, c.id, s.next_member_id),
        next_circle_id: s.next_circle_id,
        next_member_id: s.next_member_id + 1 + c.members.len(),
    }
}

/// Whether the member id counter can still cover a replaced member set.
pub open spec fn can_replace(s: StoreView, c: CircleView) -> bool {
    s.next_member_id + 1 + c.members.len() <= i16::MAX
}

/// The store after a circle is deleted: its member rows first, then its
/// circle row, are gone; the counters never move backwards.
pub open spec fn spec_delete(s: StoreView, cid: int) -> StoreView {
    StoreView {
        circles: circles_without(s.circles, cid),
        members: rows_not_for(s.members, cid),
        next_circle_id: s.next_circle_id,
        next_member_id: s.next_member_id,
    }
}

impl MemberRow {
    /// The row of a member, under an assigned id, for a circle.
    fn of_member(m: &Member, id: i16, circle_id: i16) -> (r: MemberRow)
        ensures
            r@ == row_of_member(m@, id as int, circle_id as int),
    {
        MemberRow {
            id,
            name: m.name.clone(),
            age: m.age,
            grade: m.grade.value,
            major: m.major.name(),
            circle_id,
        }
    }

    /// The storage record this row contributes to a relational form.
    fn to_data(&self) -> (d: MemberData)
        ensures
            d@ == data_of_row(self@),
    {
        MemberData {
            id: self.id,
            name: self.name.clone(),
            age: self.age,
            grade: self.grade,
            major: self.major.clone(),
        }
    }
}

/// Appends a persisted circle's member rows: the owner's row under the
/// first fresh id, then one row per other member under the following ids.
fn push_member_rows(rows: &mut Vec<MemberRow>, circle: &Circle, first_id: i16, circle_id: i16)
    requires
        1 <= first_id as int,
        first_id as int + 1 + circle.members@.len() <= i16::MAX,
    ensures
        member_row_views(final(rows)@) == member_row_views(old(rows)@) + inserted_rows(
            circle@,
            circle_id as int,
            first_id as int,
        ),
{
    let ghost base = member_row_views(old(rows)@);
    let ghost ins = inserted_rows(circle@, circle_id as int, first_id as int);
    rows.push(MemberRow::of_member(&circle.owner, first_id, circle_id));
    proof {
        assert(member_row_views(rows@) =~= base + ins.take(1));
    }
    let n = circle.members.len();
    let mut k: usize = 0;
    while k < n
        invariant
            0 <= k <= n,
            n == circle.members@.len(),
            1 <= first_id as int,
            first_id as int + 1 + n <= i16::MAX,
            ins == inserted_rows(circle@, circle_id as int, first_id as int),
            member_row_views(rows@) =~= base + ins.take(1 + k as int),
        decreases n - k,
    {
        let mid: i16 = first_id + 1 + (k as i16);
        rows.push(MemberRow::of_member(&circle.members[k], mid, circle_id));
        proof {
            let kk = k as int;
            assert(circle@.members[kk] == circle.members@[kk]@);
            assert(ins[1 + kk] == row_of_member(
                circle@.members[kk],
                first_id + 1 + kk,
                circle_id as int,
            ));
            assert(ins.take(1 + kk + 1) =~= ins.take(1 + kk).push(ins[1 + kk]));
            assert(member_row_views(rows@) =~= (base + ins.take(1 + kk)).push(ins[1 + kk]));
            assert(member_row_views(rows@) =~= base + ins.take(1 + kk + 1));
        }
        k = k + 1;
    }
    proof {
        assert(ins.take(1 + n as int) =~= ins);
        assert(member_row_views(rows@) =~= base + ins);
    }
}

impl CircleStore {
    /// An empty store whose counters will hand out ids starting at one.
    pub fn new() -> (s: CircleStore)
        ensures
            s@.circles == Seq::<CircleRowView>::empty(),
            s@.members == Seq::<MemberRowView>::empty(),
            s@.next_circle_id == 1,
            s@.next_member_id == 1,
            store_inv(s@),
    {
        let s = CircleStore {
            circles: Vec::new(),
            members: Vec::new(),
            next_circle_id: 1,
            next_member_id: 1,
        };
        proof {
            assert(s@.circles =~= Seq::<CircleRowView>::empty());
            assert(s@.members =~= Seq::<MemberRowView>::empty());
        }
        s
    }

    /// Fetches one circle: its circle row, then every member row stored for
    /// its id, rehydrated into the aggregate. Fails with `NotFound` when no
    /// circle row carries the id, and as the rehydration fails otherwise.
    pub fn find_by_id(&self, circle_id: &CircleId) -> (r: Result<Circle, Error>)
        ensures
            match spec_find(self@, circle_id@) {
                Ok(cv) => r matches Ok(c) && c@ == cv,
                Err(e) => r == Err::<Circle, Error>(e),
            },
    {
        let ghost cseq = circle_row_views(self.circles@);
        let n = self.circles.len();
        let mut i: usize = 0;
        let mut found: Option<usize> = None;
        while i < n
            invariant
                n == self.circles@.len(),
                0 <= i <= n,
                cseq == circle_row_views(self.circles@),
                match found {
                    None => circles_with(cseq.take(i as int), circle_id@).len() == 0,
                    Some(k) => k < i && cseq[k as int].id == circle_id@ && circles_with(
                        cseq.take(k as int),
                        circle_id@,
                    ).len() == 0,
                },
            decreases n - i,
        {
            if found.is_none() && self.circles[i].id == circle_id.value {
                found = Some(i);
            }
            proof {
                let ii = i as int;
                assert(cseq[ii] == self.circles@[ii]@);
                assert(cseq.take(ii + 1) =~= cseq.take(ii).push(cseq[ii]));
                assert(circles_with(cseq.take(ii + 1), circle_id@) == cseq.take(ii).push(
                    cseq[ii],
                ).filter(circle_id_pred(circle_id@)));
                if found is None {
                    assert(circles_with(cseq.take(ii + 1), circle_id@).len() == 0);
                }
            }
            i = i + 1;
        }
        let k = match found {
            Some(k) => k,
            None => {
                proof {
                    assert(cseq.take(n as int) =~= cseq);
                }
                return Err(Error::NotFound);
            },
        };
        proof {
            let kk = k as int;
            assert(cseq.take(kk + 1) =~= cseq.take(kk).push(cseq[kk]));
            assert(cseq =~= cseq.take(kk + 1) + cseq.skip(kk + 1));
            assert(circles_with(cseq, circle_id@) == (cseq.take(kk + 1) + cseq.skip(
                kk + 1,
            )).filter(circle_id_pred(circle_id@)));
            assert(circles_with(cseq.take(kk + 1), circle_id@) == cseq.take(kk).push(
                cseq[kk],
            ).filter(circle_id_pred(circle_id@)));
            assert(circles_with(cseq.take(kk), circle_id@) =~= Seq::<CircleRowView>::empty());
            assert(circles_with(cseq.take(kk + 1), circle_id@) =~= seq![cseq[kk]]);
            assert(circles_with(cseq, circle_id@)[0] == cseq[kk]);
            assert(circles_with(cseq, circle_id@).len() >= 1);
        }
        let row_id = self.circles[k].id;
        let ghost mseq = member_row_views(self.members@);
        let mut rows: Vec<MemberData> = Vec::new();
        let mut j: usize = 0;
        while j < self.members.len()
            invariant
                0 <= j <= self.members@.len(),
                mseq == member_row_views(self.members@),
                (k as int) < cseq.len(),
                row_id as int == cseq[k as int].id,
                member_data_views(rows@) =~= datas_of_rows(
                    rows_for(mseq.take(j as int), row_id as int),
                ),
            decreases self.members@.len() - j,
        {
            proof {
                let jj = j as int;
                assert(mseq[jj] == self.members@[jj]@);
                assert(mseq.take(jj + 1) =~= mseq.take(jj).push(mseq[jj]));
                assert(rows_for(mseq.take(jj + 1), row_id as int) == mseq.take(jj).push(
                    mseq[jj],
                ).filter(in_circle_pred(row_id as int)));
            }
            if self.members[j].circle_id == row_id {
                let ghost prev = rows@;
                rows.push(self.members[j].to_data());
                proof {
                    let jj = j as int;
                    assert(member_data_views(rows@) =~= member_data_views(prev).push(
                        data_of_row(mseq[jj]),
                    ));
                    assert(rows_for(mseq.take(jj + 1), row_id as int) == rows_for(
                        mseq.take(jj),
                        row_id as int,
                    ).push(mseq[jj]));
                    assert(datas_of_rows(rows_for(mseq.take(jj + 1), row_id as int))
                        =~= datas_of_rows(rows_for(mseq.take(jj), row_id as int)).push(
                        data_of_row(mseq[jj]),
                    ));
                    assert(member_data_views(rows@) =~= datas_of_rows(
                        rows_for(mseq.take(jj + 1), row_id as int),
                    ));
                }
            }
            j = j + 1;
        }
        proof {
            assert(mseq.take(self.members@.len() as int) =~= mseq);
        }
        let data = CircleData {
            id: row_id,
            name: self.circles[k].name.clone(),
            owner_id: self.circles[k].owner_id,
            capacity: self.circles[k].capacity,
            members: rows,
        };
        proof {
            assert(data@ =~= spec_row_set(self@, circles_with(self@.circles, circle_id@)[0]));
        }
        data.try_into_circle()
    }

    /// Persists a new circle: assigns the next circle id, writes the circle
    /// row pointing at the owner's freshly assigned member id, then the
    /// owner's row and one row per other member — all as one unit. Fails
    /// only when the id counters cannot cover the aggregate.
    pub fn create(&mut self, circle: &Circle) -> (r: Result<(CircleId, MemberId), Error>)
        requires
            store_inv(old(self)@),
        ensures
            !can_persist(old(self)@, circle@) ==> r == Err::<(CircleId, MemberId), Error>(
                Error::Store,
            ) && *final(self) == *old(self),
            can_persist(old(self)@, circle@) ==> {
                &&& r matches Ok(ids) && ids.0@ == old(self)@.next_circle_id && ids.1@ == old(
                    self,
                )@.next_member_id
                &&& final(self)@ == spec_create(old(self)@, circle@)
            },
            store_inv(final(self)@),
    {
        if self.next_circle_id == i16::MAX {
            return Err(Error::Store);
        }
        let room = (i16::MAX - self.next_member_id) as usize;
        if circle.members.len() >= room {
            return Err(Error::Store);
        }
        let cid = self.next_circle_id;
        let oid = self.next_member_id;
        let n = circle.members.len();
        self.circles.push(
            CircleRow { id: cid, name: circle.name.clone(), owner_id: oid, capacity: circle.capacity },
        );
        let ghost base = old(self)@.members;
        let ghost ins = inserted_rows(circle@, cid as int, oid as int);
        push_member_rows(&mut self.members, circle, oid, cid);
        self.next_circle_id = cid + 1;
        self.next_member_id = oid + 1 + (n as i16);
        proof {
            assert(self@ =~= spec_create(old(self)@, circle@));
            let s1 = self@;
            let s0 = old(self)@;
            assert forall|i: int| 0 <= i < s1.circles.len() implies 1 <= (
            #[trigger] s1.circles[i]).id < s1.next_circle_id by {
                if i < s0.circles.len() {
                    assert(s1.circles[i] == s0.circles[i]);
                }
            }
            assert forall|i: int, j: int|
                0 <= i < s1.circles.len() && 0 <= j < s1.circles.len() && i != j implies (
            #[trigger] s1.circles[i]).id != (#[trigger] s1.circles[j]).id by {
                if i < s0.circles.len() && j < s0.circles.len() {
                } else {
                    assert(s1.circles[s0.circles.len() as int].id == cid as int);
                }
            }
            assert forall|i: int| 0 <= i < s1.members.len() implies 1 <= (
            #[trigger] s1.members[i]).id < s1.next_member_id && 1 <= s1.members[i].circle_id
                < s1.next_circle_id by {
                if i < s0.members.len() {
                    assert(s1.members[i] == s0.members[i]);
                } else {
                    assert(s1.members[i] == ins[i - s0.members.len()]);
                }
            }
            assert forall|i: int, j: int|
                0 <= i < s1.members.len() && 0 <= j < s1.members.len() && i != j implies (
            #[trigger] s1.members[i]).id != (#[trigger] s1.members[j]).id by {
                let b = s0.members.len() as int;
                if i >= b {
                    assert(s1.members[i] == ins[i - b]);
                    assert(s1.members[i].id == oid + (i - b));
                }
                if j >= b {
                    assert(s1.members[j] == ins[j - b]);
                    assert(s1.members[j].id == oid + (j - b));
                }
            }
        }
        Ok((CircleId::new(cid), MemberId::new(oid)))
    }

    /// Rewrites a circle: updates its circle row, deletes every member row
    /// stored for its id, then re-inserts the owner and the other members
    /// under fresh ids — all as one unit, never a diff. Fails with
    /// `NotFound` when no circle row carries the aggregate's id, and with
    /// `Store` when the member id counter cannot cover the new row set.
    pub fn update(&mut self, circle: &Circle) -> (r: Result<(), Error>)
        requires
            store_inv(old(self)@),
        ensures
            circles_with(old(self)@.circles, circle@.id).len() == 0 ==> r == Err::<(), Error>(
                Error::NotFound,
            ) && *final(self) == *old(self),
            circles_with(old(self)@.circles, circle@.id).len() > 0 && !can_replace(
                old(self)@,
                circle@,
            ) ==> r == Err::<(), Error>(Error::Store) && *final(self) == *old(self),
            circles_with(old(self)@.circles, circle@.id).len() > 0 && can_replace(
                old(self)@,
                circle@,
            ) ==> r == Ok::<(), Error>(()) && final(self)@ == spec_update(old(self)@, circle@),
            store_inv(final(self)@),
    {
        let ghost s0 = self@;
        let ghost cseq = circle_row_views(self.circles@);
        let ghost mseq = member_row_views(self.members@);
        let cid = circle.id.value;
        let n = self.circles.len();
        let mut i: usize = 0;
        let mut exists_row = false;
        while i < n
            invariant
                n == self.circles@.len(),
                0 <= i <= n,
                cseq == circle_row_views(self.circles@),
                cid as int == circle@.id,
                exists_row <==> circles_with(cseq.take(i as int), cid as int).len() > 0,
            decreases n - i,
        {
            proof {
                let ii = i as int;
                assert(cseq[ii] == self.circles@[ii]@);
                assert(cseq.take(ii + 1) =~= cseq.take(ii).push(cseq[ii]));
                assert(circles_with(cseq.take(ii + 1), cid as int) == cseq.take(ii).push(
                    cseq[ii],
                ).filter(circle_id_pred(cid as int)));
            }
            if self.circles[i].id == cid {
                exists_row = true;
            }
            i = i + 1;
        }
        proof {
            assert(cseq.take(n as int) =~= cseq);
        }
        if !exists_row {
            return Err(Error::NotFound);
        }
        let room = (i16::MAX - self.next_member_id) as usize;
        if circle.members.len() >= room {
            return Err(Error::Store);
        }
        let oid = self.next_member_id;
        proof {
            crate::seq_facts::lemma_filter_elems(cseq, circle_id_pred(cid as int));
            let w = circles_with(cseq, cid as int)[0];
            let a = choose|a: int| 0 <= a < cseq.len() && cseq[a] == w;
            assert(1 <= w.id < s0.next_circle_id);
            assert(w.id == cid as int);
        }
        let mut new_circles: Vec<CircleRow> = Vec::new();
        let mut i: usize = 0;
        while i < self.circles.len()
            invariant
                0 <= i <= self.circles@.len(),
                cseq == circle_row_views(self.circles@),
                cid as int == circle@.id,
                oid == self.next_member_id,
                circle_row_views(new_circles@) =~= updated_circle_rows(
                    cseq.take(i as int),
                    circle@,
                    oid as int,
                ),
            decreases self.circles@.len() - i,
        {
            proof {
                let ii = i as int;
                assert(cseq[ii] == self.circles@[ii]@);
                assert(cseq.take(ii + 1) =~= cseq.take(ii).push(cseq[ii]));
            }
            let row = &self.circles[i];
            if row.id == cid {
                new_circles.push(
                    CircleRow {
                        id: row.id,
                        name: circle.name.clone(),
                        owner_id: oid,
                        capacity: circle.capacity,
                    },
                );
            } else {
                new_circles.push(
                    CircleRow {
                        id: row.id,
                        name: row.name.clone(),
                        owner_id: row.owner_id,
                        capacity: row.capacity,
                    },
                );
            }
            proof {
                let ii = i as int;
                let lhs = circle_row_views(new_circles@);
                let rhs = updated_circle_rows(cseq.take(ii + 1), circle@, oid as int);
                assert(cseq.len() == self.circles@.len());
                assert(cseq.take(ii).len() == ii);
                assert(updated_circle_rows(cseq.take(ii), circle@, oid as int).len() == ii);
                assert(new_circles@.len() == ii + 1);
                assert(lhs.len() == ii + 1);
                assert(rhs.len() == ii + 1);
                assert forall|x: int| 0 <= x < ii implies lhs[x] == rhs[x] by {
                    assert(lhs[x] == updated_circle_rows(cseq.take(ii), circle@, oid as int)[x]);
                    assert(rhs[x] == (if cseq[x].id == circle@.id {
                        CircleRowView {
                            id: cseq[x].id,
                            name: circle@.name,
                            owner_id: oid as int,
                            capacity: circle@.capacity,
                        }
                    } else {
                        cseq[x]
                    }));
                }
                assert(lhs[ii] =~= (if cseq[ii].id == circle@.id {
                    CircleRowView {
                        id: cseq[ii].id,
                        name: circle@.name,
                        owner_id: oid as int,
                        capacity: circle@.capacity,
                    }
                } else {
                    cseq[ii]
                }));
                assert(rhs[ii] == (if cseq[ii].id == circle@.id {
                    CircleRowView {
                        id: cseq[ii].id,
                        name: circle@.name,
                        owner_id: oid as int,
                        capacity: circle@.capacity,
                    }
                } else {
                    cseq[ii]
                }));
                assert(lhs =~= rhs);
            }
            i = i + 1;
        }
        proof {
            assert(cseq.take(self.circles@.len() as int) =~= cseq);
        }
        self.circles = new_circles;
        let mut kept: Vec<MemberRow> = Vec::new();
        let mut j: usize = 0;
        while j < self.members.len()
            invariant
                0 <= j <= self.members@.len(),
                mseq == member_row_views(self.members@),
                cid as int == circle@.id,
                member_row_views(kept@) =~= rows_not_for(mseq.take(j as int), cid as int),
            decreases self.members@.len() - j,
        {
            proof {
                let jj = j as int;
                assert(mseq[jj] == self.members@[jj]@);
                assert(mseq.take(jj + 1) =~= mseq.take(jj).push(mseq[jj]));
                assert(rows_not_for(mseq.take(jj + 1), cid as int) == mseq.take(jj).push(
                    mseq[jj],
                ).filter(not_in_circle_pred(cid as int)));
            }
            let mrow = &self.members[j];
            if mrow.circle_id != cid {
                kept.push(
                    MemberRow {
                        id: mrow.id,
                        name: mrow.name.clone(),
                        age: mrow.age,
                        grade: mrow.grade,
                        major: mrow.major.clone(),
                        circle_id: mrow.circle_id,
                    },
                );
                proof {
                    assert(member_row_views(kept@) =~= rows_not_for(mseq.take(j + 1), cid as int));
                }
            }
            j = j + 1;
        }
        proof {
            assert(mseq.take(self.members@.len() as int) =~= mseq);
        }
        self.members = kept;
        push_member_rows(&mut self.members, circle, oid, cid);
        self.next_member_id = oid + 1 + (circle.members.len() as i16);
        proof {
            let s1 = self@;
            let ins = inserted_rows(circle@, cid as int, oid as int);
            assert(s1 =~= spec_update(s0, circle@));
            crate::seq_facts::lemma_filter_elems(mseq, not_in_circle_pred(cid as int));
            crate::seq_facts::lemma_filter_distinct_keys(
                mseq,
                not_in_circle_pred(cid as int),
                |r: MemberRowView| r.id,
            );
            let kept_rows = rows_not_for(mseq, cid as int);
            let b = kept_rows.len() as int;
            assert forall|x: int| 0 <= x < s1.circles.len() implies 1 <= (
            #[trigger] s1.circles[x]).id < s1.next_circle_id by {
                assert(s1.circles[x].id == cseq[x].id);
            }
            assert forall|x: int, y: int|
                0 <= x < s1.circles.len() && 0 <= y < s1.circles.len() && x != y implies (
            #[trigger] s1.circles[x]).id != (#[trigger] s1.circles[y]).id by {
                assert(s1.circles[x].id == cseq[x].id);
                assert(s1.circles[y].id == cseq[y].id);
            }
            assert forall|x: int| 0 <= x < s1.members.len() implies 1 <= (
            #[trigger] s1.members[x]).id < s1.next_member_id && 1 <= s1.members[x].circle_id
                < s1.next_circle_id by {
                if x < b {
                    assert(s1.members[x] == kept_rows[x]);
                    assert(mseq.contains(kept_rows[x]));
                    let a = choose|a: int| 0 <= a < mseq.len() && mseq[a] == kept_rows[x];
                    assert(1 <= mseq[a].id < s0.next_member_id);
                } else {
                    assert(s1.members[x] == ins[x - b]);
                    assert(s1.members[x].id == oid + (x - b));
                }
            }
            assert forall|x: int, y: int|
                0 <= x < s1.members.len() && 0 <= y < s1.members.len() && x != y implies (
            #[trigger] s1.members[x]).id != (#[trigger] s1.members[y]).id by {
                if x < b {
                    assert(s1.members[x] == kept_rows[x]);
                    assert(mseq.contains(kept_rows[x]));
                    let a = choose|a: int| 0 <= a < mseq.len() && mseq[a] == kept_rows[x];
                    assert(kept_rows[x].id < s0.next_member_id);
                } else {
                    assert(s1.members[x] == ins[x - b]);
                    assert(s1.members[x].id == oid + (x - b));
                }
                if y < b {
                    assert(s1.members[y] == kept_rows[y]);
                    assert(mseq.contains(kept_rows[y]));
                    let a = choose|a: int| 0 <= a < mseq.len() && mseq[a] == kept_rows[y];
                    assert(kept_rows[y].id < s0.next_member_id);
                } else {
                    assert(s1.members[y] == ins[y - b]);
                    assert(s1.members[y].id == oid + (y - b));
                }
            }
        }
        Ok(())
    }

    /// Removes a circle: its member rows first, then its circle row, so no
    /// member row is ever left pointing at a missing circle.
    pub fn delete(&mut self, circle: &Circle) -> (r: Result<(), Error>)
        requires
            store_inv(old(self)@),
        ensures
            r == Ok::<(), Error>(()),
            final(self)@ == spec_delete(old(self)@, circle@.id),
            store_inv(final(self)@),
    {
        let ghost s0 = self@;
        let ghost cseq = circle_row_views(self.circles@);
        let ghost mseq = member_row_views(self.members@);
        let cid = circle.id.value;
        let mut kept: Vec<MemberRow> = Vec::new();
        let mut j: usize = 0;
        while j < self.members.len()
            invariant
                0 <= j <= self.members@.len(),
                mseq == member_row_views(self.members@),
                cid as int == circle@.id,
                member_row_views(kept@) =~= rows_not_for(mseq.take(j as int), cid as int),
            decreases self.members@.len() - j,
        {
            proof {
                let jj = j as int;
                assert(mseq[jj] == self.members@[jj]@);
                assert(mseq.take(jj + 1) =~= mseq.take(jj).push(mseq[jj]));
                assert(rows_not_for(mseq.take(jj + 1), cid as int) == mseq.take(jj).push(
                    mseq[jj],
                ).filter(not_in_circle_pred(cid as int)));
            }
            let mrow = &self.members[j];
            if mrow.circle_id != cid {
                kept.push(
                    MemberRow {
                        id: mrow.id,
                        name: mrow.name.clone(),
                        age: mrow.age,
                        grade: mrow.grade,
                        major: mrow.major.clone(),
                        circle_id: mrow.circle_id,
                    },
                );
                proof {
                    assert(member_row_views(kept@) =~= rows_not_for(mseq.take(j + 1), cid as int));
                }
            }
            j = j + 1;
        }
        proof {
            assert(mseq.take(self.members@.len() as int) =~= mseq);
        }
        self.members = kept;
        let mut kept_circles: Vec<CircleRow> = Vec::new();
        let mut i: usize = 0;
        while i < self.circles.len()
            invariant
                0 <= i <= self.circles@.len(),
                cseq == circle_row_views(self.circles@),
                cid as int == circle@.id,
                circle_row_views(kept_circles@) =~= circles_without(
                    cseq.take(i as int),
                    cid as int,
                ),
            decreases self.circles@.len() - i,
        {
            proof {
                let ii = i as int;
                assert(cseq[ii] == self.circles@[ii]@);
                assert(cseq.take(ii + 1) =~= cseq.take(ii).push(cseq[ii]));
                assert(circles_without(cseq.take(ii + 1), cid as int) == cseq.take(ii).push(
                    cseq[ii],
                ).filter(circle_id_not_pred(cid as int)));
            }
            let row = &self.circles[i];
            if row.id != cid {
                kept_circles.push(
                    CircleRow {
                        id: row.id,
                        name: row.name.clone(),
                        owner_id: row.owner_id,
                        capacity: row.capacity,
                    },
                );
                proof {
                    assert(circle_row_views(kept_circles@) =~= circles_without(
                        cseq.take(i + 1),
                        cid as int,
                    ));
                }
            }
            i = i + 1;
        }
        proof {
            assert(cseq.take(self.circles@.len() as int) =~= cseq);
        }
        self.circles = kept_circles;
        proof {
            let s1 = self@;
            assert(s1 =~= spec_delete(s0, circle@.id));
            crate::seq_facts::lemma_filter_elems(mseq, not_in_circle_pred(cid as int));
            crate::seq_facts::lemma_filter_distinct_keys(
                mseq,
                not_in_circle_pred(cid as int),
                |r: MemberRowView| r.id,
            );
            crate::seq_facts::lemma_filter_elems(cseq, circle_id_not_pred(cid as int));
            crate::seq_facts::lemma_filter_distinct_keys(
                cseq,
                circle_id_not_pred(cid as int),
                |r: CircleRowView| r.id,
            );
            assert forall|x: int| 0 <= x < s1.circles.len() implies 1 <= (
            #[trigger] s1.circles[x]).id < s1.next_circle_id by {
                assert(cseq.contains(s1.circles[x]));
                let a = choose|a: int| 0 <= a < cseq.len() && cseq[a] == s1.circles[x];
                assert(1 <= cseq[a].id < s0.next_circle_id);
            }
            assert forall|x: int| 0 <= x < s1.members.len() implies 1 <= (
            #[trigger] s1.members[x]).id < s1.next_member_id && 1 <= s1.members[x].circle_id
                < s1.next_circle_id by {
                assert(mseq.contains(s1.members[x]));
                let a = choose|a: int| 0 <= a < mseq.len() && mseq[a] == s1.members[x];
                assert(1 <= mseq[a].id < s0.next_member_id);
            }
        }
        Ok(())
    }
}

/// The aggregate as the store hands it back once persisted: the same data,
/// under the freshly assigned circle and member ids.
pub open spec fn spec_assign_ids(c: CircleView, cid: int, first_id: int) -> CircleView {
    CircleView {
        id: cid,
        name: c.name,
        capacity: c.capacity,
        owner: (MemberView { id: first_id, ..c.owner }),
        members: Seq::new(
            c.members.len(),
            |i: int| MemberView { id: first_id + 1 + i, ..c.members[i] },
        ),
    }
}

/// Law: persisting and fetching round-trip. Creating a well-formed circle
/// in a store that satisfies the table invariant and then fetching the id
/// the store assigned yields the same aggregate, equal up to the freshly
/// assigned identifiers.
pub proof fn lemma_create_then_find(s: StoreView, c: CircleView)
    requires
        store_inv(s),
        circle_wf(c),
        can_persist(s, c),
    ensures
        spec_find(spec_create(s, c), s.next_circle_id) == Ok::<CircleView, Error>(
            spec_assign_ids(c, s.next_circle_id, s.next_member_id),
        ),
{
    broadcast use vstd::seq_lib::group_seq_lib_default, Seq::lemma_filter_push;

    let cid = s.next_circle_id;
    let oid = s.next_member_id;
    let s1 = spec_create(s, c);
    let nr = CircleRowView { id: cid, name: c.name, owner_id: oid, capacity: c.capacity };
    assert forall|i: int| 0 <= i < s.circles.len() implies !(circle_id_pred(cid)(
        #[trigger] s.circles[i],
    )) by {
        assert(s.circles[i].id < cid);
    }
    lemma_filter_none(s.circles, circle_id_pred(cid));
    assert(s1.circles == s.circles.push(nr));
    assert(circles_with(s1.circles, cid) == s.circles.filter(circle_id_pred(cid)).push(nr));
    assert(circles_with(s1.circles, cid) =~= seq![nr]);
    let ins = inserted_rows(c, cid, oid);
    assert forall|i: int| 0 <= i < s.members.len() implies !(in_circle_pred(cid)(
        #[trigger] s.members[i],
    )) by {
        assert(s.members[i].circle_id < cid);
    }
    lemma_filter_none(s.members, in_circle_pred(cid));
    assert forall|i: int| 0 <= i < ins.len() implies in_circle_pred(cid)(#[trigger] ins[i]) by {
        if i == 0 {
        } else {
            assert(ins[i] == row_of_member(c.members[i - 1], oid + i, cid));
        }
    }
    lemma_filter_all(ins, in_circle_pred(cid));
    assert(rows_for(s1.members, cid) == rows_for(s.members, cid) + rows_for(ins, cid));
    assert(rows_for(s1.members, cid) =~= ins);
    lemma_inserted_rows_rehydrate(c, cid, oid);
    assert(spec_row_set(s1, nr) =~= (CircleDataView {
        id: cid,
        name: c.name,
        owner_id: oid,
        capacity: c.capacity,
        members: datas_of_rows(ins),
    }));
    assert(spec_find(s1, cid) == spec_from_data(spec_row_set(s1, nr)));
}

/// A persisted circle's freshly written rows rehydrate to the aggregate
/// itself, under the assigned identifiers.
proof fn lemma_inserted_rows_rehydrate(c: CircleView, cid: int, first_id: int)
    requires
        circle_wf(c),
    ensures
        spec_from_data(
            CircleDataView {
                id: cid,
                name: c.name,
                owner_id: first_id,
                capacity: c.capacity,
                members: datas_of_rows(inserted_rows(c, cid, first_id)),
            },
        ) == Ok::<CircleView, Error>(spec_assign_ids(c, cid, first_id)),
{
    let oid = first_id;
    let ins = inserted_rows(c, cid, oid);
    let ac = spec_assign_ids(c, cid, oid);
    assert forall|j: int| 0 <= j < ins.len() implies datas_of_rows(ins)[j] == spec_to_data(
        ac,
    ).members[j] by {
        if j == 0 {
            assert(datas_of_rows(ins)[0] == data_of_row(row_of_member(c.owner, oid, cid)));
            assert(spec_to_data(ac).members[0] == data_of_member(ac.owner));
        } else {
            assert(datas_of_rows(ins)[j] == data_of_row(
                row_of_member(c.members[j - 1], oid + j, cid),
            ));
            assert(spec_to_data(ac).members[j] == data_of_member(ac.members[j - 1]));
            assert(ac.members[j - 1] == (MemberView { id: oid + j, ..c.members[j - 1] }));
        }
    }
    assert(datas_of_rows(ins) =~= spec_to_data(ac).members);
    assert((CircleDataView {
        id: cid,
        name: c.name,
        owner_id: oid,
        capacity: c.capacity,
        members: datas_of_rows(ins),
    }) =~= spec_to_data(ac));
    assert(member_wf(ac.owner));
    assert forall|i: int| 0 <= i < ac.members.len() implies member_wf(#[trigger] ac.members[i]) by {
        assert(ac.members[i] == (MemberView { id: oid + 1 + i, ..c.members[i] }));
        assert(member_wf(c.members[i]));
    }
    assert(circle_wf(ac));
    assert forall|i: int| 0 <= i < ac.members.len() implies (#[trigger] ac.members[i]).id
        != ac.owner.id by {
        assert(ac.members[i].id == oid + 1 + i);
    }
    lemma_mapping_round_trip(ac);
}

/// Law: rewriting and fetching round-trip. Updating a stored circle to a
/// well-formed aggregate and then fetching its id yields that aggregate,
/// equal up to the freshly assigned member identifiers.
pub proof fn lemma_update_then_find(s: StoreView, c: CircleView)
    requires
        store_inv(s),
        circle_wf(c),
        can_replace(s, c),
        circles_with(s.circles, c.id).len() > 0,
    ensures
        spec_find(spec_update(s, c), c.id) == Ok::<CircleView, Error>(
            spec_assign_ids(c, c.id, s.next_member_id),
        ),
{
    broadcast use vstd::seq_lib::group_seq_lib_default, Seq::lemma_filter_push;

    let id = c.id;
    let oid = s.next_member_id;
    let s1 = spec_update(s, c);
    let nr = CircleRowView { id, name: c.name, owner_id: oid, capacity: c.capacity };
    crate::seq_facts::lemma_filter_elems(s.circles, circle_id_pred(id));
    let w = circles_with(s.circles, id)[0];
    assert(w.id == id);
    let a = choose|a: int| 0 <= a < s.circles.len() && s.circles[a] == w;
    let mapped = s1.circles;
    assert(mapped.len() == s.circles.len());
    assert forall|x: int| 0 <= x < mapped.len() implies #[trigger] mapped[x] == (
    if s.circles[x].id == id {
        nr
    } else {
        s.circles[x]
    }) by {
        assert(mapped[x] =~= (if s.circles[x].id == id {
            nr
        } else {
            s.circles[x]
        }));
    }
    assert forall|x: int| 0 <= x < mapped.len() && x != a implies (#[trigger] mapped[x]).id
        != id by {
        assert(s.circles[x].id != s.circles[a].id);
        assert(mapped[x] == s.circles[x]);
    }
    assert(mapped[a] == nr);
    assert(mapped =~= (mapped.take(a) + seq![nr]) + mapped.skip(a + 1));
    assert(circles_with(mapped, id) == ((mapped.take(a) + seq![nr]) + mapped.skip(a + 1)).filter(
        circle_id_pred(id),
    ));
    assert forall|x: int| 0 <= x < mapped.take(a).len() implies !(circle_id_pred(id)(
        #[trigger] mapped.take(a)[x],
    )) by {
        assert(mapped.take(a)[x] == mapped[x]);
    }
    lemma_filter_none(mapped.take(a), circle_id_pred(id));
    assert forall|x: int| 0 <= x < mapped.skip(a + 1).len() implies !(circle_id_pred(id)(
        #[trigger] mapped.skip(a + 1)[x],
    )) by {
        assert(mapped.skip(a + 1)[x] == mapped[a + 1 + x]);
    }
    lemma_filter_none(mapped.skip(a + 1), circle_id_pred(id));
    crate::seq_facts::lemma_filter_singleton(nr, circle_id_pred(id));
    assert(circles_with(mapped, id) =~= seq![nr]);
    let kept = rows_not_for(s.members, id);
    let ins = inserted_rows(c, id, oid);
    assert(s1.members == kept + ins);
    assert forall|x: int| 0 <= x < kept.len() implies !(in_circle_pred(id)(
        #[trigger] kept[x],
    )) by {
        assert(not_in_circle_pred(id)(kept[x]));
    }
    lemma_filter_none(kept, in_circle_pred(id));
    assert forall|i: int| 0 <= i < ins.len() implies in_circle_pred(id)(#[trigger] ins[i]) by {
        if i == 0 {
        } else {
            assert(ins[i] == row_of_member(c.members[i - 1], oid + i, id));
        }
    }
    lemma_filter_all(ins, in_circle_pred(id));
    assert(rows_for(s1.members, id) == rows_for(kept, id) + rows_for(ins, id));
    assert(rows_for(s1.members, id) =~= ins);
    lemma_inserted_rows_rehydrate(c, id, oid);
    assert(spec_row_set(s1, nr) =~= (CircleDataView {
        id,
        name: c.name,
        owner_id: oid,
        capacity: c.capacity,
        members: datas_of_rows(ins),
    }));
    assert(spec_find(s1, id) == spec_from_data(spec_row_set(s1, nr)));
}

} // verus!
