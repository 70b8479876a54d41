//! Mathematical models of members and teams, and what each operation of the
//! directory does to them.

use vstd::prelude::*;
use crate::member::Job;

verus! {

/// What a member is: its identifier, its name, its state, and the identifiers
/// of its deputy and of the team that holds it.
pub struct MemberView {
    pub id: Seq<char>,
    pub name: Seq<char>,
    pub active: bool,
    pub age: int,
    pub job: Job,
    /// Earlier roles, oldest first.
    pub job_history: Seq<Job>,
    /// The identifier of the member that stands in for this one.
    pub deputy: Option<Seq<char>>,
    /// The identifier of the team that holds this member.
    pub team: Option<Seq<char>>,
}

impl MemberView {
    /// A member right after creation: active, without history, without team.
    pub open spec fn created(
        id: Seq<char>,
        name: Seq<char>,
        job: Job,
        age: int,
        deputy: Option<Seq<char>>,
    ) -> MemberView {
        MemberView {
            id,
            name,
            active: true,
            age,
            job,
            job_history: Seq::empty(),
            deputy,
            team: None,
        }
    }

    /// The member after a change of role: the role it had joins the history.
    pub open spec fn set_job(self, job: Job) -> MemberView {
        MemberView { job, job_history: self.job_history.push(self.job), ..self }
    }

    /// The member at another age.
    pub open spec fn set_age(self, age: int) -> MemberView {
        MemberView { age, ..self }
    }

    /// The member with the member identified by `deputy` as its deputy.
    pub open spec fn set_deputy(self, deputy: Seq<char>) -> MemberView {
        MemberView { deputy: Some(deputy), ..self }
    }

    /// The member with its back-reference pointing at `team`.
    pub open spec fn attach(self, team: Seq<char>) -> MemberView {
        MemberView { team: Some(team), ..self }
    }

    /// The member once it is hidden from lookups by name.
    pub open spec fn deactivate(self) -> MemberView {
        MemberView { active: false, ..self }
    }

    /// Whether a lookup by `name` sees this member: inactive members are
    /// invisible to it.
    pub open spec fn answers_to(self, name: Seq<char>) -> bool {
        self.active && self.name == name
    }
}

/// `i` is the first place in `members` at which `pick` holds.
pub open spec fn is_first(
    members: Seq<MemberView>,
    pick: spec_fn(MemberView) -> bool,
    i: int,
) -> bool {
    &&& 0 <= i < members.len()
    &&& pick(members[i])
    &&& forall|j: int| 0 <= j < i ==> !pick(#[trigger] members[j])
}

/// The first place in `members` at which `pick` holds, if there is one.
pub open spec fn first(members: Seq<MemberView>, pick: spec_fn(MemberView) -> bool) -> Option<
    int,
> {
    if exists|i: int| is_first(members, pick, i) {
        Some(choose|i: int| is_first(members, pick, i))
    } else {
        None
    }
}

/// What a team is: its identifier, its name and its members in the order in
/// which they were added.
pub struct TeamView {
    pub id: Seq<char>,
    pub name: Seq<char>,
    pub members: Seq<MemberView>,
}

impl TeamView {
    /// A team right after creation.
    pub open spec fn created(id: Seq<char>, name: Seq<char>) -> TeamView {
        TeamView { id, name, members: Seq::empty() }
    }

    /// The invariant of a team: no two members share an identifier, and every
    /// member's back-reference points at this team.
    pub open spec fn wf(self) -> bool {
        &&& forall|i: int, j: int|
            0 <= i < j < self.members.len() ==> (#[trigger] self.members[i]).id != (
            #[trigger] self.members[j]).id
        &&& forall|i: int|
            0 <= i < self.members.len() ==> (#[trigger] self.members[i]).team == Some(self.id)
    }

    /// `i` is the one place at which the team holds the identifier `id`, and
    /// the member there points back at this team.
    pub open spec fn is_only_place(self, i: int, id: Seq<char>) -> bool {
        &&& 0 <= i < self.members.len()
        &&& self.members[i].id == id
        &&& self.members[i].team == Some(self.id)
        &&& forall|j: int|
            0 <= j < self.members.len() && (#[trigger] self.members[j]).id == id ==> j == i
    }

    /// The team holds the identifier `id` at exactly one place, and the member
    /// there points back at this team.
    pub open spec fn holds_once(self, id: Seq<char>) -> bool {
        exists|i: int| self.is_only_place(i, id)
    }

    /// The place of the member with identifier `id`.
    pub open spec fn position_of(self, id: Seq<char>) -> Option<int> {
        first(self.members, |m: MemberView| m.id == id)
    }

    /// The place of the first active member called `name`.
    pub open spec fn first_active(self, name: Seq<char>) -> Option<int> {
        first(self.members, |m: MemberView| m.answers_to(name))
    }

    /// Some member of this team names `id` as its deputy.
    pub open spec fn names_deputy(self, id: Seq<char>) -> bool {
        exists|i: int|
            0 <= i < self.members.len() && (#[trigger] self.members[i]).deputy == Some(id)
    }

    /// `m` serves as a deputy in this team: its back-reference points at this
    /// team, and some member of this team names it as deputy. A member without
    /// a team is nobody's deputy, and deputies named in other teams do not
    /// count.
    pub open spec fn relies_on(self, m: MemberView) -> bool {
        m.team == Some(self.id) && self.names_deputy(m.id)
    }

    /// The team after `m` was offered to it: unchanged if it already holds
    /// `m`'s identifier, else with `m` at the end, pointing back at this team.
    pub open spec fn add_member(self, m: MemberView) -> TeamView {
        if self.position_of(m.id) is Some {
            self
        } else {
            TeamView { members: self.members.push(m.attach(self.id)), ..self }
        }
    }

    /// The first active member called `name`.
    pub open spec fn find_member_by_name(self, name: Seq<char>) -> Option<MemberView> {
        match self.first_active(name) {
            Some(i) => Some(self.members[i]),
            None => None,
        }
    }

    /// The member with identifier `id`, active or not.
    pub open spec fn find_member_by_id(self, id: Seq<char>) -> Option<MemberView> {
        match self.position_of(id) {
            Some(i) => Some(self.members[i]),
            None => None,
        }
    }

    /// The members whose current role is `job`, active or not, in the order in
    /// which they were added.
    pub open spec fn find_members_by_job(self, job: Job) -> Seq<MemberView> {
        self.members.filter(|m: MemberView| m.job == job)
    }

    /// Whether the member called `name` may be deactivated: there is an active
    /// member of that name, and the first such is not serving as a deputy.
    pub open spec fn can_deactivate(self, name: Seq<char>) -> bool {
        match self.first_active(name) {
            Some(i) => !self.relies_on(self.members[i]),
            None => false,
        }
    }

    /// The team after an attempt to deactivate the member called `name`.
    pub open spec fn deactivate_member_by_name(self, name: Seq<char>) -> TeamView {
        if self.can_deactivate(name) {
            let i = self.first_active(name)->0;
            TeamView { members: self.members.update(i, self.members[i].deactivate()), ..self }
        } else {
            self
        }
    }

    /// The team after an attempt to remove the member called `name`: where the
    /// deactivation is allowed, the member it would deactivate leaves, and
    /// nobody else does.
    pub open spec fn remove_member_by_name(self, name: Seq<char>) -> TeamView {
        if self.can_deactivate(name) {
            TeamView { members: self.members.remove(self.first_active(name)->0), ..self }
        } else {
            self
        }
    }

    /// Nobody who is inactive in `self` is active in `next`.
    pub open spec fn revives_nobody(self, next: TeamView) -> bool {
        forall|i: int, j: int|
            0 <= i < self.members.len() && 0 <= j < next.members.len() && !(
            #[trigger] self.members[i]).active && (#[trigger] next.members[j]).id
                == self.members[i].id ==> !next.members[j].active
    }

    /// The team after `change` was applied to the member with identifier
    /// `id`; unchanged where it holds no such member.
    pub open spec fn change_member(
        self,
        id: Seq<char>,
        change: spec_fn(MemberView) -> MemberView,
    ) -> TeamView {
        match self.position_of(id) {
            Some(i) => TeamView { members: self.members.update(i, change(self.members[i])), ..self },
            None => self,
        }
    }

    /// The team after the member with identifier `id` changed its role.
    pub open spec fn set_member_job(self, id: Seq<char>, job: Job) -> TeamView {
        self.change_member(id, |m: MemberView| m.set_job(job))
    }

    /// The team after the member with identifier `id` changed its age.
    pub open spec fn set_member_age(self, id: Seq<char>, age: int) -> TeamView {
        self.change_member(id, |m: MemberView| m.set_age(age))
    }

    /// The team after the member with identifier `id` took the member
    /// identified by `deputy` as its deputy.
    pub open spec fn set_member_deputy(self, id: Seq<char>, deputy: Seq<char>) -> TeamView {
        self.change_member(id, |m: MemberView| m.set_deputy(deputy))
    }
}

/// A place at which `pick` holds and before which it holds nowhere is the
/// first place.
pub proof fn lemma_first_is(members: Seq<MemberView>, pick: spec_fn(MemberView) -> bool, i: int)
    requires
        is_first(members, pick, i),
    ensures
        first(members, pick) == Some(i),
{
    let k = choose|k: int| is_first(members, pick, k);
    assert(is_first(members, pick, k));
    if k < i {
        assert(!pick(members[k]));
    }
    if i < k {
        assert(!pick(members[i]));
    }
}

/// Where `pick` holds nowhere, there is no first place.
pub proof fn lemma_first_is_none(members: Seq<MemberView>, pick: spec_fn(MemberView) -> bool)
    requires
        forall|j: int| 0 <= j < members.len() ==> !pick(#[trigger] members[j]),
    ensures
        first(members, pick) is None,
{
}

/// What `first` returns is the first place, and `None` means that `pick` holds
/// nowhere.
pub proof fn lemma_first_facts(members: Seq<MemberView>, pick: spec_fn(MemberView) -> bool)
    ensures
        match first(members, pick) {
            Some(i) => is_first(members, pick, i),
            None => forall|j: int| 0 <= j < members.len() ==> !pick(#[trigger] members[j]),
        },
{
    if first(members, pick) is None {
        assert forall|j: int| 0 <= j < members.len() implies !pick(#[trigger] members[j]) by {
            if pick(members[j]) {
                lemma_some_first(members, pick, j);
            }
        }
    }
}

/// Where `pick` holds somewhere, there is a first place.
proof fn lemma_some_first(members: Seq<MemberView>, pick: spec_fn(MemberView) -> bool, j: int)
    requires
        0 <= j < members.len(),
        pick(members[j]),
    ensures
        exists|i: int| is_first(members, pick, i),
    decreases j,
{
    if exists|k: int| 0 <= k < j && pick(#[trigger] members[k]) {
        let k = choose|k: int| 0 <= k < j && pick(#[trigger] members[k]);
        lemma_some_first(members, pick, k);
    } else {
        assert(is_first(members, pick, j));
    }
}

} // verus!
