//! Teams: a named collection of members and the rules of membership.

use vstd::prelude::*;
use crate::ident::{fresh_id, is_random_uuid_text};
use crate::laws::{
    lemma_add_member_holds_once, lemma_add_member_keeps_wf, lemma_change_member_keeps_wf,
    lemma_deactivate_keeps_wf, lemma_remove_after_deactivate, lemma_remove_keeps_wf,
    lemma_remove_spares,
};
use crate::member::{Job, Member};
use crate::model::{
    lemma_first_facts, lemma_first_is, lemma_first_is_none, MemberView, TeamView,
};

verus! {

/// A named collection of members, in the order in which they were added.
///
/// The team owns the record of each of its members, and that record points
/// back at this team. Changes to a member of the team go through the team.
/// Nothing keeps a second team from holding a record under the same
/// identifier: a copy that another team takes becomes that team's own record,
/// points at that team, and changes apart from this one.
#[derive(Debug)]
pub struct Team {
    id: String,
    name: String,
    members: Vec<Member>,
}

/// The models of a sequence of members.
pub open spec fn views_of(members: Seq<Member>) -> Seq<MemberView> {
    members.map_values(|m: Member| m@)
}

/// The models of a sequence of borrowed members.
pub open spec fn views_of_refs(members: Seq<&Member>) -> Seq<MemberView> {
    members.map_values(|m: &Member| m@)
}

impl View for Team {
    type V = TeamView;

    closed spec fn view(&self) -> TeamView {
        TeamView { id: self.id@, name: self.name@, members: views_of(self.members@) }
    }
}

impl Team {
    #[verifier::type_invariant]
    closed spec fn inv(&self) -> bool {
        self@.wf()
    }

    /// Creates an empty team under a freshly drawn identifier. Which
    /// identifier is drawn is left open, and nothing says that it differs from
    /// an earlier one.
    ///
    /// # Panics
    ///
    /// The identifier is a random UUID. Drawing it panics if the operating
    /// system cannot supply random bytes. Use [`Team::with_id`] to bring an
    /// identifier of your own.
    pub fn new(name: &str) -> (t: Team)
        ensures
            is_random_uuid_text(t@.id),
            t@ == TeamView::created(t@.id, name@),
            t@.wf(),
    {
        Team::with_id(fresh_id(), name)
    }

    /// Creates an empty team under the identifier `id`.
    pub fn with_id(id: String, name: &str) -> (t: Team)
        ensures
            t@ == TeamView::created(id@, name@),
            t@.wf(),
    {
        let members: Vec<Member> = Vec::new();
        assert(views_of(members@) =~= Seq::empty());
        Team { id, name: name.to_owned(), members }
    }

    /// The team's identifier, fixed at creation.
    pub fn get_id(&self) -> (id: &str)
        ensures
            id@ == self@.id,
    {
        self.id.as_str()
    }

    /// The team's name, fixed at creation.
    pub fn name(&self) -> (name: &str)
        ensures
            name@ == self@.name,
    {
        self.name.as_str()
    }

    /// The members in the order in which they were added. No two of them
    /// share an identifier, and each points back at this team.
    pub fn members(&self) -> (members: &Vec<Member>)
        ensures
            views_of(members@) == self@.members,
            self@.wf(),
    {
        proof {
            use_type_invariant(self);
        }
        &self.members
    }

    /// The number of members, inactive ones included.
    pub fn len(&self) -> (n: usize)
        ensures
            n == self@.members.len(),
    {
        self.members.len()
    }

    /// Takes `member` into the team, unless the team already holds a member
    /// with that identifier: then nothing changes. A member that is taken
    /// joins at the end, and its back-reference is set to this team, whatever
    /// it was before.
    pub fn add_member(&mut self, member: Member)
        ensures
            final(self)@ == old(self)@.add_member(member@),
            final(self)@.wf(),
            final(self)@.holds_once(member@.id),
    {
        proof {
            use_type_invariant(&*self);
            lemma_add_member_holds_once(old(self)@, member@);
        }
        if self.index_of_id(&member.id_string()).is_some() {
            return ;
        }
        let ghost offered = member@;
        let mut member = member;
        member.attach(self.id.clone());
        let mut members: Vec<Member> = Vec::new();
        std::mem::swap(&mut members, &mut self.members);
        proof {
            assert(views_of(members@.push(member)) =~= views_of(members@).push(member@));
            lemma_add_member_keeps_wf(old(self)@, offered);
        }
        members.push(member);
        self.members = members;
    }

    /// The first active member called `name`. Inactive members are never
    /// returned.
    pub fn find_member_by_name(&self, name: &str) -> (found: Option<&Member>)
        ensures
            match found {
                Some(m) => self@.find_member_by_name(name@) == Some(m@),
                None => self@.find_member_by_name(name@) is None,
            },
            found matches Some(m) ==> m@.active && m@.name == name@,
    {
        let key = name.to_owned();
        match self.index_of_active(&key) {
            Some(i) => {
                proof {
                    lemma_first_facts(self@.members, |m: MemberView| m.answers_to(name@));
                }
                Some(&self.members[i])
            },
            None => None,
        }
    }

    /// The member with identifier `id`, active or not.
    pub fn find_member_by_id(&self, id: &str) -> (found: Option<&Member>)
        ensures
            match found {
                Some(m) => self@.find_member_by_id(id@) == Some(m@),
                None => self@.find_member_by_id(id@) is None,
            },
            found matches Some(m) ==> m@.id == id@,
    {
        let key = id.to_owned();
        match self.index_of_id(&key) {
            Some(i) => {
                proof {
                    lemma_first_facts(self@.members, |m: MemberView| m.id == id@);
                }
                Some(&self.members[i])
            },
            None => None,
        }
    }

    /// All members whose current role is `job`, active or not, in the order in
    /// which they were added.
    pub fn find_members_by_job(&self, job: Job) -> (found: Vec<&Member>)
        ensures
            views_of_refs(found@) == self@.find_members_by_job(job),
    {
        let ghost pick = |m: MemberView| m.job == job;
        let mut found: Vec<&Member> = Vec::new();
        let mut i: usize = 0;
        assert(self@.members.take(0).filter(pick) =~= Seq::empty());
        assert(views_of_refs(found@) =~= Seq::empty());
        while i < self.members.len()
            invariant
                i <= self.members.len(),
                pick == (|m: MemberView| m.job == job),
                views_of_refs(found@) == self@.members.take(i as int).filter(pick),
            decreases self.members.len() - i,
        {
            let ghost before = found@;
            proof {
                self@.members.take(i as int).lemma_filter_push(self@.members[i as int], pick);
                assert(self@.members.take(i as int).push(self@.members[i as int])
                    =~= self@.members.take(i + 1));
            }
            match self.members[i].has_job(job) {
                Some(m) => {
                    found.push(m);
                    assert(views_of_refs(before.push(m)) =~= views_of_refs(before).push(m@));
                },
                None => {},
            }
            i += 1;
        }
        assert(self@.members.take(i as int) =~= self@.members);
        found
    }

    /// Marks the first active member called `name` as inactive and returns
    /// `true`. Returns `false` and changes nothing where no active member has
    /// that name, or where that member serves as a deputy in this team.
    pub fn deactivate_member_by_name(&mut self, name: &str) -> (done: bool)
        ensures
            done == old(self)@.can_deactivate(name@),
            final(self)@ == old(self)@.deactivate_member_by_name(name@),
            final(self)@.wf(),
            !done ==> final(self)@ == old(self)@,
            (old(self)@.find_member_by_name(name@) matches Some(m) && old(self)@.relies_on(m))
                ==> !done && final(self)@ == old(self)@,
    {
        let key = name.to_owned();
        self.deactivate_first(&key).is_some()
    }

    /// Deactivates the first active member called `name` as
    /// [`Team::deactivate_member_by_name`] does and, where that succeeds,
    /// deletes that member from the team and returns `true`. Nobody else
    /// leaves: not another member of the same name, active or not. Returns
    /// `false` and changes nothing where the deactivation is refused, so a
    /// member that serves as a deputy is never removed.
    pub fn remove_member_by_name(&mut self, name: &str) -> (done: bool)
        ensures
            done == old(self)@.can_deactivate(name@),
            final(self)@ == old(self)@.remove_member_by_name(name@),
            final(self)@.wf(),
            !done ==> final(self)@ == old(self)@,
            done ==> final(self)@.members == old(self)@.members.remove(
                old(self)@.first_active(name@)->0,
            ),
            forall|i: int|
                0 <= i < old(self)@.members.len() && (old(self)@.relies_on(
                    #[trigger] old(self)@.members[i],
                ) || !old(self)@.members[i].active) ==> final(self)@.members.contains(
                    old(self)@.members[i],
                ),
    {
        proof {
            use_type_invariant(&*self);
            lemma_remove_keeps_wf(old(self)@, name@);
            lemma_remove_after_deactivate(old(self)@, name@);
            lemma_remove_spares(old(self)@, name@);
        }
        let key = name.to_owned();
        match self.deactivate_first(&key) {
            Some(i) => {
                let mut members: Vec<Member> = Vec::new();
                std::mem::swap(&mut members, &mut self.members);
                let ghost before = members@;
                let _ = members.remove(i);
                proof {
                    assert(views_of(members@) =~= views_of(before).remove(i as int));
                    assert(views_of(before).remove(i as int) =~= old(self)@.members.remove(
                        i as int,
                    ));
                }
                self.members = members;
                true
            },
            None => false,
        }
    }

    /// Changes the role of the member with identifier `id` as
    /// [`Member::set_job`] does. Returns whether the team holds such a member.
    pub fn set_member_job(&mut self, id: &str, job: Job) -> (found: bool)
        ensures
            found == old(self)@.position_of(id@) is Some,
            final(self)@ == old(self)@.set_member_job(id@, job),
            final(self)@.wf(),
    {
        proof {
            use_type_invariant(&*self);
        }
        let key = id.to_owned();
        match self.index_of_id(&key) {
            Some(i) => {
                let mut members: Vec<Member> = Vec::new();
                std::mem::swap(&mut members, &mut self.members);
                let ghost before = members@;
                members[i].set_job(job);
                proof {
                    assert(views_of(members@) =~= views_of(before).update(
                        i as int,
                        before[i as int]@.set_job(job),
                    ));
                    lemma_change_member_keeps_wf(old(self)@, id@, |m: MemberView| m.set_job(job));
                }
                self.members = members;
                true
            },
            None => false,
        }
    }

    /// Replaces the age of the member with identifier `id`. Returns whether
    /// the team holds such a member.
    pub fn set_member_age(&mut self, id: &str, age: i32) -> (found: bool)
        ensures
            found == old(self)@.position_of(id@) is Some,
            final(self)@ == old(self)@.set_member_age(id@, age as int),
            final(self)@.wf(),
    {
        proof {
            use_type_invariant(&*self);
        }
        let key = id.to_owned();
        match self.index_of_id(&key) {
            Some(i) => {
                let mut members: Vec<Member> = Vec::new();
                std::mem::swap(&mut members, &mut self.members);
                let ghost before = members@;
                members[i].set_age(age);
                proof {
                    assert(views_of(members@) =~= views_of(before).update(
                        i as int,
                        before[i as int]@.set_age(age as int),
                    ));
                    lemma_change_member_keeps_wf(
                        old(self)@,
                        id@,
                        |m: MemberView| m.set_age(age as int),
                    );
                }
                self.members = members;
                true
            },
            None => false,
        }
    }

    /// Makes the member with identifier `deputy` the deputy of the member
    /// with identifier `id`. The deputy may be a member of this team, of
    /// another, or of none. Returns whether the team holds a member with
    /// identifier `id`.
    pub fn set_member_deputy(&mut self, id: &str, deputy: &str) -> (found: bool)
        ensures
            found == old(self)@.position_of(id@) is Some,
            final(self)@ == old(self)@.set_member_deputy(id@, deputy@),
            final(self)@.wf(),
    {
        proof {
            use_type_invariant(&*self);
        }
        let key = id.to_owned();
        match self.index_of_id(&key) {
            Some(i) => {
                let mut members: Vec<Member> = Vec::new();
                std::mem::swap(&mut members, &mut self.members);
                let ghost before = members@;
                members[i].set_deputy_id(deputy.to_owned());
                proof {
                    assert(views_of(members@) =~= views_of(before).update(
                        i as int,
                        before[i as int]@.set_deputy(deputy@),
                    ));
                    lemma_change_member_keeps_wf(
                        old(self)@,
                        id@,
                        |m: MemberView| m.set_deputy(deputy@),
                    );
                }
                self.members = members;
                true
            },
            None => false,
        }
    }

    /// Whether `id` is this team's identifier.
    pub(crate) fn id_is(&self, id: &String) -> (b: bool)
        ensures
            b == (self@.id == id@),
    {
        self.id == *id
    }

    /// Whether some member of this team names `id` as its deputy.
    pub(crate) fn names_deputy(&self, id: &String) -> (b: bool)
        ensures
            b == self@.names_deputy(id@),
    {
        let mut i: usize = 0;
        while i < self.members.len()
            invariant
                i <= self.members.len(),
                forall|j: int| 0 <= j < i ==> (#[trigger] self@.members[j]).deputy != Some(id@),
            decreases self.members.len() - i,
        {
            if self.members[i].names_deputy(id) {
                assert(self@.members[i as int].deputy == Some(id@));
                return true;
            }
            i += 1;
        }
        false
    }

    /// Deactivates the first active member called `name`, unless it serves
    /// as a deputy in this team, and returns the place at which it stands.
    fn deactivate_first(&mut self, name: &String) -> (place: Option<usize>)
        ensures
            final(self)@ == old(self)@.deactivate_member_by_name(name@),
            final(self)@.wf(),
            match place {
                Some(i) => old(self)@.can_deactivate(name@) && old(self)@.first_active(name@)
                    == Some(i as int),
                None => !old(self)@.can_deactivate(name@),
            },
    {
        proof {
            use_type_invariant(&*self);
        }
        match self.index_of_active(name) {
            Some(i) => {
                if self.members[i].is_deputy(self) {
                    None
                } else {
                    let mut members: Vec<Member> = Vec::new();
                    std::mem::swap(&mut members, &mut self.members);
                    let ghost before = members@;
                    members[i].deactivate();
                    proof {
                        assert(views_of(members@) =~= views_of(before).update(
                            i as int,
                            before[i as int]@.deactivate(),
                        ));
                        lemma_deactivate_keeps_wf(old(self)@, name@);
                    }
                    self.members = members;
                    Some(i)
                }
            },
            None => None,
        }
    }

    /// The place of the member with identifier `id`.
    fn index_of_id(&self, id: &String) -> (found: Option<usize>)
        ensures
            match found {
                Some(i) => self@.position_of(id@) == Some(i as int),
                None => self@.position_of(id@) is None,
            },
    {
        let ghost pick = |m: MemberView| m.id == id@;
        let mut i: usize = 0;
        while i < self.members.len()
            invariant
                i <= self.members.len(),
                pick == (|m: MemberView| m.id == id@),
                forall|j: int| 0 <= j < i ==> !pick(#[trigger] self@.members[j]),
            decreases self.members.len() - i,
        {
            if self.members[i].id_is(id) {
                proof {
                    lemma_first_is(self@.members, pick, i as int);
                }
                return Some(i);
            }
            i += 1;
        }
        proof {
            lemma_first_is_none(self@.members, pick);
        }
        None
    }

    /// The place of the first active member called `name`.
    fn index_of_active(&self, name: &String) -> (found: Option<usize>)
        ensures
            match found {
                Some(i) => self@.first_active(name@) == Some(i as int),
                None => self@.first_active(name@) is None,
            },
    {
        let ghost pick = |m: MemberView| m.answers_to(name@);
        let mut i: usize = 0;
        while i < self.members.len()
            invariant
                i <= self.members.len(),
                pick == (|m: MemberView| m.answers_to(name@)),
                forall|j: int| 0 <= j < i ==> !pick(#[trigger] self@.members[j]),
            decreases self.members.len() - i,
        {
            if self.members[i].answers_to(name) {
                proof {
                    lemma_first_is(self@.members, pick, i as int);
                }
                return Some(i);
            }
            i += 1;
        }
        proof {
            lemma_first_is_none(self@.members, pick);
        }
        None
    }
}

} // verus!
