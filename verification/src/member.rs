//! Members: one person's state and the operations that change it.

use vstd::prelude::*;
use crate::ident::{fresh_id, is_random_uuid_text};
use crate::model::MemberView;
use crate::team::Team;

verus! {

/// The roles a member can hold.
#[derive(Debug, Clone, Copy, PartialEq, Eq, Structural)]
pub enum Job {
    Boss,
    Writer,
    Blogger,
    Developer,
    Cyclist,
}

/// A person tracked by the directory.
///
/// A member refers to its deputy and to its team by identifier. The team's
/// identifier is written by [`crate::team::Team::add_member`] alone. A value
/// of this type is one record: a team that takes it owns it from then on, and
/// a copy kept elsewhere does not follow what the team does to its record.
#[derive(Debug, Clone)]
pub struct Member {
    id: String,
    name: String,
    active: bool,
    age: i32,
    job: Job,
    job_history: Vec<Job>,
    deputy: Option<String>,
    team: Option<String>,
}

/// The text of an optional string.
pub open spec fn text_of(s: Option<String>) -> Option<Seq<char>> {
    match s {
        Some(s) => Some(s@),
        None => None,
    }
}

/// The identifier of an optional member.
pub open spec fn id_of(m: Option<&Member>) -> Option<Seq<char>> {
    match m {
        Some(m) => Some(m@.id),
        None => None,
    }
}

impl View for Member {
    type V = MemberView;

    closed spec fn view(&self) -> MemberView {
        MemberView {
            id: self.id@,
            name: self.name@,
            active: self.active,
            age: self.age as int,
            job: self.job,
            job_history: self.job_history@,
            deputy: text_of(self.deputy),
            team: text_of(self.team),
        }
    }
}

impl Member {
    /// Creates a member under a freshly drawn identifier: active, without
    /// history and without team. The deputy may be any member, on a team or
    /// not.
    ///
    /// Which identifier is drawn is left open, and nothing says that it
    /// differs from an earlier one; everything else is fixed.
    ///
    /// # Panics
    ///
    /// The identifier is a random UUID. Drawing it panics if the operating
    /// system cannot supply random bytes. Use [`Member::with_id`] to bring an
    /// identifier of your own.
    pub fn new(name: &str, job: Job, age: i32, deputy: Option<&Member>) -> (m: Member)
        ensures
            is_random_uuid_text(m@.id),
            m@ == MemberView::created(m@.id, name@, job, age as int, id_of(deputy)),
    {
        Member::with_id(fresh_id(), name, job, age, deputy)
    }

    /// Creates a member under the identifier `id`: active, without history and
    /// without team.
    pub fn with_id(id: String, name: &str, job: Job, age: i32, deputy: Option<&Member>) -> (m:
        Member)
        ensures
            m@ == MemberView::created(id@, name@, job, age as int, id_of(deputy)),
    {
        let deputy = match deputy {
            Some(d) => Some(d.id.clone()),
            None => None,
        };
        Member {
            id,
            name: name.to_owned(),
            active: true,
            age,
            job,
            job_history: Vec::new(),
            deputy,
            team: None,
        }
    }

    /// The member's identifier, fixed at creation.
    pub fn get_id(&self) -> (id: &str)
        ensures
            id@ == self@.id,
    {
        self.id.as_str()
    }

    /// Appends the current role to the history, then takes the new role. The
    /// history grows by exactly one entry on every call, also when the role
    /// stays the same, and the new entry is the role held until now.
    pub fn set_job(&mut self, job: Job)
        ensures
            final(self)@ == old(self)@.set_job(job),
            final(self)@.job_history.len() == old(self)@.job_history.len() + 1,
            final(self)@.job_history.last() == old(self)@.job,
    {
        self.job_history.push(self.job);
        self.job = job;
    }

    /// Replaces the age. Any value is taken.
    pub fn set_age(&mut self, age: i32)
        ensures
            final(self)@ == old(self)@.set_age(age as int),
    {
        self.age = age;
    }

    /// Replaces the deputy. Any member is taken, also one whose own deputy
    /// chain leads back here.
    pub fn set_deputy(&mut self, deputy: &Member)
        ensures
            final(self)@ == old(self)@.set_deputy(deputy@.id),
    {
        self.deputy = Some(deputy.id.clone());
    }

    /// This member, if its current role is `job`.
    pub fn has_job(&self, job: Job) -> (found: Option<&Member>)
        ensures
            found == if self@.job == job {
                Some(self)
            } else {
                None
            },
    {
        if self.job == job {
            Some(self)
        } else {
            None
        }
    }

    /// Whether this member serves as a deputy in `team`: its back-reference
    /// points at `team`, and some member of `team` names it as deputy. A
    /// member without a team is nobody's deputy, and deputies named in other
    /// teams do not count.
    pub fn is_deputy(&self, team: &Team) -> (b: bool)
        ensures
            b == team@.relies_on(self@),
            self@.team is None ==> !b,
    {
        self.belongs_to(team) && team.names_deputy(&self.id)
    }

    /// Whether this member's back-reference points at `team`. A member that
    /// no team has taken belongs to none.
    pub fn belongs_to(&self, team: &Team) -> (b: bool)
        ensures
            b == (self@.team == Some(team@.id)),
    {
        match &self.team {
            Some(t) => team.id_is(t),
            None => false,
        }
    }

    /// The member's name, fixed at creation.
    pub fn name(&self) -> (name: &str)
        ensures
            name@ == self@.name,
    {
        self.name.as_str()
    }

    /// Whether lookups by name see this member. Members start active.
    pub fn is_active(&self) -> (active: bool)
        ensures
            active == self@.active,
    {
        self.active
    }

    /// The age as it was last set.
    pub fn age(&self) -> (age: i32)
        ensures
            age == self@.age,
    {
        self.age
    }

    /// The current role.
    pub fn job(&self) -> (job: Job)
        ensures
            job == self@.job,
    {
        self.job
    }

    /// The roles this member held before the current one, oldest first.
    pub fn job_history(&self) -> (history: &Vec<Job>)
        ensures
            history@ == self@.job_history,
    {
        &self.job_history
    }

    /// The identifier of this member's deputy, if it has one.
    pub fn deputy_id(&self) -> (id: Option<&str>)
        ensures
            match id {
                Some(id) => self@.deputy == Some(id@),
                None => self@.deputy is None,
            },
    {
        match &self.deputy {
            Some(id) => Some(id.as_str()),
            None => None,
        }
    }

    /// The identifier of the team that holds this member, if one does.
    pub fn team_id(&self) -> (id: Option<&str>)
        ensures
            match id {
                Some(id) => self@.team == Some(id@),
                None => self@.team is None,
            },
    {
        match &self.team {
            Some(id) => Some(id.as_str()),
            None => None,
        }
    }

    /// The identifier as an owned string's borrow, for comparisons.
    pub(crate) fn id_string(&self) -> (id: &String)
        ensures
            id@ == self@.id,
    {
        &self.id
    }

    /// Whether `id` is this member's identifier.
    pub(crate) fn id_is(&self, id: &String) -> (b: bool)
        ensures
            b == (self@.id == id@),
    {
        self.id == *id
    }

    /// Whether this member is called `name`.
    pub(crate) fn name_is(&self, name: &String) -> (b: bool)
        ensures
            b == (self@.name == name@),
    {
        self.name == *name
    }

    /// Whether a lookup by `name` sees this member.
    pub(crate) fn answers_to(&self, name: &String) -> (b: bool)
        ensures
            b == self@.answers_to(name@),
    {
        self.active && self.name == *name
    }

    /// Whether this member names `id` as its deputy.
    pub(crate) fn names_deputy(&self, id: &String) -> (b: bool)
        ensures
            b == (self@.deputy == Some(id@)),
    {
        match &self.deputy {
            Some(d) => *d == *id,
            None => false,
        }
    }

    /// Replaces the deputy by the member with identifier `deputy`.
    pub(crate) fn set_deputy_id(&mut self, deputy: String)
        ensures
            final(self)@ == old(self)@.set_deputy(deputy@),
    {
        self.deputy = Some(deputy);
    }

    /// Points the back-reference at `team`. Only a team that takes the
    /// member in calls this.
    pub(crate) fn attach(&mut self, team: String)
        ensures
            final(self)@ == old(self)@.attach(team@),
    {
        self.team = Some(team);
    }

    /// Hides this member from lookups by name. Only the team that holds the
    /// member calls this, after checking that nobody relies on it.
    pub(crate) fn deactivate(&mut self)
        ensures
            final(self)@ == old(self)@.deactivate(),
    {
        self.active = false;
    }
}

} // verus!
