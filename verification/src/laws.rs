//! What holds of the operations on teams, proved over their models.

use vstd::prelude::*;
use crate::member::Job;
use crate::model::{lemma_first_facts, lemma_first_is_none, MemberView, TeamView};

verus! {

/// Offering a member to a team keeps the team's invariant: identifiers stay
/// distinct, and every member points back at the team.
pub proof fn lemma_add_member_keeps_wf(t: TeamView, m: MemberView)
    requires
        t.wf(),
    ensures
        t.add_member(m).wf(),
{
    let pick = |x: MemberView| x.id == m.id;
    lemma_first_facts(t.members, pick);
    let u = t.add_member(m);
    if t.position_of(m.id) is None {
        assert forall|i: int, j: int| 0 <= i < j < u.members.len() implies (
        #[trigger] u.members[i]).id != (#[trigger] u.members[j]).id by {
            if j == t.members.len() {
                assert(!pick(t.members[i]));
            }
        }
    }
}

/// An attempt to deactivate a member keeps the team's invariant.
pub proof fn lemma_deactivate_keeps_wf(t: TeamView, name: Seq<char>)
    requires
        t.wf(),
    ensures
        t.deactivate_member_by_name(name).wf(),
{
    lemma_first_facts(t.members, |m: MemberView| m.answers_to(name));
}

/// What stands in a team after the member at place `k` left: the members
/// before `k` keep their places, the members after it move up by one.
proof fn lemma_after_leaving(s: Seq<MemberView>, k: int)
    requires
        0 <= k < s.len(),
    ensures
        s.remove(k).len() == s.len() - 1,
        forall|j: int| 0 <= j < k ==> #[trigger] s.remove(k)[j] == s[j],
        forall|j: int| k <= j < s.len() - 1 ==> #[trigger] s.remove(k)[j] == s[j + 1],
{
    s.remove_ensures(k);
}

/// A removal keeps the team's invariant.
pub proof fn lemma_remove_keeps_wf(t: TeamView, name: Seq<char>)
    requires
        t.wf(),
    ensures
        t.remove_member_by_name(name).wf(),
{
    if t.can_deactivate(name) {
        lemma_first_facts(t.members, |m: MemberView| m.answers_to(name));
        let k = t.first_active(name)->0;
        let r = t.remove_member_by_name(name);
        lemma_after_leaving(t.members, k);
        assert forall|i: int, j: int| 0 <= i < j < r.members.len() implies (
        #[trigger] r.members[i]).id != (#[trigger] r.members[j]).id by {
            let a = if i < k { i } else { i + 1 };
            let b = if j < k { j } else { j + 1 };
            assert(r.members[i] == t.members[a] && r.members[j] == t.members[b]);
        }
        assert forall|i: int| 0 <= i < r.members.len() implies (#[trigger] r.members[i]).team
            == Some(r.id) by {
            let a = if i < k { i } else { i + 1 };
            assert(r.members[i] == t.members[a]);
        }
    }
}

/// A removal is a deactivation followed, where it succeeded, by the deletion
/// of the member that was deactivated.
pub proof fn lemma_remove_after_deactivate(t: TeamView, name: Seq<char>)
    ensures
        t.remove_member_by_name(name) == if t.can_deactivate(name) {
            let d = t.deactivate_member_by_name(name);
            TeamView { members: d.members.remove(t.first_active(name)->0), ..d }
        } else {
            t
        },
{
    if t.can_deactivate(name) {
        lemma_first_facts(t.members, |m: MemberView| m.answers_to(name));
        let k = t.first_active(name)->0;
        let d = t.deactivate_member_by_name(name);
        assert(d.members.remove(k) =~= t.members.remove(k));
    }
}

/// A change to one member that touches neither its identifier nor its
/// back-reference keeps the team's invariant.
pub proof fn lemma_change_member_keeps_wf(
    t: TeamView,
    id: Seq<char>,
    change: spec_fn(MemberView) -> MemberView,
)
    requires
        t.wf(),
        forall|m: MemberView| (#[trigger] change(m)).id == m.id && change(m).team == m.team,
    ensures
        t.change_member(id, change).wf(),
{
    lemma_first_facts(t.members, |m: MemberView| m.id == id);
}

/// Once a member was offered to a team, the team holds its identifier at
/// exactly one place, and the member there points back at the team.
pub proof fn lemma_add_member_holds_once(t: TeamView, m: MemberView)
    requires
        t.wf(),
    ensures
        t.add_member(m).holds_once(m.id),
{
    let pick = |x: MemberView| x.id == m.id;
    let u = t.add_member(m);
    lemma_add_member_keeps_wf(t, m);
    lemma_first_facts(t.members, pick);
    let i = if t.position_of(m.id) is Some {
        t.position_of(m.id)->0
    } else {
        t.members.len() as int
    };
    assert(u.members[i].id == m.id);
    assert forall|j: int| 0 <= j < u.members.len() && (#[trigger] u.members[j]).id
        == m.id implies j == i by {
        if j < i {
            assert(u.members[j].id != u.members[i].id);
        }
        if i < j {
            assert(u.members[i].id != u.members[j].id);
        }
    }
    assert(u.is_only_place(i, m.id));
}

/// Offering the same member again changes nothing: after the first offer the
/// team stays as it is, however often the offer is repeated.
pub proof fn lemma_add_member_twice(t: TeamView, m: MemberView)
    ensures
        t.add_member(m).add_member(m) == t.add_member(m),
{
    let pick = |x: MemberView| x.id == m.id;
    let u = t.add_member(m);
    lemma_first_facts(t.members, pick);
    if t.position_of(m.id) is None {
        assert(pick(u.members[t.members.len() as int]));
        lemma_first_facts(u.members, pick);
    }
}

/// A lookup by role returns exactly the members of that role, whether they
/// are active or not.
pub proof fn lemma_by_job_is_exact(t: TeamView, job: Job)
    ensures
        forall|i: int|
            0 <= i < t.members.len() && (#[trigger] t.members[i]).job == job
                ==> t.find_members_by_job(job).contains(t.members[i]),
        forall|k: int|
            0 <= k < t.find_members_by_job(job).len() ==> {
                &&& (#[trigger] t.find_members_by_job(job)[k]).job == job
                &&& t.members.contains(t.find_members_by_job(job)[k])
            },
{
    let pick = |m: MemberView| m.job == job;
    let found = t.members.filter(pick);
    assert forall|i: int| 0 <= i < t.members.len() && (#[trigger] t.members[i]).job
        == job implies found.contains(t.members[i]) by {
        t.members.lemma_filter_contains(pick, i);
    }
    assert forall|k: int| 0 <= k < found.len() implies {
        &&& (#[trigger] found[k]).job == job
        &&& t.members.contains(found[k])
    } by {
        t.members.lemma_filter_pred(pick, k);
        assert(found.contains(found[k]));
        t.members.lemma_filter_contains_rev(pick, found[k]);
    }
}

/// A lookup by role returns the members in the order in which the team holds
/// them: of two members it returns, the earlier one stands earlier in the
/// team.
pub proof fn lemma_by_job_keeps_order(t: TeamView, job: Job, a: int, b: int)
    requires
        0 <= a < b < t.find_members_by_job(job).len(),
    ensures
        exists|i: int, j: int|
            0 <= i < j < t.members.len() && #[trigger] t.members[i] == t.find_members_by_job(
                job,
            )[a] && #[trigger] t.members[j] == t.find_members_by_job(job)[b],
{
    lemma_filter_keeps_order(t.members, |m: MemberView| m.job == job, a, b);
}

/// Of two members that a filter keeps, the earlier one stands earlier in the
/// sequence that was filtered.
proof fn lemma_filter_keeps_order(
    s: Seq<MemberView>,
    keep: spec_fn(MemberView) -> bool,
    a: int,
    b: int,
)
    requires
        0 <= a < b < s.filter(keep).len(),
    ensures
        exists|i: int, j: int|
            0 <= i < j < s.len() && #[trigger] s[i] == s.filter(keep)[a] && #[trigger] s[j]
                == s.filter(keep)[b],
    decreases s.len(),
{
    let kept = s.filter(keep);
    s.lemma_filter_len(keep);
    let rest = s.drop_last();
    let kept_rest = rest.filter(keep);
    assert(s =~= rest.push(s.last()));
    rest.lemma_filter_push(s.last(), keep);
    if b < kept_rest.len() {
        lemma_filter_keeps_order(rest, keep, a, b);
        let (i, j) = choose|i: int, j: int|
            0 <= i < j < rest.len() && #[trigger] rest[i] == kept_rest[a] && #[trigger] rest[j]
                == kept_rest[b];
        assert(s[i] == kept[a] && s[j] == kept[b]);
    } else {
        assert(kept_rest.contains(kept_rest[a]));
        rest.lemma_filter_contains_rev(keep, kept_rest[a]);
        let i = choose|i: int| 0 <= i < rest.len() && rest[i] == kept_rest[a];
        let j = s.len() - 1;
        assert(s[i] == kept[a] && s[j] == kept[b]);
    }
}

/// A deactivation that succeeded hides its target: the member at that place
/// is inactive afterwards, and a lookup by the same name finds nothing, or
/// else a later member that was active under that name all along.
pub proof fn lemma_deactivated_is_hidden(t: TeamView, name: Seq<char>)
    requires
        t.can_deactivate(name),
    ensures
        ({
            let i = t.first_active(name)->0;
            let d = t.deactivate_member_by_name(name);
            &&& 0 <= i < d.members.len()
            &&& !d.members[i].active
            &&& d.first_active(name) matches Some(k) ==> i < k && t.members[k].answers_to(name)
        }),
{
    let pick = |m: MemberView| m.answers_to(name);
    let d = t.deactivate_member_by_name(name);
    lemma_first_facts(t.members, pick);
    lemma_first_facts(d.members, pick);
    let i = t.first_active(name)->0;
    if d.first_active(name) is Some {
        let k = d.first_active(name)->0;
        if k < i {
            assert(!pick(t.members[k]));
        }
    }
}

/// A removal that succeeded takes exactly one member out, the first active
/// one of that name: the team no longer holds its identifier, everybody else
/// is still there in the same order, and a lookup by the same name finds
/// nothing, or else a later member that was active under that name all along.
pub proof fn lemma_removed_is_gone(t: TeamView, name: Seq<char>)
    requires
        t.wf(),
        t.can_deactivate(name),
    ensures
        ({
            let k = t.first_active(name)->0;
            let r = t.remove_member_by_name(name);
            &&& 0 <= k < t.members.len()
            &&& r.members.len() == t.members.len() - 1
            &&& r.position_of(t.members[k].id) is None
            &&& forall|j: int| 0 <= j < k ==> #[trigger] r.members[j] == t.members[j]
            &&& forall|j: int| k <= j < r.members.len() ==> #[trigger] r.members[j] == t.members[j + 1]
            &&& r.first_active(name) matches Some(j) ==> k <= j && t.members[j + 1].answers_to(
                name,
            )
        }),
{
    let pick = |m: MemberView| m.answers_to(name);
    lemma_first_facts(t.members, pick);
    let k = t.first_active(name)->0;
    let r = t.remove_member_by_name(name);
    lemma_after_leaving(t.members, k);
    let same = |m: MemberView| m.id == t.members[k].id;
    assert forall|j: int| 0 <= j < r.members.len() implies !same(#[trigger] r.members[j]) by {
        let a = if j < k { j } else { j + 1 };
        assert(r.members[j] == t.members[a]);
        if a < k {
            assert(t.members[a].id != t.members[k].id);
        } else {
            assert(t.members[k].id != t.members[a].id);
        }
    }
    lemma_first_is_none(r.members, same);
    lemma_first_facts(r.members, pick);
    if r.first_active(name) is Some {
        let j = r.first_active(name)->0;
        if j < k {
            assert(r.members[j] == t.members[j]);
            assert(!pick(t.members[j]));
        }
    }
}

/// A removal by name spares everybody but its target: whoever serves as a
/// deputy stays, and so does whoever is inactive.
pub proof fn lemma_remove_spares(t: TeamView, name: Seq<char>)
    ensures
        forall|i: int|
            0 <= i < t.members.len() && (t.relies_on(#[trigger] t.members[i])
                || !t.members[i].active) ==> t.remove_member_by_name(name).members.contains(
                t.members[i],
            ),
{
    let r = t.remove_member_by_name(name);
    assert forall|i: int|
        0 <= i < t.members.len() && (t.relies_on(#[trigger] t.members[i])
            || !t.members[i].active) implies r.members.contains(t.members[i]) by {
        if t.relies_on(t.members[i]) {
            lemma_remove_spares_deputy(t, name, i);
        } else {
            lemma_remove_spares_inactive(t, name, i);
        }
    }
}

/// A member that serves as a deputy is never removed by name.
pub proof fn lemma_remove_spares_deputy(t: TeamView, name: Seq<char>, i: int)
    requires
        0 <= i < t.members.len(),
        t.relies_on(t.members[i]),
    ensures
        t.remove_member_by_name(name).members.contains(t.members[i]),
{
    lemma_stays_unless_target(t, name, i);
}

/// A member that is inactive is never removed by name.
pub proof fn lemma_remove_spares_inactive(t: TeamView, name: Seq<char>, i: int)
    requires
        0 <= i < t.members.len(),
        !t.members[i].active,
    ensures
        t.remove_member_by_name(name).members.contains(t.members[i]),
{
    lemma_stays_unless_target(t, name, i);
}

/// A removal by name leaves in the team whoever is not the first active
/// member of that name, and whoever the deactivation is refused for.
proof fn lemma_stays_unless_target(t: TeamView, name: Seq<char>, i: int)
    requires
        0 <= i < t.members.len(),
        t.relies_on(t.members[i]) || !t.members[i].answers_to(name) || t.first_active(name)
            != Some(i),
    ensures
        t.remove_member_by_name(name).members.contains(t.members[i]),
{
    let r = t.remove_member_by_name(name);
    if t.can_deactivate(name) {
        lemma_first_facts(t.members, |m: MemberView| m.answers_to(name));
        let k = t.first_active(name)->0;
        lemma_after_leaving(t.members, k);
        let a = if i < k { i } else { i - 1 };
        assert(r.members[a] == t.members[i]);
    } else {
        assert(r.members[i] == t.members[i]);
    }
}

/// Offering a member to a team makes no inactive member active.
pub proof fn lemma_add_member_revives_nobody(t: TeamView, m: MemberView)
    requires
        t.wf(),
    ensures
        t.revives_nobody(t.add_member(m)),
{
    lemma_add_member_keeps_wf(t, m);
    lemma_first_facts(t.members, |x: MemberView| x.id == m.id);
    let u = t.add_member(m);
    assert forall|i: int, j: int|
        0 <= i < t.members.len() && 0 <= j < u.members.len() && !(#[trigger] t.members[i]).active
            && (#[trigger] u.members[j]).id == t.members[i].id implies !u.members[j].active by {
        if j < t.members.len() {
            assert(u.members[j] == t.members[j]);
            assert(i == j);
        } else {
            assert(u.members[i] == t.members[i]);
        }
    }
}

/// Neither a deactivation nor a removal makes an inactive member active.
pub proof fn lemma_leaving_revives_nobody(t: TeamView, name: Seq<char>)
    requires
        t.wf(),
    ensures
        t.revives_nobody(t.deactivate_member_by_name(name)),
        t.revives_nobody(t.remove_member_by_name(name)),
{
    lemma_first_facts(t.members, |m: MemberView| m.answers_to(name));
    let d = t.deactivate_member_by_name(name);
    assert forall|i: int, j: int|
        0 <= i < t.members.len() && 0 <= j < d.members.len() && !(#[trigger] t.members[i]).active
            && (#[trigger] d.members[j]).id == t.members[i].id implies !d.members[j].active by {
        assert(d.members[j].id == t.members[j].id);
        assert(i == j);
    }
    let r = t.remove_member_by_name(name);
    assert forall|i: int, j: int|
        0 <= i < t.members.len() && 0 <= j < r.members.len() && !(#[trigger] t.members[i]).active
            && (#[trigger] r.members[j]).id == t.members[i].id implies !r.members[j].active by {
        if t.can_deactivate(name) {
            let k = t.first_active(name)->0;
            lemma_after_leaving(t.members, k);
            let a = if j < k { j } else { j + 1 };
            assert(r.members[j] == t.members[a]);
            assert(a == i);
        } else {
            assert(i == j);
        }
    }
}

/// A change to one member that touches neither its identifier nor its
/// active flag makes no inactive member active.
pub proof fn lemma_change_member_revives_nobody(
    t: TeamView,
    id: Seq<char>,
    change: spec_fn(MemberView) -> MemberView,
)
    requires
        t.wf(),
        forall|m: MemberView| (#[trigger] change(m)).id == m.id && change(m).active == m.active,
    ensures
        t.revives_nobody(t.change_member(id, change)),
{
    lemma_first_facts(t.members, |m: MemberView| m.id == id);
    let u = t.change_member(id, change);
    assert forall|i: int, j: int|
        0 <= i < t.members.len() && 0 <= j < u.members.len() && !(#[trigger] t.members[i]).active
            && (#[trigger] u.members[j]).id == t.members[i].id implies !u.members[j].active by {
        assert(u.members[j].id == t.members[j].id);
        assert(i == j);
    }
}

} // verus!
