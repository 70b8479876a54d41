use team_roster::member::{Job, Member};
use team_roster::team::Team;

#[test]
fn test_add_member() {
    let d = Member::new("mccarthy", Job::Boss, 60, None);
    let p = Member::new("employee", Job::Writer, 33, Some(&d));
    let t = Member::new("frodo", Job::Blogger, 19, Some(&d));
    let mut team = Team::new("buddies");
    team.add_member(d.clone());
    team.add_member(p.clone());
    team.add_member(t.clone());
    let x = team.find_member_by_name("employee");
    assert!(x.is_some());
    assert_eq!(x.unwrap().team_id().unwrap(), team.get_id());
    let y = team.find_member_by_name("mccarthy");
    assert!(y.is_some());
    assert_eq!(y.unwrap().is_deputy(&team), true);
    let z = team.find_member_by_name("frodo");
    assert!(z.is_some());
    assert_eq!(z.unwrap().has_job(Job::Blogger).unwrap().job(), Job::Blogger);
}

#[test]
fn test_find_member_by_name() {
    let d = Member::new("mccarthy", Job::Boss, 60, None);
    let p = Member::new("employee", Job::Writer, 33, Some(&d));
    let bilbo = Member::new("bilbo", Job::Boss, 26, None);
    let frodo = Member::new("frodo", Job::Blogger, 19, Some(&bilbo));
    let mut team = Team::new("buddies");
    team.add_member(bilbo.clone());
    team.add_member(frodo.clone());
    team.add_member(d.clone());
    team.add_member(p.clone());
    let x = team.find_member_by_name("mccarthy");
    assert!(x.is_some());
    assert_eq!(x.unwrap().name(), "mccarthy");
}

#[test]
fn test_find_members_by_job() {
    let d = Member::new("mccarthy", Job::Boss, 60, None);
    let p = Member::new("employee", Job::Writer, 33, Some(&d));
    let bilbo = Member::new("bilbo", Job::Boss, 26, None);
    let frodo = Member::new("frodo", Job::Blogger, 19, Some(&bilbo));
    let mut team = Team::new("buddies");
    team.add_member(bilbo.clone());
    team.add_member(frodo.clone());
    team.add_member(d.clone());
    team.add_member(p.clone());
    assert!(team.set_member_job(p.get_id(), Job::Developer));
    assert!(team.set_member_job(p.get_id(), Job::Cyclist));
    let x = team.find_members_by_job(Job::Cyclist);
    assert_eq!(x.len(), 1);
    assert_eq!(x[0].name(), "employee");
    assert_eq!(x[0].job_history().len(), 2);
}

#[test]
fn test_deactivate_by_name_positive_test() {
    let d = Member::new("mccarthy", Job::Boss, 60, None);
    let p = Member::new("employee", Job::Writer, 33, Some(&d));
    let bilbo = Member::new("bilbo", Job::Boss, 26, None);
    let frodo = Member::new("frodo", Job::Blogger, 19, Some(&bilbo));
    let mut team = Team::new("buddies");
    team.add_member(bilbo.clone());
    team.add_member(frodo.clone());
    team.add_member(d.clone());
    team.add_member(p.clone());
    team.deactivate_member_by_name("employee");
    let x = team.find_member_by_name("employee");
    assert!(x.is_none());
}

#[test]
fn test_deactivate_by_name_negative_test() {
    let d = Member::new("mccarthy", Job::Boss, 60, None);
    let p = Member::new("employee", Job::Writer, 33, Some(&d));
    let bilbo = Member::new("bilbo", Job::Boss, 26, None);
    let frodo = Member::new("frodo", Job::Blogger, 19, Some(&bilbo));
    let mut team = Team::new("buddies");
    team.add_member(bilbo.clone());
    team.add_member(frodo.clone());
    team.add_member(d.clone());
    team.add_member(p.clone());
    team.deactivate_member_by_name("mccarthy");
    let x = team.find_member_by_name("mccarthy");
    assert!(x.is_some());
}

#[test]
fn test_remove_by_name_positive_test() {
    let d = Member::new("mccarthy", Job::Boss, 60, None);
    let p = Member::new("employee", Job::Writer, 33, Some(&d));
    let bilbo = Member::new("bilbo", Job::Boss, 26, None);
    let frodo = Member::new("frodo", Job::Blogger, 19, Some(&bilbo));
    let mut team = Team::new("buddies");
    team.add_member(bilbo.clone());
    team.add_member(frodo.clone());
    team.add_member(d.clone());
    team.add_member(p.clone());
    team.remove_member_by_name("employee");
    let x = team.find_member_by_name("employee");
    assert!(x.is_none());
}

#[test]
fn test_remove_by_name_negative_test() {
    let d = Member::new("mccarthy", Job::Boss, 60, None);
    let p = Member::new("employee", Job::Writer, 33, Some(&d));
    let bilbo = Member::new("bilbo", Job::Boss, 26, None);
    let frodo = Member::new("frodo", Job::Blogger, 19, Some(&bilbo));
    let mut team = Team::new("buddies");
    team.add_member(bilbo.clone());
    team.add_member(frodo.clone());
    team.add_member(d.clone());
    team.add_member(p.clone());
    team.remove_member_by_name("mccarthy");
    let x = team.find_member_by_name("mccarthy");
    assert!(x.is_some());
}

fn buddies() -> (Team, Member, Member) {
    let d = Member::new("mccarthy", Job::Boss, 60, None);
    let p = Member::new("employee", Job::Writer, 33, Some(&d));
    let mut team = Team::new("buddies");
    team.add_member(d.clone());
    team.add_member(p.clone());
    (team, d, p)
}

fn names(team: &Team) -> Vec<String> {
    team.members().iter().map(|m| m.name().to_string()).collect()
}

fn snapshot(team: &Team) -> Vec<String> {
    team.members().iter().map(|m| format!("{:?}", m)).collect()
}

#[test]
fn a_new_team_is_empty() {
    let team = Team::new("buddies");
    assert_eq!(team.name(), "buddies");
    assert_eq!(team.len(), 0);
    assert!(team.members().is_empty());
    assert!(team.find_member_by_name("mccarthy").is_none());
    assert!(team.find_members_by_job(Job::Boss).is_empty());
    let named = Team::with_id("t-1".to_string(), "buddies");
    assert_eq!(named.get_id(), "t-1");
    assert_eq!(named.name(), "buddies");
    assert_eq!(named.len(), 0);
}

#[test]
fn a_deputy_cannot_be_deactivated() {
    let (mut team, d, _) = buddies();
    assert_eq!(team.deactivate_member_by_name("mccarthy"), false);
    let found = team.find_member_by_name("mccarthy");
    assert!(found.is_some());
    assert_eq!(found.unwrap().get_id(), d.get_id());
    assert!(found.unwrap().is_active());
}

#[test]
fn two_job_changes_leave_two_history_entries() {
    let (mut team, _, p) = buddies();
    assert!(team.set_member_job(p.get_id(), Job::Developer));
    assert!(team.set_member_job(p.get_id(), Job::Cyclist));
    let employee = team.find_member_by_name("employee").unwrap();
    assert_eq!(employee.job_history(), &vec![Job::Writer, Job::Developer]);
    assert_eq!(employee.job(), Job::Cyclist);
    let cyclists = team.find_members_by_job(Job::Cyclist);
    assert_eq!(cyclists.len(), 1);
    assert_eq!(cyclists[0].get_id(), p.get_id());
}

#[test]
fn only_members_nobody_relies_on_can_be_deactivated() {
    let (mut team, _, _) = buddies();
    let bilbo = Member::new("bilbo", Job::Boss, 26, None);
    let frodo = Member::new("frodo", Job::Blogger, 19, Some(&bilbo));
    team.add_member(bilbo);
    team.add_member(frodo);
    assert_eq!(team.deactivate_member_by_name("bilbo"), false);
    assert_eq!(team.deactivate_member_by_name("employee"), true);
    assert!(team.find_member_by_name("employee").is_none());
    assert_eq!(team.len(), 4);
}

#[test]
fn adding_a_member_twice_keeps_one() {
    let d = Member::new("mccarthy", Job::Boss, 60, None);
    let mut team = Team::new("buddies");
    team.add_member(d.clone());
    team.add_member(d.clone());
    assert_eq!(team.members().len(), 1);
    assert_eq!(team.len(), 1);
    team.add_member(d.clone());
    assert_eq!(team.len(), 1);
}

#[test]
fn add_member_sets_the_back_reference_and_holds_the_member_once() {
    let (mut team, d, p) = buddies();
    team.add_member(d.clone());
    team.add_member(p.clone());
    for m in [&d, &p] {
        let held: Vec<&Member> =
            team.members().iter().filter(|x| x.get_id() == m.get_id()).collect();
        assert_eq!(held.len(), 1);
        assert_eq!(held[0].team_id(), Some(team.get_id()));
    }
    assert_eq!(d.team_id(), None);
}

#[test]
fn add_member_keeps_what_the_first_offer_brought() {
    let mut team = Team::new("buddies");
    team.add_member(Member::with_id("m-1".to_string(), "mccarthy", Job::Boss, 60, None));
    team.add_member(Member::with_id("m-1".to_string(), "impostor", Job::Cyclist, 1, None));
    assert_eq!(team.len(), 1);
    let held = team.find_member_by_id("m-1").unwrap();
    assert_eq!(held.name(), "mccarthy");
    assert_eq!(held.job(), Job::Boss);
    assert_eq!(held.age(), 60);
}

#[test]
fn add_member_keeps_insertion_order() {
    let mut team = Team::new("buddies");
    for name in ["bilbo", "frodo", "mccarthy", "employee"] {
        team.add_member(Member::new(name, Job::Writer, 30, None));
    }
    assert_eq!(names(&team), vec!["bilbo", "frodo", "mccarthy", "employee"]);
}

#[test]
fn add_member_accepts_members_that_share_a_name() {
    let mut team = Team::new("buddies");
    team.add_member(Member::with_id("a".to_string(), "frodo", Job::Writer, 30, None));
    team.add_member(Member::with_id("b".to_string(), "frodo", Job::Boss, 31, None));
    assert_eq!(team.len(), 2);
    assert_eq!(team.find_member_by_name("frodo").unwrap().get_id(), "a");
}

#[test]
fn a_copy_taken_by_another_team_points_at_that_team() {
    let mut first = Team::new("buddies");
    let mut second = Team::new("strangers");
    first.add_member(Member::new("frodo", Job::Blogger, 19, None));
    let copy = first.find_member_by_name("frodo").unwrap().clone();
    assert_eq!(copy.team_id(), Some(first.get_id()));
    second.add_member(copy);
    assert_eq!(
        second.find_member_by_name("frodo").unwrap().team_id(),
        Some(second.get_id())
    );
    assert_eq!(first.find_member_by_name("frodo").unwrap().team_id(), Some(first.get_id()));
    assert_eq!(first.len(), 1);
    assert_eq!(second.len(), 1);
}

#[test]
fn find_member_by_name_returns_the_first_active_match() {
    let mut team = Team::new("buddies");
    team.add_member(Member::with_id("a".to_string(), "frodo", Job::Writer, 30, None));
    team.add_member(Member::with_id("b".to_string(), "frodo", Job::Boss, 31, None));
    team.add_member(Member::with_id("c".to_string(), "bilbo", Job::Boss, 26, None));
    assert_eq!(team.find_member_by_name("frodo").unwrap().get_id(), "a");
    assert!(team.deactivate_member_by_name("frodo"));
    assert_eq!(team.find_member_by_name("frodo").unwrap().get_id(), "b");
    assert!(team.deactivate_member_by_name("frodo"));
    assert!(team.find_member_by_name("frodo").is_none());
    assert!(!team.deactivate_member_by_name("frodo"));
    assert_eq!(team.len(), 3);
}

#[test]
fn find_member_by_name_never_returns_an_inactive_member() {
    let (mut team, _, _) = buddies();
    assert!(team.deactivate_member_by_name("employee"));
    assert!(team.find_member_by_name("employee").is_none());
    let held = team.members().iter().find(|m| m.name() == "employee").unwrap();
    assert!(!held.is_active());
    for name in ["mccarthy", "employee", "nobody"] {
        if let Some(m) = team.find_member_by_name(name) {
            assert!(m.is_active());
            assert_eq!(m.name(), name);
        }
    }
}

#[test]
fn find_member_by_name_is_empty_for_an_unknown_name() {
    let (team, _, _) = buddies();
    assert!(team.find_member_by_name("nobody").is_none());
    assert!(team.find_member_by_name("").is_none());
    assert!(team.find_member_by_name("Mccarthy").is_none());
}

#[test]
fn find_member_by_id_sees_inactive_members() {
    let (mut team, d, p) = buddies();
    assert!(team.deactivate_member_by_name("employee"));
    let held = team.find_member_by_id(p.get_id()).unwrap();
    assert_eq!(held.name(), "employee");
    assert!(!held.is_active());
    assert_eq!(team.find_member_by_id(d.get_id()).unwrap().name(), "mccarthy");
    assert!(team.find_member_by_id("nobody").is_none());
}

#[test]
fn find_members_by_job_ignores_the_active_flag_and_keeps_order() {
    let mut team = Team::new("buddies");
    team.add_member(Member::with_id("a".to_string(), "bilbo", Job::Boss, 26, None));
    team.add_member(Member::with_id("b".to_string(), "frodo", Job::Blogger, 19, None));
    team.add_member(Member::with_id("c".to_string(), "mccarthy", Job::Boss, 60, None));
    team.add_member(Member::with_id("d".to_string(), "donovan", Job::Boss, 33, None));
    assert!(team.deactivate_member_by_name("mccarthy"));
    let bosses: Vec<&str> =
        team.find_members_by_job(Job::Boss).iter().map(|m| m.get_id()).collect();
    assert_eq!(bosses, vec!["a", "c", "d"]);
    let bloggers: Vec<&str> =
        team.find_members_by_job(Job::Blogger).iter().map(|m| m.get_id()).collect();
    assert_eq!(bloggers, vec!["b"]);
    assert!(team.find_members_by_job(Job::Cyclist).is_empty());
    assert!(team.find_members_by_job(Job::Writer).is_empty());
    assert!(team.find_members_by_job(Job::Developer).is_empty());
}

#[test]
fn a_refused_deactivation_changes_nothing() {
    let (mut team, _, _) = buddies();
    let before = snapshot(&team);
    assert!(!team.deactivate_member_by_name("mccarthy"));
    assert_eq!(snapshot(&team), before);
    assert!(!team.deactivate_member_by_name("nobody"));
    assert_eq!(snapshot(&team), before);
}

#[test]
fn deactivation_fails_for_an_inactive_member() {
    let (mut team, _, _) = buddies();
    assert!(team.deactivate_member_by_name("employee"));
    let before = snapshot(&team);
    assert!(!team.deactivate_member_by_name("employee"));
    assert_eq!(snapshot(&team), before);
    assert!(!team.remove_member_by_name("employee"));
    assert_eq!(snapshot(&team), before);
    assert_eq!(team.len(), 2);
}

#[test]
fn deactivation_touches_only_the_active_flag() {
    let (mut team, _, p) = buddies();
    assert!(team.set_member_job(p.get_id(), Job::Developer));
    assert!(team.deactivate_member_by_name("employee"));
    let held = team.find_member_by_id(p.get_id()).unwrap();
    assert!(!held.is_active());
    assert_eq!(held.name(), "employee");
    assert_eq!(held.age(), 33);
    assert_eq!(held.job(), Job::Developer);
    assert_eq!(held.job_history(), &vec![Job::Writer]);
    assert_eq!(held.deputy_id(), p.deputy_id());
    assert_eq!(held.team_id(), Some(team.get_id()));
    assert_eq!(names(&team), vec!["mccarthy", "employee"]);
}

#[test]
fn once_nobody_relies_on_a_deputy_it_can_be_deactivated() {
    let (mut team, d, p) = buddies();
    let other = Member::new("donovan", Job::Boss, 33, None);
    team.add_member(other.clone());
    assert!(!team.deactivate_member_by_name("mccarthy"));
    assert!(team.set_member_deputy(p.get_id(), other.get_id()));
    assert!(team.deactivate_member_by_name("mccarthy"));
    assert!(!team.find_member_by_id(d.get_id()).unwrap().is_active());
    assert!(!team.deactivate_member_by_name("donovan"));
}

#[test]
fn removal_deletes_exactly_when_deactivation_is_allowed() {
    let (mut team, _, _) = buddies();
    assert!(!team.remove_member_by_name("mccarthy"));
    assert_eq!(names(&team), vec!["mccarthy", "employee"]);
    assert!(!team.remove_member_by_name("nobody"));
    assert_eq!(names(&team), vec!["mccarthy", "employee"]);
    assert!(team.remove_member_by_name("employee"));
    assert_eq!(names(&team), vec!["mccarthy"]);
    assert!(team.remove_member_by_name("mccarthy"));
    assert!(team.members().is_empty());
}

#[test]
fn a_refused_removal_changes_nothing() {
    let (mut team, _, _) = buddies();
    let before = snapshot(&team);
    assert!(!team.remove_member_by_name("mccarthy"));
    assert_eq!(snapshot(&team), before);
    assert!(team.find_member_by_name("mccarthy").unwrap().is_active());
}

#[test]
fn removal_deletes_only_the_first_active_member_of_that_name() {
    let mut team = Team::new("buddies");
    team.add_member(Member::with_id("a".to_string(), "frodo", Job::Writer, 30, None));
    team.add_member(Member::with_id("b".to_string(), "bilbo", Job::Boss, 26, None));
    team.add_member(Member::with_id("c".to_string(), "frodo", Job::Boss, 31, None));
    team.add_member(Member::with_id("d".to_string(), "mccarthy", Job::Boss, 60, None));
    assert!(team.remove_member_by_name("frodo"));
    let ids: Vec<&str> = team.members().iter().map(|m| m.get_id()).collect();
    assert_eq!(ids, vec!["b", "c", "d"]);
    assert!(team.find_member_by_id("c").unwrap().is_active());
    assert_eq!(team.find_member_by_name("frodo").unwrap().get_id(), "c");
    assert!(team.remove_member_by_name("frodo"));
    let ids: Vec<&str> = team.members().iter().map(|m| m.get_id()).collect();
    assert_eq!(ids, vec!["b", "d"]);
    assert!(!team.remove_member_by_name("frodo"));
    assert_eq!(team.len(), 2);
}

#[test]
fn removal_keeps_the_others_in_order() {
    let mut team = Team::new("buddies");
    for name in ["bilbo", "frodo", "mccarthy", "employee", "donovan"] {
        team.add_member(Member::new(name, Job::Writer, 30, None));
    }
    assert!(team.remove_member_by_name("mccarthy"));
    assert_eq!(names(&team), vec!["bilbo", "frodo", "employee", "donovan"]);
    assert!(team.remove_member_by_name("bilbo"));
    assert_eq!(names(&team), vec!["frodo", "employee", "donovan"]);
    assert!(team.remove_member_by_name("donovan"));
    assert_eq!(names(&team), vec!["frodo", "employee"]);
}

#[test]
fn a_record_kept_outside_the_team_can_be_offered_after_the_removal() {
    let (mut team, _, p) = buddies();
    assert!(team.remove_member_by_name("employee"));
    assert!(team.find_member_by_id(p.get_id()).is_none());
    assert_eq!(team.len(), 1);
    assert!(p.is_active());
    assert_eq!(p.team_id(), None);
    team.add_member(p.clone());
    assert_eq!(team.len(), 2);
    let held = team.find_member_by_name("employee").unwrap();
    assert_eq!(held.get_id(), p.get_id());
    assert_eq!(held.team_id(), Some(team.get_id()));
}

#[test]
fn no_operation_makes_an_inactive_member_active() {
    let (mut team, d, p) = buddies();
    assert!(team.deactivate_member_by_name("employee"));
    team.add_member(p.clone());
    assert!(team.set_member_job(p.get_id(), Job::Cyclist));
    assert!(team.set_member_age(p.get_id(), 34));
    assert!(team.set_member_deputy(p.get_id(), d.get_id()));
    assert!(!team.deactivate_member_by_name("employee"));
    assert!(!team.remove_member_by_name("employee"));
    assert!(!team.remove_member_by_name("mccarthy"));
    assert_eq!(team.len(), 2);
    let held = team.find_member_by_id(p.get_id()).unwrap();
    assert!(!held.is_active());
    assert_eq!(held.job(), Job::Cyclist);
    assert_eq!(held.age(), 34);
    assert!(team.find_member_by_name("employee").is_none());
}

#[test]
fn setters_by_identifier_change_the_member_the_team_holds() {
    let (mut team, d, p) = buddies();
    assert!(team.set_member_age(p.get_id(), 44));
    assert!(team.set_member_job(p.get_id(), Job::Developer));
    assert!(team.set_member_deputy(d.get_id(), p.get_id()));
    let employee = team.find_member_by_name("employee").unwrap();
    assert_eq!(employee.age(), 44);
    assert_eq!(employee.job(), Job::Developer);
    assert_eq!(employee.job_history(), &vec![Job::Writer]);
    let mccarthy = team.find_member_by_name("mccarthy").unwrap();
    assert_eq!(mccarthy.deputy_id(), Some(p.get_id()));
    assert_eq!(mccarthy.age(), 60);
    assert!(employee.is_deputy(&team));
    assert_eq!(p.age(), 33);
}

#[test]
fn setters_by_identifier_report_an_unknown_member() {
    let (mut team, d, _) = buddies();
    let before = snapshot(&team);
    assert!(!team.set_member_job("nobody", Job::Cyclist));
    assert!(!team.set_member_age("nobody", 1));
    assert!(!team.set_member_deputy("nobody", d.get_id()));
    assert_eq!(snapshot(&team), before);
}

#[test]
fn a_deputy_may_be_outside_the_team() {
    let outsider = Member::new("donovan", Job::Boss, 33, None);
    let (mut team, _, p) = buddies();
    assert!(team.set_member_deputy(p.get_id(), outsider.get_id()));
    assert!(team.set_member_deputy(p.get_id(), "nobody"));
    assert_eq!(team.find_member_by_name("employee").unwrap().deputy_id(), Some("nobody"));
    assert!(team.deactivate_member_by_name("mccarthy"));
}

#[test]
fn removal_spares_a_deputy_that_shares_the_name_of_the_target() {
    let mut team = Team::new("buddies");
    let first = Member::with_id("a".to_string(), "frodo", Job::Writer, 30, None);
    let second = Member::with_id("b".to_string(), "frodo", Job::Boss, 31, None);
    let third = Member::with_id("c".to_string(), "bilbo", Job::Boss, 26, Some(&second));
    team.add_member(first);
    team.add_member(second);
    team.add_member(third);
    assert!(team.find_member_by_id("b").unwrap().is_deputy(&team));
    assert!(team.remove_member_by_name("frodo"));
    let ids: Vec<&str> = team.members().iter().map(|m| m.get_id()).collect();
    assert_eq!(ids, vec!["b", "c"]);
    let deputy = team.find_member_by_id("b").unwrap();
    assert!(deputy.is_active());
    assert!(deputy.is_deputy(&team));
    assert!(!team.remove_member_by_name("frodo"));
    assert_eq!(team.len(), 2);
}

#[test]
fn removal_by_name_never_takes_a_deputy() {
    let a = Member::new("sam", Job::Writer, 1, None);
    let b = Member::new("sam", Job::Boss, 2, None);
    let c = Member::new("kim", Job::Blogger, 3, Some(&b));
    let mut team = Team::new("t");
    team.add_member(a.clone());
    team.add_member(b.clone());
    team.add_member(c.clone());
    assert_eq!(team.remove_member_by_name("sam"), true);
    let ids: Vec<&str> = team.members().iter().map(|m| m.get_id()).collect();
    assert_eq!(ids, vec![b.get_id(), c.get_id()]);
    assert!(team.find_member_by_id(a.get_id()).is_none());
    assert_eq!(team.find_member_by_id(b.get_id()).unwrap().is_active(), true);
}

#[test]
fn removal_spares_an_inactive_member_of_the_same_name() {
    let mut team = Team::new("t");
    team.add_member(Member::with_id("a".to_string(), "sam", Job::Writer, 1, None));
    team.add_member(Member::with_id("b".to_string(), "sam", Job::Boss, 2, None));
    assert!(team.deactivate_member_by_name("sam"));
    assert!(team.remove_member_by_name("sam"));
    let ids: Vec<&str> = team.members().iter().map(|m| m.get_id()).collect();
    assert_eq!(ids, vec!["a"]);
    assert!(!team.find_member_by_id("a").unwrap().is_active());
    assert!(!team.remove_member_by_name("sam"));
    assert_eq!(team.len(), 1);
}

#[test]
fn removal_is_refused_where_the_first_active_of_the_name_is_a_deputy() {
    let mut team = Team::new("buddies");
    let first = Member::with_id("a".to_string(), "frodo", Job::Writer, 30, None);
    let second = Member::with_id("b".to_string(), "frodo", Job::Boss, 31, None);
    let third = Member::with_id("c".to_string(), "bilbo", Job::Boss, 26, Some(&first));
    team.add_member(first);
    team.add_member(second);
    team.add_member(third);
    assert!(!team.remove_member_by_name("frodo"));
    assert!(!team.deactivate_member_by_name("frodo"));
    assert_eq!(team.len(), 3);
    assert_eq!(team.find_member_by_name("frodo").unwrap().get_id(), "a");
}
