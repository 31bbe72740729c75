use gossip_expire::expire::Expire;
use gossip_expire::member::{Member, MemberList, MemberState};
use gossip_expire::rumor::{RumorKey, RumorType};
use gossip_expire::server::Server;
use gossip_expire::timing::Timing;

fn member(id: &str, state: MemberState, last_state_change: i64) -> Member {
    Member { id: id.to_string(), incarnation: 0, state, last_state_change }
}

fn sweeper_with(members: Vec<Member>, suspicion_ms: i64, departure_ms: i64) -> Expire {
    let mut server = Server::new();
    for m in members {
        server.member_list.insert(m);
    }
    Expire::new(server, Timing::new(suspicion_ms, departure_ms))
}

#[test]
fn end_to_end_scenario() {
    // M enters Suspect at t=0 with suspicion timeout 2s and departure
    // timeout 3s; sweeps run at t = 1s..6s. M must be confirmed at the 2s
    // sweep and departed at the 5s sweep (3s after confirmation), with its
    // heat purged and a membership rumor re-ignited at each step.
    let mut sweeper = sweeper_with(vec![member("m", MemberState::Suspect, 0)], 2000, 3000);
    // Residual rumor heat for M in another category, to be wiped at departure.
    sweeper
        .server
        .rumor_heat
        .start_hot_rumor(RumorKey::new(RumorType::Service, "m", "group"));

    let mut confirmed_at: Option<i64> = None;
    let mut departed_at: Option<i64> = None;
    for step in 1..=6i64 {
        let now = step * 1000;
        let (confirmed, departed) = sweeper.run_cycle(now);
        if confirmed.iter().any(|id| id == "m") {
            assert!(confirmed_at.is_none(), "confirmed twice");
            confirmed_at = Some(now);
            let member_rumor = RumorKey::new(RumorType::Member, "m", "");
            assert_eq!(sweeper.server.rumor_heat.heat_of(&member_rumor), Some(0));
        }
        if departed.iter().any(|id| id == "m") {
            assert!(departed_at.is_none(), "departed twice");
            departed_at = Some(now);
            // The service rumor's heat was purged; the membership rumor was
            // re-ignited after the purge.
            let service_rumor = RumorKey::new(RumorType::Service, "m", "group");
            assert_eq!(sweeper.server.rumor_heat.heat_of(&service_rumor), None);
            let member_rumor = RumorKey::new(RumorType::Member, "m", "");
            assert_eq!(sweeper.server.rumor_heat.heat_of(&member_rumor), Some(0));
        }
    }
    assert_eq!(confirmed_at, Some(2000));
    assert_eq!(departed_at, Some(5000));
    assert_eq!(
        sweeper.server.member_list.state_of(&"m".to_string()),
        Some(MemberState::Departed)
    );
}

#[test]
fn threshold_is_inclusive_and_never_early() {
    // Suspect since t0 = 1000 with timeout 2000: not reported at 2999,
    // reported at exactly 3000.
    let mut sweeper = sweeper_with(vec![member("m", MemberState::Suspect, 1000)], 2000, 3000);
    let (confirmed, _) = sweeper.run_cycle(2999);
    assert!(confirmed.is_empty());
    let (confirmed, _) = sweeper.run_cycle(3000);
    assert_eq!(confirmed, vec!["m".to_string()]);
}

#[test]
fn departed_member_is_a_tombstone() {
    // Once Departed, a member is never reported again by either pass and
    // its record never changes, however much time passes.
    let mut sweeper = sweeper_with(vec![member("m", MemberState::Departed, 0)], 10, 10);
    for step in 1..=5i64 {
        let (confirmed, departed) = sweeper.run_cycle(step * 100_000);
        assert!(confirmed.is_empty());
        assert!(departed.is_empty());
        assert_eq!(
            sweeper.server.member_list.state_of(&"m".to_string()),
            Some(MemberState::Departed)
        );
    }
}

#[test]
fn external_transition_wins_the_race() {
    // An external actor moves M out of Suspect before the timeout elapses:
    // M must never appear in the confirmation results for that period.
    let mut sweeper = sweeper_with(vec![member("m", MemberState::Suspect, 0)], 2000, 3000);
    let (confirmed, _) = sweeper.run_cycle(1000);
    assert!(confirmed.is_empty());
    sweeper
        .server
        .member_list
        .set_member_state(&"m".to_string(), MemberState::Alive, 1500);
    for step in 2..=6i64 {
        let (confirmed, _) = sweeper.run_cycle(step * 1000);
        assert!(confirmed.is_empty());
    }
    assert_eq!(
        sweeper.server.member_list.state_of(&"m".to_string()),
        Some(MemberState::Alive)
    );
}

#[test]
fn no_double_report_within_one_cycle() {
    // A member long overdue in Suspect is confirmed in this cycle but can
    // only depart in a later cycle, since confirmation resets its clock.
    let mut sweeper = sweeper_with(vec![member("m", MemberState::Suspect, 0)], 1000, 2000);
    let (confirmed, departed) = sweeper.run_cycle(1_000_000);
    assert_eq!(confirmed, vec!["m".to_string()]);
    assert!(departed.is_empty());
    let (confirmed, departed) = sweeper.run_cycle(1_002_000);
    assert!(confirmed.is_empty());
    assert_eq!(departed, vec!["m".to_string()]);
}

#[test]
fn only_suspects_confirm_and_only_confirmed_depart() {
    let mut sweeper = sweeper_with(
        vec![
            member("alive", MemberState::Alive, 0),
            member("suspect", MemberState::Suspect, 0),
            member("confirmed", MemberState::Confirmed, 0),
            member("departed", MemberState::Departed, 0),
        ],
        1000,
        1000,
    );
    let (confirmed, departed) = sweeper.run_cycle(5000);
    assert_eq!(confirmed, vec!["suspect".to_string()]);
    assert_eq!(departed, vec!["confirmed".to_string()]);
    let list = &sweeper.server.member_list;
    assert_eq!(list.state_of(&"alive".to_string()), Some(MemberState::Alive));
    assert_eq!(list.state_of(&"suspect".to_string()), Some(MemberState::Confirmed));
    assert_eq!(list.state_of(&"confirmed".to_string()), Some(MemberState::Departed));
    assert_eq!(list.state_of(&"departed".to_string()), Some(MemberState::Departed));
}

#[test]
fn empty_table_sweeps_clean() {
    let mut sweeper = sweeper_with(vec![], 1000, 1000);
    let (confirmed, departed) = sweeper.run_cycle(1_000_000);
    assert!(confirmed.is_empty());
    assert!(departed.is_empty());
    assert_eq!(sweeper.server.member_list.len(), 0);
}

#[test]
fn run_round_keeps_tombstones() {
    // Whatever instant the wall clock reports, a departed member stays a
    // tombstone over a full live round.
    let mut sweeper = sweeper_with(vec![member("m", MemberState::Departed, 0)], 10, 10);
    let (confirmed, departed) = sweeper.run_round();
    assert!(confirmed.is_empty());
    assert!(departed.is_empty());
    assert_eq!(
        sweeper.server.member_list.state_of(&"m".to_string()),
        Some(MemberState::Departed)
    );
}

#[test]
fn member_list_queries() {
    let mut list = MemberList::new();
    assert_eq!(list.len(), 0);
    assert!(!list.contains_id(&"m".to_string()));
    assert_eq!(list.state_of(&"m".to_string()), None);
    list.insert(member("m", MemberState::Alive, 7));
    assert_eq!(list.len(), 1);
    assert!(list.contains_id(&"m".to_string()));
    assert_eq!(list.state_of(&"m".to_string()), Some(MemberState::Alive));
    // An id the table does not hold is reported absent, never an error.
    assert!(!list.set_member_state(&"ghost".to_string(), MemberState::Suspect, 0));
    assert!(list.set_member_state(&"m".to_string(), MemberState::Suspect, 9));
    assert_eq!(list.state_of(&"m".to_string()), Some(MemberState::Suspect));
}

#[test]
fn timing_reports_configured_durations() {
    let timing = Timing::new(2000, 3000);
    assert_eq!(timing.suspicion_timeout_duration(), 2000);
    assert_eq!(timing.departure_timeout_duration(), 3000);
}
