use crabcamera::webrtc::conference::ConferenceRoster;

#[test]
fn join_leave_and_close() {
    let mut roster = ConferenceRoster::new("conf-1".to_string());
    assert_eq!(roster.id_str(), "conf-1");
    assert_eq!(roster.participant_count(), 0);

    assert_eq!(roster.check_join("alice"), Ok(()));
    assert_eq!(roster.add_participant("alice".to_string()), "Participant alice joined conference conf-1");
    assert_eq!(roster.add_participant("bob".to_string()), "Participant bob joined conference conf-1");
    assert_eq!(
        roster.check_join("alice"),
        Err("Participant alice already in conference conf-1".to_string())
    );
    assert!(roster.contains("bob"));
    assert_eq!(roster.participant_count(), 2);
    assert_eq!(roster.get_participants(), vec!["alice".to_string(), "bob".to_string()]);
    assert_eq!(roster.others("alice"), vec!["bob".to_string()]);

    assert_eq!(roster.remove_participant("alice"), Ok("Participant alice left conference conf-1".to_string()));
    assert_eq!(
        roster.remove_participant("alice"),
        Err("Participant alice not found in conference conf-1".to_string())
    );
    assert_eq!(roster.get_participants(), vec!["bob".to_string()]);

    assert_eq!(roster.close(), "Conference conf-1 closed");
    assert_eq!(roster.participant_count(), 0);
}

#[test]
fn leaving_after_joining_restores_the_roster() {
    let mut roster = ConferenceRoster::new("c".to_string());
    roster.add_participant("a".to_string());
    roster.add_participant("b".to_string());
    roster.add_participant("x".to_string());
    assert!(roster.remove_participant("x").is_ok());
    assert_eq!(roster.get_participants(), vec!["a".to_string(), "b".to_string()]);
    assert!(roster.remove_participant("a").is_ok());
    assert_eq!(roster.get_participants(), vec!["b".to_string()]);
}

#[test]
fn conference_state_snapshot() {
    let mut roster = ConferenceRoster::new("room".to_string());
    roster.add_participant("p1".to_string());
    let now = std::time::SystemTime::now();
    let state = roster.get_state(true, now);
    assert_eq!(state.conference_id, "room");
    assert_eq!(state.participants, vec!["p1".to_string()]);
    assert!(state.is_streaming);
    assert_eq!(state.created_at, now);
}
