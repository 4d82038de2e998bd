use suntrack::sessions::{
    active_session_name, can_archive, last_active_session, next_session, partition_sessions,
    position_of, session_id_text, session_name_input, session_name_of, start_choice,
    stored_session_id, Session, StartChoice,
};
use suntrack::state::DEFAULT_SESSION_ID;

fn s(id: i64, name: &str, archived: bool) -> Session {
    Session { id, name: name.to_string(), archived }
}

#[test]
fn names_and_positions() {
    let list = vec![s(1, "General", false), s(4, "Work", false)];
    assert_eq!(position_of(&list, 4), Some(1));
    assert_eq!(position_of(&list, 9), None);
    assert_eq!(session_name_of(&list, 4).as_deref(), Some("Work"));
    assert_eq!(active_session_name(&list, 4), "Work");
    assert_eq!(active_session_name(&list, 9), "General");
    assert_eq!(active_session_name(&vec![], 1), "General");
}

#[test]
fn cycling_sessions() {
    let list = vec![s(1, "General", false), s(4, "Work", false), s(7, "Learning", false)];
    assert_eq!(next_session(&list, 1), Some(4));
    assert_eq!(next_session(&list, 7), Some(1));
    assert_eq!(next_session(&list, 99), Some(4));
    assert_eq!(next_session(&vec![s(1, "General", false)], 1), None);
}

#[test]
fn archiving_rules() {
    assert!(can_archive(4, 1));
    assert!(!can_archive(4, 4));
    assert!(!can_archive(DEFAULT_SESSION_ID, 4));
}

#[test]
fn partitions_keep_order() {
    let list = vec![s(1, "a", false), s(2, "b", true), s(3, "c", false), s(4, "d", true)];
    let (live, archived) = partition_sessions(list);
    assert_eq!(live.iter().map(|x| x.id).collect::<Vec<_>>(), vec![1, 3]);
    assert_eq!(archived.iter().map(|x| x.id).collect::<Vec<_>>(), vec![2, 4]);
}

#[test]
fn typed_names() {
    assert_eq!(session_name_input("  Work "), Some("Work".to_string()));
    assert_eq!(session_name_input("   "), None);
    assert_eq!(session_name_input(""), None);
    assert_eq!(start_choice(""), StartChoice::ContinueLast);
    assert_eq!(start_choice("  Deep work\t"), StartChoice::Named("Deep work".to_string()));
}

#[test]
fn stored_ids() {
    assert_eq!(stored_session_id(Some("12")), Some(12));
    assert_eq!(stored_session_id(Some("twelve")), None);
    assert_eq!(stored_session_id(None), None);
    assert_eq!(last_active_session(Some(12), true), 12);
    assert_eq!(last_active_session(Some(12), false), DEFAULT_SESSION_ID);
    assert_eq!(last_active_session(None, false), DEFAULT_SESSION_ID);
    let text = session_id_text(37);
    assert_eq!(text, "37");
    assert_eq!(stored_session_id(Some(&text)), Some(37));
    assert_eq!(session_id_text(-2), "-2");
}
