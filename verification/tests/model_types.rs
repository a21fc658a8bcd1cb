use ntlmclient::{Calendar, FolderId, FreeBusyStatus, IdAndChangeKey};

#[test]
fn folder_id_keeps_fields() {
    let f = FolderId::new("id-1".to_string(), "ck-9".to_string());
    assert_eq!(f.id, "id-1");
    assert_eq!(f.change_key, "ck-9");
}

#[test]
fn calendar_keeps_fields() {
    let f = FolderId::new("id-1".to_string(), "ck-9".to_string());
    let c = Calendar::new(f.clone(), "Team".to_string());
    assert_eq!(c.folder_id, f);
    assert_eq!(c.display_name, "Team");
}

#[test]
fn id_and_change_key_constructors() {
    let a = IdAndChangeKey::new("x".to_string());
    assert_eq!(a.id, "x");
    assert_eq!(a.change_key, None);
    let b = IdAndChangeKey::new_with_change_key("x".to_string(), "y".to_string());
    assert_eq!(b.change_key.as_deref(), Some("y"));
}

#[test]
fn free_busy_status_wire_words() {
    assert_eq!(FreeBusyStatus::Free.as_exchange_str(), "Free");
    assert_eq!(FreeBusyStatus::Tentative.as_exchange_str(), "Tentative");
    assert_eq!(FreeBusyStatus::Busy.as_exchange_str(), "Busy");
    assert_eq!(FreeBusyStatus::OutOfOffice.as_exchange_str(), "OOF");
    assert_eq!(FreeBusyStatus::WorkingElsewhere.as_exchange_str(), "WorkingElsewhere");
    assert_eq!(FreeBusyStatus::NoData.as_exchange_str(), "NoData");
    assert_eq!(FreeBusyStatus::default(), FreeBusyStatus::Busy);
}
