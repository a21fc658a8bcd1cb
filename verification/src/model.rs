//! Plain configuration and mailbox-folder values used around the
//! handshake: connection settings, folder identifiers, and calendar
//! descriptions.

use vstd::prelude::*;

verus! {

/// Connection settings for one mail server account.
#[derive(Clone, Debug, PartialEq, Eq, Hash)]
pub struct Config {
    pub ews_url: String,
    pub username: String,
    pub domain: String,
    pub local_hostname: String,
}

/// Connection settings with an optional stored password.
#[derive(Clone, Debug, PartialEq, Eq, Hash)]
pub struct ExchangeConfig {
    pub ews_url: String,
    pub username: String,
    pub domain: String,
    pub local_hostname: String,
    pub password: Option<String>,
}

/// A folder's identifier together with its change key.
#[derive(Clone, Debug, PartialEq, Eq, Hash)]
pub struct FolderId {
    pub id: String,
    pub change_key: String,
}

impl FolderId {
    pub fn new(id: String, change_key: String) -> (r: Self)
        ensures
            r.id@ == id@,
            r.change_key@ == change_key@,
    {
        Self { id, change_key }
    }
}

/// A calendar folder and its display name.
#[derive(Clone, Debug, PartialEq, Eq, Hash)]
pub struct Calendar {
    pub folder_id: FolderId,
    pub display_name: String,
}

impl Calendar {
    pub fn new(folder_id: FolderId, display_name: String) -> (r: Self)
        ensures
            r.folder_id == folder_id,
            r.display_name@ == display_name@,
    {
        Self { folder_id, display_name }
    }
}

/// An item or folder identifier whose change key may be unknown.
#[derive(Clone, Debug, PartialEq, Eq, Hash, PartialOrd, Ord)]
pub struct IdAndChangeKey {
    pub id: String,
    pub change_key: Option<String>,
}

impl IdAndChangeKey {
    pub fn new(id: String) -> (r: Self)
        ensures
            r.id@ == id@,
            r.change_key is None,
    {
        Self { id, change_key: None }
    }

    pub fn new_with_change_key(id: String, change_key: String) -> (r: Self)
        ensures
            r.id@ == id@,
            r.change_key matches Some(ck) && ck@ == change_key@,
    {
        Self { id, change_key: Some(change_key) }
    }
}

/// How an event blocks its time slot.
#[derive(Clone, Copy, Debug, Default, Eq, Hash, Ord, PartialEq, PartialOrd)]
pub enum FreeBusyStatus {
    Free,
    Tentative,
    #[default]
    Busy,
    OutOfOffice,
    WorkingElsewhere,
    NoData,
}

impl FreeBusyStatus {
    /// The wire word the calendar service uses for this status.
    pub fn as_exchange_str(&self) -> (r: &'static str)
        ensures
            match self {
                FreeBusyStatus::Free => r@ == "Free"@,
                FreeBusyStatus::Tentative => r@ == "Tentative"@,
                FreeBusyStatus::Busy => r@ == "Busy"@,
                FreeBusyStatus::OutOfOffice => r@ == "OOF"@,
                FreeBusyStatus::WorkingElsewhere => r@ == "WorkingElsewhere"@,
                FreeBusyStatus::NoData => r@ == "NoData"@,
            },
    {
        match self {
            Self::Free => "Free",
            Self::Tentative => "Tentative",
            Self::Busy => "Busy",
            Self::OutOfOffice => "OOF",
            Self::WorkingElsewhere => "WorkingElsewhere",
            Self::NoData => "NoData",
        }
    }
}

} // verus!
