//! The interfaces between the adapters, the stores and the caller.

use vstd::prelude::*;

use crate::error::CoreError;
use crate::types::{ConnectionState, VpnProfile};

verus! {

/// A platform's way of provisioning and driving VPN connections. The spec
/// functions name the outcomes an adapter may give (any, unless an adapter
/// says more).
pub trait VpnAdapter {
    /// `result` is a possible outcome of connecting the profile `name`.
    open spec fn connects(&self, name: Seq<char>, result: Result<(), CoreError>) -> bool {
        true
    }

    /// `result` is a possible outcome of disconnecting the profile `name`.
    open spec fn disconnects(&self, name: Seq<char>, result: Result<(), CoreError>) -> bool {
        true
    }

    /// `result` is a possible answer to asking for the state of `name`.
    open spec fn reports_status(&self, name: Seq<char>, result: Result<ConnectionState, CoreError>) -> bool {
        true
    }

    fn init(&self) -> Result<(), CoreError>;

    fn add_profile(&self, profile: VpnProfile) -> Result<(), CoreError>;

    fn remove_profile(&self, name: &str) -> Result<(), CoreError>;

    fn list_profiles(&self) -> Result<Vec<VpnProfile>, CoreError>;

    fn connect(&self, name: &str) -> (r: Result<(), CoreError>)
        ensures
            self.connects(name@, r),
    ;

    fn disconnect(&self, name: &str) -> (r: Result<(), CoreError>)
        ensures
            self.disconnects(name@, r),
    ;

    fn status(&self, name: &str) -> (r: Result<ConnectionState, CoreError>)
        ensures
            self.reports_status(name@, r),
    ;
}

/// Secure storage of profile passwords. What a store answers is its own
/// affair; the spec functions name the answers it may give (any, unless a
/// store says more).
pub trait CredentialStore {
    /// `result` is an answer this store may give to storing a password.
    open spec fn sets(&self, profile: Seq<char>, username: Seq<char>, password: Seq<char>, result: Result<
        (),
        CoreError,
    >) -> bool {
        true
    }

    /// `result` is an answer this store may give to reading a password.
    open spec fn gets(&self, profile: Seq<char>, username: Seq<char>, result: Result<Option<String>, CoreError>) -> bool {
        true
    }

    /// `result` is an answer this store may give to removing a password.
    open spec fn deletes(&self, profile: Seq<char>, username: Seq<char>, result: Result<(), CoreError>) -> bool {
        true
    }

    fn set_password(&self, profile: &str, username: &str, password: &str) -> (r: Result<(), CoreError>)
        ensures
            self.sets(profile@, username@, password@, r),
    ;

    fn get_password(&self, profile: &str, username: &str) -> (r: Result<Option<String>, CoreError>)
        ensures
            self.gets(profile@, username@, r),
    ;

    fn delete_password(&self, profile: &str, username: &str) -> (r: Result<(), CoreError>)
        ensures
            self.deletes(profile@, username@, r),
    ;
}

/// Persistent storage of profiles. What a store answers is its own affair;
/// the spec functions name the answers it may give (any, unless a store
/// says more).
pub trait ProfileStore {
    /// `result` is an answer this store may give to saving `profile`.
    open spec fn saves(&self, profile: VpnProfile, result: Result<(), CoreError>) -> bool {
        true
    }

    /// `result` is an answer this store may give to loading `name`.
    open spec fn loads(&self, name: Seq<char>, result: Result<VpnProfile, CoreError>) -> bool {
        true
    }

    /// `result` is an answer this store may give to deleting `name`.
    open spec fn deletes(&self, name: Seq<char>, result: Result<(), CoreError>) -> bool {
        true
    }

    /// `result` is an answer this store may give to listing its profiles.
    open spec fn lists(&self, result: Result<Vec<VpnProfile>, CoreError>) -> bool {
        true
    }

    fn save(&self, profile: &VpnProfile) -> (r: Result<(), CoreError>)
        ensures
            self.saves(*profile, r),
    ;

    fn load(&self, name: &str) -> (r: Result<VpnProfile, CoreError>)
        ensures
            self.loads(name@, r),
    ;

    fn delete(&self, name: &str) -> (r: Result<(), CoreError>)
        ensures
            self.deletes(name@, r),
    ;

    fn list(&self) -> (r: Result<Vec<VpnProfile>, CoreError>)
        ensures
            self.lists(r),
    ;
}

/// A sink for log messages.
pub trait Logger {
    fn debug(&self, message: &str);

    fn info(&self, message: &str);

    fn warn(&self, message: &str);

    fn error(&self, message: &str);
}

/// A source of client certificates for EAP-TLS.
pub trait CertificateStore {
    fn list_identities(&self) -> Result<Vec<String>, CoreError>;

    fn find_by_ref(&self, reference: &str) -> Result<Option<String>, CoreError>;
}

} // verus!
