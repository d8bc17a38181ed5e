use vstd::prelude::*;
use vstd::string::*;

use crate::config::Config;

verus! {

/// The states of the authorization of a client that the collector tells
/// apart.
#[derive(Debug, Clone, Copy, PartialEq, Eq, Structural)]
pub enum AuthState {
    WaitTdlibParameters,
    WaitEncryptionKey,
    WaitPhoneNumber,
    WaitCode,
    Ready,
    /// Any other state: closing, closed, logging out, waiting for a
    /// password, a registration or another device.
    Other,
}

/// What the collector does on a change of the authorization state.
#[derive(Debug, Clone, Copy, PartialEq, Eq, Structural)]
pub enum AuthAction {
    /// Send the parameters of the library (see `tdlib_settings`).
    SendTdlibParameters,
    /// Send the (empty) key of the local database.
    SendEncryptionKey,
    /// Send the phone number of the configuration.
    SendPhoneNumber,
    /// Ask the user for the code sent to the phone, and send it.
    AskForCode,
    /// Record that the client is authorized, and wake whoever waits for it.
    MarkAuthorized,
    /// Nothing.
    Ignore,
}

/// The answer of the collector to each authorization state.
pub open spec fn action_for(state: AuthState) -> AuthAction {
    match state {
        AuthState::WaitTdlibParameters => AuthAction::SendTdlibParameters,
        AuthState::WaitEncryptionKey => AuthAction::SendEncryptionKey,
        AuthState::WaitPhoneNumber => AuthAction::SendPhoneNumber,
        AuthState::WaitCode => AuthAction::AskForCode,
        AuthState::Ready => AuthAction::MarkAuthorized,
        AuthState::Other => AuthAction::Ignore,
    }
}

/// Decides what the collector does when the authorization state of its
/// client changes to `state`.
pub fn auth_action(state: AuthState) -> (action: AuthAction)
    ensures
        action == action_for(state),
{
    match state {
        AuthState::WaitTdlibParameters => AuthAction::SendTdlibParameters,
        AuthState::WaitEncryptionKey => AuthAction::SendEncryptionKey,
        AuthState::WaitPhoneNumber => AuthAction::SendPhoneNumber,
        AuthState::WaitCode => AuthAction::AskForCode,
        AuthState::Ready => AuthAction::MarkAuthorized,
        AuthState::Other => AuthAction::Ignore,
    }
}

/// The parameters with which the collector sets up the library.
#[derive(Debug)]
pub struct TdlibSettings {
    pub database_directory: String,
    pub use_test_dc: bool,
    pub api_id: i64,
    pub api_hash: String,
    pub system_language_code: String,
    pub device_model: String,
    pub system_version: String,
    pub application_version: String,
    pub enable_storage_optimizer: bool,
}

/// The client counts as authorized on the ready state and on no other; and
/// the collector leaves alone only the states that it does not handle.
pub proof fn law_authorized_only_when_ready(state: AuthState)
    ensures
        (action_for(state) == AuthAction::MarkAuthorized) <==> state == AuthState::Ready,
        (action_for(state) == AuthAction::Ignore) <==> state == AuthState::Other,
{
}

/// The parameters of the library for a configuration: its database
/// directory and API credentials, the production data centers, English, a
/// desktop device of unknown system, the given application version, and the
/// storage optimizer on.
pub fn tdlib_settings(config: &Config, application_version: &str) -> (s: TdlibSettings)
    ensures
        s.database_directory@ == config.database_directory@,
        !s.use_test_dc,
        s.api_id == config.api_id,
        s.api_hash@ == config.api_hash@,
        s.system_language_code@ == "en"@,
        s.device_model@ == "Desktop"@,
        s.system_version@ == "Unknown"@,
        s.application_version@ == application_version@,
        s.enable_storage_optimizer,
{
    TdlibSettings {
        database_directory: config.database_directory.clone(),
        use_test_dc: false,
        api_id: config.api_id,
        api_hash: config.api_hash.clone(),
        system_language_code: String::from_str("en"),
        device_model: String::from_str("Desktop"),
        system_version: String::from_str("Unknown"),
        application_version: String::from_str(application_version),
        enable_storage_optimizer: true,
    }
}

} // verus!
