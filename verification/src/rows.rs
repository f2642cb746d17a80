//! The rows that the store keeps, each with what it holds.

use crate::text;
use vstd::prelude::*;

verus! {

/// A person with an account.
#[derive(Debug)]
pub struct User {
    pub id: String,
    pub email: String,
    pub name: String,
    pub password_hash: Option<String>,
    pub github_id: Option<String>,
    pub is_admin: bool,
    pub disabled: bool,
}

/// What a `User` holds.
#[verifier::ext_equal]
pub struct UserV {
    pub id: Seq<char>,
    pub email: Seq<char>,
    pub name: Seq<char>,
    pub password_hash: Option<Seq<char>>,
    pub github_id: Option<Seq<char>>,
    pub is_admin: bool,
    pub disabled: bool,
}

impl View for User {
    type V = UserV;

    open spec fn view(&self) -> UserV {
        UserV {
            id: self.id@,
            email: self.email@,
            name: self.name@,
            password_hash: text::opt_view(self.password_hash),
            github_id: text::opt_view(self.github_id),
            is_admin: self.is_admin,
            disabled: self.disabled,
        }
    }
}

impl Clone for User {
    fn clone(&self) -> (r: Self)
        ensures
            r@ == self@,
    {
        User {
            id: self.id.clone(),
            email: self.email.clone(),
            name: self.name.clone(),
            password_hash: text::copy_opt(&self.password_hash),
            github_id: text::copy_opt(&self.github_id),
            is_admin: self.is_admin,
            disabled: self.disabled,
        }
    }
}

/// A browser session.
#[derive(Debug)]
pub struct Session {
    pub id: String,
    pub user_id: String,
    pub created_at: u64,
    pub expires_at: u64,
    pub ip: String,
}

/// What a `Session` holds.
#[verifier::ext_equal]
pub struct SessionV {
    pub id: Seq<char>,
    pub user_id: Seq<char>,
    pub created_at: u64,
    pub expires_at: u64,
    pub ip: Seq<char>,
}

impl View for Session {
    type V = SessionV;

    open spec fn view(&self) -> SessionV {
        SessionV {
            id: self.id@,
            user_id: self.user_id@,
            created_at: self.created_at,
            expires_at: self.expires_at,
            ip: self.ip@,
        }
    }
}

impl Clone for Session {
    fn clone(&self) -> (r: Self)
        ensures
            r@ == self@,
    {
        Session {
            id: self.id.clone(),
            user_id: self.user_id.clone(),
            created_at: self.created_at,
            expires_at: self.expires_at,
            ip: self.ip.clone(),
        }
    }
}

/// A registered client as it is stored: the redirect URIs stand one to a line.
#[derive(Debug)]
pub struct ClientRow {
    pub client_id: String,
    pub secret_hash: Option<String>,
    pub name: String,
    pub redirect_uris: String,
    pub scopes: String,
    pub registration_type: String,
    pub created_at: u64,
}

/// What a `ClientRow` holds.
#[verifier::ext_equal]
pub struct ClientRowV {
    pub client_id: Seq<char>,
    pub secret_hash: Option<Seq<char>>,
    pub name: Seq<char>,
    pub redirect_uris: Seq<char>,
    pub scopes: Seq<char>,
    pub registration_type: Seq<char>,
    pub created_at: u64,
}

impl View for ClientRow {
    type V = ClientRowV;

    open spec fn view(&self) -> ClientRowV {
        ClientRowV {
            client_id: self.client_id@,
            secret_hash: text::opt_view(self.secret_hash),
            name: self.name@,
            redirect_uris: self.redirect_uris@,
            scopes: self.scopes@,
            registration_type: self.registration_type@,
            created_at: self.created_at,
        }
    }
}

impl Clone for ClientRow {
    fn clone(&self) -> (r: Self)
        ensures
            r@ == self@,
    {
        ClientRow {
            client_id: self.client_id.clone(),
            secret_hash: text::copy_opt(&self.secret_hash),
            name: self.name.clone(),
            redirect_uris: self.redirect_uris.clone(),
            scopes: self.scopes.clone(),
            registration_type: self.registration_type.clone(),
            created_at: self.created_at,
        }
    }
}

/// An authorization code.
#[derive(Debug)]
pub struct AuthCode {
    pub code: String,
    pub client_id: String,
    pub redirect_uri: String,
    pub scope: String,
    pub user_id: String,
    pub code_challenge: Option<String>,
    pub code_challenge_meth: Option<String>,
    pub nonce: Option<String>,
    pub issued_at: u64,
    pub expires_at: u64,
}

/// What a `AuthCode` holds.
#[verifier::ext_equal]
pub struct AuthCodeV {
    pub code: Seq<char>,
    pub client_id: Seq<char>,
    pub redirect_uri: Seq<char>,
    pub scope: Seq<char>,
    pub user_id: Seq<char>,
    pub code_challenge: Option<Seq<char>>,
    pub code_challenge_meth: Option<Seq<char>>,
    pub nonce: Option<Seq<char>>,
    pub issued_at: u64,
    pub expires_at: u64,
}

impl View for AuthCode {
    type V = AuthCodeV;

    open spec fn view(&self) -> AuthCodeV {
        AuthCodeV {
            code: self.code@,
            client_id: self.client_id@,
            redirect_uri: self.redirect_uri@,
            scope: self.scope@,
            user_id: self.user_id@,
            code_challenge: text::opt_view(self.code_challenge),
            code_challenge_meth: text::opt_view(self.code_challenge_meth),
            nonce: text::opt_view(self.nonce),
            issued_at: self.issued_at,
            expires_at: self.expires_at,
        }
    }
}

impl Clone for AuthCode {
    fn clone(&self) -> (r: Self)
        ensures
            r@ == self@,
    {
        AuthCode {
            code: self.code.clone(),
            client_id: self.client_id.clone(),
            redirect_uri: self.redirect_uri.clone(),
            scope: self.scope.clone(),
            user_id: self.user_id.clone(),
            code_challenge: text::copy_opt(&self.code_challenge),
            code_challenge_meth: text::copy_opt(&self.code_challenge_meth),
            nonce: text::copy_opt(&self.nonce),
            issued_at: self.issued_at,
            expires_at: self.expires_at,
        }
    }
}

/// An authorization code as it is stored: with whether it was redeemed.
#[derive(Debug)]
pub struct CodeRow {
    pub code: AuthCode,
    pub used: bool,
}

/// What a `CodeRow` holds.
#[verifier::ext_equal]
pub struct CodeRowV {
    pub code: AuthCodeV,
    pub used: bool,
}

impl View for CodeRow {
    type V = CodeRowV;

    open spec fn view(&self) -> CodeRowV {
        CodeRowV {
            code: self.code@,
            used: self.used,
        }
    }
}

impl Clone for CodeRow {
    fn clone(&self) -> (r: Self)
        ensures
            r@ == self@,
    {
        CodeRow {
            code: self.code.clone(),
            used: self.used,
        }
    }
}

/// What a person decided about a client and a scope.
#[derive(Debug)]
pub struct Consent {
    pub user_id: String,
    pub client_id: String,
    pub scope: String,
    pub decision: String,
    pub updated_at: u64,
}

/// What a `Consent` holds.
#[verifier::ext_equal]
pub struct ConsentV {
    pub user_id: Seq<char>,
    pub client_id: Seq<char>,
    pub scope: Seq<char>,
    pub decision: Seq<char>,
    pub updated_at: u64,
}

impl View for Consent {
    type V = ConsentV;

    open spec fn view(&self) -> ConsentV {
        ConsentV {
            user_id: self.user_id@,
            client_id: self.client_id@,
            scope: self.scope@,
            decision: self.decision@,
            updated_at: self.updated_at,
        }
    }
}

impl Clone for Consent {
    fn clone(&self) -> (r: Self)
        ensures
            r@ == self@,
    {
        Consent {
            user_id: self.user_id.clone(),
            client_id: self.client_id.clone(),
            scope: self.scope.clone(),
            decision: self.decision.clone(),
            updated_at: self.updated_at,
        }
    }
}

/// A refresh token: `rotated_to` is the token that replaced it.
#[derive(Debug)]
pub struct RefreshToken {
    pub token: String,
    pub user_id: String,
    pub client_id: String,
    pub scope: String,
    pub issued_at: u64,
    pub expires_at: u64,
    pub rotated_to: Option<String>,
}

/// What a `RefreshToken` holds.
#[verifier::ext_equal]
pub struct RefreshTokenV {
    pub token: Seq<char>,
    pub user_id: Seq<char>,
    pub client_id: Seq<char>,
    pub scope: Seq<char>,
    pub issued_at: u64,
    pub expires_at: u64,
    pub rotated_to: Option<Seq<char>>,
}

impl View for RefreshToken {
    type V = RefreshTokenV;

    open spec fn view(&self) -> RefreshTokenV {
        RefreshTokenV {
            token: self.token@,
            user_id: self.user_id@,
            client_id: self.client_id@,
            scope: self.scope@,
            issued_at: self.issued_at,
            expires_at: self.expires_at,
            rotated_to: text::opt_view(self.rotated_to),
        }
    }
}

impl Clone for RefreshToken {
    fn clone(&self) -> (r: Self)
        ensures
            r@ == self@,
    {
        RefreshToken {
            token: self.token.clone(),
            user_id: self.user_id.clone(),
            client_id: self.client_id.clone(),
            scope: self.scope.clone(),
            issued_at: self.issued_at,
            expires_at: self.expires_at,
            rotated_to: text::copy_opt(&self.rotated_to),
        }
    }
}

/// An agent as it is stored: the scopes stand in one text, separated by spaces.
#[derive(Debug)]
pub struct AgentRow {
    pub id: String,
    pub owner_user_id: String,
    pub name: String,
    pub secret_hash: String,
    pub scopes: String,
    pub status: String,
    pub created_at: u64,
    pub metadata: String,
    pub last_seen: Option<u64>,
}

/// What a `AgentRow` holds.
#[verifier::ext_equal]
pub struct AgentRowV {
    pub id: Seq<char>,
    pub owner_user_id: Seq<char>,
    pub name: Seq<char>,
    pub secret_hash: Seq<char>,
    pub scopes: Seq<char>,
    pub status: Seq<char>,
    pub created_at: u64,
    pub metadata: Seq<char>,
    pub last_seen: Option<u64>,
}

impl View for AgentRow {
    type V = AgentRowV;

    open spec fn view(&self) -> AgentRowV {
        AgentRowV {
            id: self.id@,
            owner_user_id: self.owner_user_id@,
            name: self.name@,
            secret_hash: self.secret_hash@,
            scopes: self.scopes@,
            status: self.status@,
            created_at: self.created_at,
            metadata: self.metadata@,
            last_seen: self.last_seen,
        }
    }
}

impl Clone for AgentRow {
    fn clone(&self) -> (r: Self)
        ensures
            r@ == self@,
    {
        AgentRow {
            id: self.id.clone(),
            owner_user_id: self.owner_user_id.clone(),
            name: self.name.clone(),
            secret_hash: self.secret_hash.clone(),
            scopes: self.scopes.clone(),
            status: self.status.clone(),
            created_at: self.created_at,
            metadata: self.metadata.clone(),
            last_seen: self.last_seen,
        }
    }
}

/// An entry of the audit log.
#[derive(Debug)]
pub struct AuditEntry {
    pub at: u64,
    pub event: String,
    pub user_id: Option<String>,
    pub detail: String,
}

/// What a `AuditEntry` holds.
#[verifier::ext_equal]
pub struct AuditEntryV {
    pub at: u64,
    pub event: Seq<char>,
    pub user_id: Option<Seq<char>>,
    pub detail: Seq<char>,
}

impl View for AuditEntry {
    type V = AuditEntryV;

    open spec fn view(&self) -> AuditEntryV {
        AuditEntryV {
            at: self.at,
            event: self.event@,
            user_id: text::opt_view(self.user_id),
            detail: self.detail@,
        }
    }
}

impl Clone for AuditEntry {
    fn clone(&self) -> (r: Self)
        ensures
            r@ == self@,
    {
        AuditEntry {
            at: self.at,
            event: self.event.clone(),
            user_id: text::copy_opt(&self.user_id),
            detail: self.detail.clone(),
        }
    }
}

/// A registered client.
#[derive(Debug)]
pub struct Client {
    pub client_id: String,
    pub secret_hash: Option<String>,
    pub name: String,
    pub redirect_uris: Vec<String>,
    pub scopes: String,
    pub registration_type: String,
}

/// What a `Client` holds.
#[verifier::ext_equal]
pub struct ClientV {
    pub client_id: Seq<char>,
    pub secret_hash: Option<Seq<char>>,
    pub name: Seq<char>,
    pub redirect_uris: Seq<Seq<char>>,
    pub scopes: Seq<char>,
    pub registration_type: Seq<char>,
}

impl View for Client {
    type V = ClientV;

    open spec fn view(&self) -> ClientV {
        ClientV {
            client_id: self.client_id@,
            secret_hash: text::opt_view(self.secret_hash),
            name: self.name@,
            redirect_uris: text::list_view(self.redirect_uris@),
            scopes: self.scopes@,
            registration_type: self.registration_type@,
        }
    }
}

impl Clone for Client {
    fn clone(&self) -> (r: Self)
        ensures
            r@ == self@,
    {
        Client {
            client_id: self.client_id.clone(),
            secret_hash: text::copy_opt(&self.secret_hash),
            name: self.name.clone(),
            redirect_uris: text::copy_list(&self.redirect_uris),
            scopes: self.scopes.clone(),
            registration_type: self.registration_type.clone(),
        }
    }
}

/// A machine identity, owned by a person.
#[derive(Debug)]
pub struct Agent {
    pub id: String,
    pub owner_user_id: String,
    pub name: String,
    pub secret_hash: String,
    pub scopes: Vec<String>,
    pub status: String,
    pub created_at: u64,
}

/// What a `Agent` holds.
#[verifier::ext_equal]
pub struct AgentV {
    pub id: Seq<char>,
    pub owner_user_id: Seq<char>,
    pub name: Seq<char>,
    pub secret_hash: Seq<char>,
    pub scopes: Seq<Seq<char>>,
    pub status: Seq<char>,
    pub created_at: u64,
}

impl View for Agent {
    type V = AgentV;

    open spec fn view(&self) -> AgentV {
        AgentV {
            id: self.id@,
            owner_user_id: self.owner_user_id@,
            name: self.name@,
            secret_hash: self.secret_hash@,
            scopes: text::list_view(self.scopes@),
            status: self.status@,
            created_at: self.created_at,
        }
    }
}

impl Clone for Agent {
    fn clone(&self) -> (r: Self)
        ensures
            r@ == self@,
    {
        Agent {
            id: self.id.clone(),
            owner_user_id: self.owner_user_id.clone(),
            name: self.name.clone(),
            secret_hash: self.secret_hash.clone(),
            scopes: text::copy_list(&self.scopes),
            status: self.status.clone(),
            created_at: self.created_at,
        }
    }
}

/// What each row of a list holds.
pub open spec fn seq_view<T: View>(s: Seq<T>) -> Seq<T::V> {
    s.map_values(|x: T| x@)
}

/// What an optional row holds.
pub open spec fn opt_row<T: View>(o: Option<T>) -> Option<T::V> {
    match o {
        Some(x) => Some(x@),
        None => None,
    }
}

} // verus!
