//! The endpoints, by name.

pub use crate::agents::{
    agents_create, agents_list, agents_set_status, AgentCreate, AgentStatusUpdate,
};
pub use crate::authorize::{authorize, authorize_consent, AuthorizeQuery, ConsentForm};
pub use crate::github::{
    github_advance, github_callback, github_finish, github_start, Fetched, GhCallback, GithubStep,
};
pub use crate::grants::{token, TokenRequest};
pub use crate::login::{
    login_form, login_submit, logout, logout_get, register_form, register_submit, LoginForm, NextQuery,
    RegisterForm, RegisterQuery,
};
pub use crate::oidc::{
    discovery, health, introspect, jwks, register_client, userinfo, ClientRegistration,
    IntrospectRequest,
};
