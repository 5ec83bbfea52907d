//! What goes over the wire at the protocol endpoints: the answers of the
//! token and introspection endpoints and the discovery document as JSON, the
//! redirects of the authorization endpoint, and the bearer token of a
//! request.

use vstd::prelude::*;
use crate::bytes::{append, list_view, opt_slice_view, to_vec};
use crate::iana::{GrantType, OAuthErrorCode, ResponseType};
use crate::ident::{id_text, spec_id_text};
use crate::jose::claims::{
    alg_name, kid_name, name_alg, name_kid, num_member, str_member, Claims,
};
use crate::jose::json::{enc_object, write_object, JsonValue, JsonValueView, MemberView};
use crate::jose::jwk::{JsonWebKeySet, JsonWebKeyView, PublicJsonWebKeyView};
use crate::session::{attributes_view, Attribute, AttributeView};
use crate::scope::join_spaces;
use crate::server::{TokenSet, TokenSetView};
use crate::token::{AccessToken, AccessTokenView};
use crate::upstream::flow::{percent_encode, write_percent_encoded};

verus! {

/// The text `access_token`.
pub open spec fn text_access_token() -> Seq<u8> {
    seq![0x61u8, 0x63u8, 0x63u8, 0x65u8, 0x73u8, 0x73u8, 0x5Fu8, 0x74u8, 0x6Fu8, 0x6Bu8, 0x65u8, 0x6Eu8]
}

/// The text `access_token`.
pub fn access_token_text() -> (r: Vec<u8>)
    ensures
        r@ == text_access_token(),
{
    vec![0x61u8, 0x63u8, 0x63u8, 0x65u8, 0x73u8, 0x73u8, 0x5Fu8, 0x74u8, 0x6Fu8, 0x6Bu8, 0x65u8, 0x6Eu8]
}

/// The text `token_type`.
pub open spec fn text_token_type() -> Seq<u8> {
    seq![0x74u8, 0x6Fu8, 0x6Bu8, 0x65u8, 0x6Eu8, 0x5Fu8, 0x74u8, 0x79u8, 0x70u8, 0x65u8]
}

/// The text `token_type`.
pub fn token_type_text() -> (r: Vec<u8>)
    ensures
        r@ == text_token_type(),
{
    vec![0x74u8, 0x6Fu8, 0x6Bu8, 0x65u8, 0x6Eu8, 0x5Fu8, 0x74u8, 0x79u8, 0x70u8, 0x65u8]
}

/// The text `expires_in`.
pub open spec fn text_expires_in() -> Seq<u8> {
    seq![0x65u8, 0x78u8, 0x70u8, 0x69u8, 0x72u8, 0x65u8, 0x73u8, 0x5Fu8, 0x69u8, 0x6Eu8]
}

/// The text `expires_in`.
pub fn expires_in_text() -> (r: Vec<u8>)
    ensures
        r@ == text_expires_in(),
{
    vec![0x65u8, 0x78u8, 0x70u8, 0x69u8, 0x72u8, 0x65u8, 0x73u8, 0x5Fu8, 0x69u8, 0x6Eu8]
}

/// The text `refresh_token`.
pub open spec fn text_refresh_token() -> Seq<u8> {
    seq![0x72u8, 0x65u8, 0x66u8, 0x72u8, 0x65u8, 0x73u8, 0x68u8, 0x5Fu8, 0x74u8, 0x6Fu8, 0x6Bu8, 0x65u8, 0x6Eu8]
}

/// The text `refresh_token`.
pub fn refresh_token_text() -> (r: Vec<u8>)
    ensures
        r@ == text_refresh_token(),
{
    vec![0x72u8, 0x65u8, 0x66u8, 0x72u8, 0x65u8, 0x73u8, 0x68u8, 0x5Fu8, 0x74u8, 0x6Fu8, 0x6Bu8, 0x65u8, 0x6Eu8]
}

/// The text `id_token`.
pub open spec fn text_id_token() -> Seq<u8> {
    seq![0x69u8, 0x64u8, 0x5Fu8, 0x74u8, 0x6Fu8, 0x6Bu8, 0x65u8, 0x6Eu8]
}

/// The text `id_token`.
pub fn id_token_text() -> (r: Vec<u8>)
    ensures
        r@ == text_id_token(),
{
    vec![0x69u8, 0x64u8, 0x5Fu8, 0x74u8, 0x6Fu8, 0x6Bu8, 0x65u8, 0x6Eu8]
}

/// The text `error`.
pub open spec fn text_error() -> Seq<u8> {
    seq![0x65u8, 0x72u8, 0x72u8, 0x6Fu8, 0x72u8]
}

/// The text `error`.
pub fn error_text() -> (r: Vec<u8>)
    ensures
        r@ == text_error(),
{
    vec![0x65u8, 0x72u8, 0x72u8, 0x6Fu8, 0x72u8]
}

/// The text `error_description`.
pub open spec fn text_error_description() -> Seq<u8> {
    seq![0x65u8, 0x72u8, 0x72u8, 0x6Fu8, 0x72u8, 0x5Fu8, 0x64u8, 0x65u8, 0x73u8, 0x63u8, 0x72u8, 0x69u8, 0x70u8, 0x74u8, 0x69u8, 0x6Fu8, 0x6Eu8]
}

/// The text `error_description`.
pub fn error_description_text() -> (r: Vec<u8>)
    ensures
        r@ == text_error_description(),
{
    vec![0x65u8, 0x72u8, 0x72u8, 0x6Fu8, 0x72u8, 0x5Fu8, 0x64u8, 0x65u8, 0x73u8, 0x63u8, 0x72u8, 0x69u8, 0x70u8, 0x74u8, 0x69u8, 0x6Fu8, 0x6Eu8]
}

/// The text `active`.
pub open spec fn text_active() -> Seq<u8> {
    seq![0x61u8, 0x63u8, 0x74u8, 0x69u8, 0x76u8, 0x65u8]
}

/// The text `active`.
pub fn active_text() -> (r: Vec<u8>)
    ensures
        r@ == text_active(),
{
    vec![0x61u8, 0x63u8, 0x74u8, 0x69u8, 0x76u8, 0x65u8]
}

/// The text `scope`.
pub open spec fn text_scope() -> Seq<u8> {
    seq![0x73u8, 0x63u8, 0x6Fu8, 0x70u8, 0x65u8]
}

/// The text `scope`.
pub fn scope_text() -> (r: Vec<u8>)
    ensures
        r@ == text_scope(),
{
    vec![0x73u8, 0x63u8, 0x6Fu8, 0x70u8, 0x65u8]
}

/// The text `client_id`.
pub open spec fn text_client_id() -> Seq<u8> {
    seq![0x63u8, 0x6Cu8, 0x69u8, 0x65u8, 0x6Eu8, 0x74u8, 0x5Fu8, 0x69u8, 0x64u8]
}

/// The text `client_id`.
pub fn client_id_text() -> (r: Vec<u8>)
    ensures
        r@ == text_client_id(),
{
    vec![0x63u8, 0x6Cu8, 0x69u8, 0x65u8, 0x6Eu8, 0x74u8, 0x5Fu8, 0x69u8, 0x64u8]
}

/// The text `exp`.
pub open spec fn text_exp() -> Seq<u8> {
    seq![0x65u8, 0x78u8, 0x70u8]
}

/// The text `exp`.
pub fn exp_text() -> (r: Vec<u8>)
    ensures
        r@ == text_exp(),
{
    vec![0x65u8, 0x78u8, 0x70u8]
}

/// The text `iat`.
pub open spec fn text_iat() -> Seq<u8> {
    seq![0x69u8, 0x61u8, 0x74u8]
}

/// The text `iat`.
pub fn iat_text() -> (r: Vec<u8>)
    ensures
        r@ == text_iat(),
{
    vec![0x69u8, 0x61u8, 0x74u8]
}

/// The text `Bearer`.
pub open spec fn text_bearer() -> Seq<u8> {
    seq![0x42u8, 0x65u8, 0x61u8, 0x72u8, 0x65u8, 0x72u8]
}

/// The text `Bearer`.
pub fn bearer_text() -> (r: Vec<u8>)
    ensures
        r@ == text_bearer(),
{
    vec![0x42u8, 0x65u8, 0x61u8, 0x72u8, 0x65u8, 0x72u8]
}

/// The text `issuer`.
pub open spec fn text_issuer() -> Seq<u8> {
    seq![0x69u8, 0x73u8, 0x73u8, 0x75u8, 0x65u8, 0x72u8]
}

/// The text `issuer`.
pub fn issuer_text() -> (r: Vec<u8>)
    ensures
        r@ == text_issuer(),
{
    vec![0x69u8, 0x73u8, 0x73u8, 0x75u8, 0x65u8, 0x72u8]
}

/// The text `authorization_endpoint`.
pub open spec fn text_authorization_endpoint() -> Seq<u8> {
    seq![0x61u8, 0x75u8, 0x74u8, 0x68u8, 0x6Fu8, 0x72u8, 0x69u8, 0x7Au8, 0x61u8, 0x74u8, 0x69u8, 0x6Fu8, 0x6Eu8, 0x5Fu8, 0x65u8, 0x6Eu8, 0x64u8, 0x70u8, 0x6Fu8, 0x69u8, 0x6Eu8, 0x74u8]
}

/// The text `authorization_endpoint`.
pub fn authorization_endpoint_text() -> (r: Vec<u8>)
    ensures
        r@ == text_authorization_endpoint(),
{
    vec![0x61u8, 0x75u8, 0x74u8, 0x68u8, 0x6Fu8, 0x72u8, 0x69u8, 0x7Au8, 0x61u8, 0x74u8, 0x69u8, 0x6Fu8, 0x6Eu8, 0x5Fu8, 0x65u8, 0x6Eu8, 0x64u8, 0x70u8, 0x6Fu8, 0x69u8, 0x6Eu8, 0x74u8]
}

/// The text `token_endpoint`.
pub open spec fn text_token_endpoint() -> Seq<u8> {
    seq![0x74u8, 0x6Fu8, 0x6Bu8, 0x65u8, 0x6Eu8, 0x5Fu8, 0x65u8, 0x6Eu8, 0x64u8, 0x70u8, 0x6Fu8, 0x69u8, 0x6Eu8, 0x74u8]
}

/// The text `token_endpoint`.
pub fn token_endpoint_text() -> (r: Vec<u8>)
    ensures
        r@ == text_token_endpoint(),
{
    vec![0x74u8, 0x6Fu8, 0x6Bu8, 0x65u8, 0x6Eu8, 0x5Fu8, 0x65u8, 0x6Eu8, 0x64u8, 0x70u8, 0x6Fu8, 0x69u8, 0x6Eu8, 0x74u8]
}

/// The text `userinfo_endpoint`.
pub open spec fn text_userinfo_endpoint() -> Seq<u8> {
    seq![0x75u8, 0x73u8, 0x65u8, 0x72u8, 0x69u8, 0x6Eu8, 0x66u8, 0x6Fu8, 0x5Fu8, 0x65u8, 0x6Eu8, 0x64u8, 0x70u8, 0x6Fu8, 0x69u8, 0x6Eu8, 0x74u8]
}

/// The text `userinfo_endpoint`.
pub fn userinfo_endpoint_text() -> (r: Vec<u8>)
    ensures
        r@ == text_userinfo_endpoint(),
{
    vec![0x75u8, 0x73u8, 0x65u8, 0x72u8, 0x69u8, 0x6Eu8, 0x66u8, 0x6Fu8, 0x5Fu8, 0x65u8, 0x6Eu8, 0x64u8, 0x70u8, 0x6Fu8, 0x69u8, 0x6Eu8, 0x74u8]
}

/// The text `jwks_uri`.
pub open spec fn text_jwks_uri() -> Seq<u8> {
    seq![0x6Au8, 0x77u8, 0x6Bu8, 0x73u8, 0x5Fu8, 0x75u8, 0x72u8, 0x69u8]
}

/// The text `jwks_uri`.
pub fn jwks_uri_text() -> (r: Vec<u8>)
    ensures
        r@ == text_jwks_uri(),
{
    vec![0x6Au8, 0x77u8, 0x6Bu8, 0x73u8, 0x5Fu8, 0x75u8, 0x72u8, 0x69u8]
}

/// The text `introspection_endpoint`.
pub open spec fn text_introspection_endpoint() -> Seq<u8> {
    seq![0x69u8, 0x6Eu8, 0x74u8, 0x72u8, 0x6Fu8, 0x73u8, 0x70u8, 0x65u8, 0x63u8, 0x74u8, 0x69u8, 0x6Fu8, 0x6Eu8, 0x5Fu8, 0x65u8, 0x6Eu8, 0x64u8, 0x70u8, 0x6Fu8, 0x69u8, 0x6Eu8, 0x74u8]
}

/// The text `introspection_endpoint`.
pub fn introspection_endpoint_text() -> (r: Vec<u8>)
    ensures
        r@ == text_introspection_endpoint(),
{
    vec![0x69u8, 0x6Eu8, 0x74u8, 0x72u8, 0x6Fu8, 0x73u8, 0x70u8, 0x65u8, 0x63u8, 0x74u8, 0x69u8, 0x6Fu8, 0x6Eu8, 0x5Fu8, 0x65u8, 0x6Eu8, 0x64u8, 0x70u8, 0x6Fu8, 0x69u8, 0x6Eu8, 0x74u8]
}

/// The text `response_types_supported`.
pub open spec fn text_response_types_supported() -> Seq<u8> {
    seq![0x72u8, 0x65u8, 0x73u8, 0x70u8, 0x6Fu8, 0x6Eu8, 0x73u8, 0x65u8, 0x5Fu8, 0x74u8, 0x79u8, 0x70u8, 0x65u8, 0x73u8, 0x5Fu8, 0x73u8, 0x75u8, 0x70u8, 0x70u8, 0x6Fu8, 0x72u8, 0x74u8, 0x65u8, 0x64u8]
}

/// The text `response_types_supported`.
pub fn response_types_supported_text() -> (r: Vec<u8>)
    ensures
        r@ == text_response_types_supported(),
{
    vec![0x72u8, 0x65u8, 0x73u8, 0x70u8, 0x6Fu8, 0x6Eu8, 0x73u8, 0x65u8, 0x5Fu8, 0x74u8, 0x79u8, 0x70u8, 0x65u8, 0x73u8, 0x5Fu8, 0x73u8, 0x75u8, 0x70u8, 0x70u8, 0x6Fu8, 0x72u8, 0x74u8, 0x65u8, 0x64u8]
}

/// The text `grant_types_supported`.
pub open spec fn text_grant_types_supported() -> Seq<u8> {
    seq![0x67u8, 0x72u8, 0x61u8, 0x6Eu8, 0x74u8, 0x5Fu8, 0x74u8, 0x79u8, 0x70u8, 0x65u8, 0x73u8, 0x5Fu8, 0x73u8, 0x75u8, 0x70u8, 0x70u8, 0x6Fu8, 0x72u8, 0x74u8, 0x65u8, 0x64u8]
}

/// The text `grant_types_supported`.
pub fn grant_types_supported_text() -> (r: Vec<u8>)
    ensures
        r@ == text_grant_types_supported(),
{
    vec![0x67u8, 0x72u8, 0x61u8, 0x6Eu8, 0x74u8, 0x5Fu8, 0x74u8, 0x79u8, 0x70u8, 0x65u8, 0x73u8, 0x5Fu8, 0x73u8, 0x75u8, 0x70u8, 0x70u8, 0x6Fu8, 0x72u8, 0x74u8, 0x65u8, 0x64u8]
}

/// The text `id_token_signing_alg_values_supported`.
pub open spec fn text_id_token_signing_alg_values_supported() -> Seq<u8> {
    seq![0x69u8, 0x64u8, 0x5Fu8, 0x74u8, 0x6Fu8, 0x6Bu8, 0x65u8, 0x6Eu8, 0x5Fu8, 0x73u8, 0x69u8, 0x67u8, 0x6Eu8, 0x69u8, 0x6Eu8, 0x67u8, 0x5Fu8, 0x61u8, 0x6Cu8, 0x67u8, 0x5Fu8, 0x76u8, 0x61u8, 0x6Cu8, 0x75u8, 0x65u8, 0x73u8, 0x5Fu8, 0x73u8, 0x75u8, 0x70u8, 0x70u8, 0x6Fu8, 0x72u8, 0x74u8, 0x65u8, 0x64u8]
}

/// The text `id_token_signing_alg_values_supported`.
pub fn id_token_signing_alg_values_supported_text() -> (r: Vec<u8>)
    ensures
        r@ == text_id_token_signing_alg_values_supported(),
{
    vec![0x69u8, 0x64u8, 0x5Fu8, 0x74u8, 0x6Fu8, 0x6Bu8, 0x65u8, 0x6Eu8, 0x5Fu8, 0x73u8, 0x69u8, 0x67u8, 0x6Eu8, 0x69u8, 0x6Eu8, 0x67u8, 0x5Fu8, 0x61u8, 0x6Cu8, 0x67u8, 0x5Fu8, 0x76u8, 0x61u8, 0x6Cu8, 0x75u8, 0x65u8, 0x73u8, 0x5Fu8, 0x73u8, 0x75u8, 0x70u8, 0x70u8, 0x6Fu8, 0x72u8, 0x74u8, 0x65u8, 0x64u8]
}

/// The text `code=`.
pub open spec fn text_code_param() -> Seq<u8> {
    seq![0x63u8, 0x6Fu8, 0x64u8, 0x65u8, 0x3Du8]
}

/// The text `code=`.
pub fn code_param_text() -> (r: Vec<u8>)
    ensures
        r@ == text_code_param(),
{
    vec![0x63u8, 0x6Fu8, 0x64u8, 0x65u8, 0x3Du8]
}

/// The text `&state=`.
pub open spec fn text_state_param() -> Seq<u8> {
    seq![0x26u8, 0x73u8, 0x74u8, 0x61u8, 0x74u8, 0x65u8, 0x3Du8]
}

/// The text `&state=`.
pub fn state_param_text() -> (r: Vec<u8>)
    ensures
        r@ == text_state_param(),
{
    vec![0x26u8, 0x73u8, 0x74u8, 0x61u8, 0x74u8, 0x65u8, 0x3Du8]
}

/// The text `error=`.
pub open spec fn text_error_param() -> Seq<u8> {
    seq![0x65u8, 0x72u8, 0x72u8, 0x6Fu8, 0x72u8, 0x3Du8]
}

/// The text `error=`.
pub fn error_param_text() -> (r: Vec<u8>)
    ensures
        r@ == text_error_param(),
{
    vec![0x65u8, 0x72u8, 0x72u8, 0x6Fu8, 0x72u8, 0x3Du8]
}

/// The text `&error_description=`.
pub open spec fn text_description_param() -> Seq<u8> {
    seq![0x26u8, 0x65u8, 0x72u8, 0x72u8, 0x6Fu8, 0x72u8, 0x5Fu8, 0x64u8, 0x65u8, 0x73u8, 0x63u8, 0x72u8, 0x69u8, 0x70u8, 0x74u8, 0x69u8, 0x6Fu8, 0x6Eu8, 0x3Du8]
}

/// The text `&error_description=`.
pub fn description_param_text() -> (r: Vec<u8>)
    ensures
        r@ == text_description_param(),
{
    vec![0x26u8, 0x65u8, 0x72u8, 0x72u8, 0x6Fu8, 0x72u8, 0x5Fu8, 0x64u8, 0x65u8, 0x73u8, 0x63u8, 0x72u8, 0x69u8, 0x70u8, 0x74u8, 0x69u8, 0x6Fu8, 0x6Eu8, 0x3Du8]
}

/// The text `Bearer `.
pub open spec fn text_bearer_prefix() -> Seq<u8> {
    seq![0x42u8, 0x65u8, 0x61u8, 0x72u8, 0x65u8, 0x72u8, 0x20u8]
}

/// The text `Bearer `.
pub fn bearer_prefix_text() -> (r: Vec<u8>)
    ensures
        r@ == text_bearer_prefix(),
{
    vec![0x42u8, 0x65u8, 0x61u8, 0x72u8, 0x65u8, 0x72u8, 0x20u8]
}

/// A member that holds a string, where there is one.
pub open spec fn opt_str_member(name: Seq<u8>, x: Option<Seq<u8>>) -> Seq<MemberView> {
    match x {
        Some(v) => seq![str_member(name, v)],
        None => Seq::<MemberView>::empty(),
    }
}

/// The members of the answer of the token endpoint: the access token, its
/// type, for how long it is valid, and the refresh token and the ID token
/// where they were issued.
pub open spec fn token_response_members(set: TokenSetView) -> Seq<MemberView> {
    seq![
        str_member(text_access_token(), set.access_token),
        str_member(text_token_type(), text_bearer()),
        num_member(text_expires_in(), set.expires_in),
    ] + opt_str_member(text_refresh_token(), set.refresh_token) + opt_str_member(
        text_id_token(),
        set.id_token,
    )
}

/// The answer of the token endpoint, as JSON.
pub fn token_response(set: &TokenSet) -> (r: Vec<u8>)
    ensures
        r@ == enc_object(token_response_members(set@)),
{
    let mut c = Claims::new();
    c.push(access_token_text(), JsonValue::Str(to_vec(set.access_token.as_slice())));
    c.push(token_type_text(), JsonValue::Str(bearer_text()));
    c.push(expires_in_text(), JsonValue::Num(set.expires_in));
    match &set.refresh_token {
        Some(t) => c.push(refresh_token_text(), JsonValue::Str(to_vec(t.as_slice()))),
        None => {},
    }
    match &set.id_token {
        Some(t) => c.push(id_token_text(), JsonValue::Str(to_vec(t.as_slice()))),
        None => {},
    }
    proof {
        assert(c@ =~= token_response_members(set@));
    }
    write_object(&c.members)
}

/// The members of an error answer: the error code and its description.
pub open spec fn error_response_members(code: OAuthErrorCode, description: Seq<u8>) -> Seq<
    MemberView,
> {
    seq![
        str_member(text_error(), code.spec_name()),
        str_member(text_error_description(), description),
    ]
}

/// An error answer, as JSON.
pub fn error_response(code: OAuthErrorCode, description: &[u8]) -> (r: Vec<u8>)
    ensures
        r@ == enc_object(error_response_members(code, description@)),
{
    let mut c = Claims::new();
    c.push(error_text(), JsonValue::Str(code.name()));
    c.push(error_description_text(), JsonValue::Str(to_vec(description)));
    proof {
        assert(c@ =~= error_response_members(code, description@));
    }
    write_object(&c.members)
}

/// The members of the answer of the introspection endpoint: for a token
/// that is not usable, that it is not active and nothing more; for one that
/// is, its scope, its client, and when it was issued and expires.
pub open spec fn introspection_members(token: Option<AccessTokenView>) -> Seq<MemberView> {
    match token {
        None => seq![MemberView { name: text_active(), value: JsonValueView::Bool(false) }],
        Some(t) => seq![
            MemberView { name: text_active(), value: JsonValueView::Bool(true) },
            str_member(text_scope(), join_spaces(t.scope)),
            str_member(text_client_id(), spec_id_text(t.client_id)),
            str_member(text_token_type(), text_bearer()),
            num_member(text_exp(), t.expires_at),
            num_member(text_iat(), t.created_at),
        ],
    }
}

/// The view of an optional access token.
pub open spec fn opt_access_view(token: Option<AccessToken>) -> Option<AccessTokenView> {
    match token {
        Some(t) => Some(t@),
        None => None,
    }
}

/// The answer of the introspection endpoint for what introspection found,
/// as JSON.
pub fn introspection_response(token: &Option<AccessToken>) -> (r: Vec<u8>)
    ensures
        r@ == enc_object(introspection_members(opt_access_view(*token))),
{
    let mut c = Claims::new();
    match token {
        None => {
            c.push(active_text(), JsonValue::Bool(false));
        },
        Some(t) => {
            c.push(active_text(), JsonValue::Bool(true));
            c.push(scope_text(), JsonValue::Str(t.scope.to_bytes()));
            c.push(client_id_text(), JsonValue::Str(id_text(t.client_id)));
            c.push(token_type_text(), JsonValue::Str(bearer_text()));
            c.push(exp_text(), JsonValue::Num(t.expires_at));
            c.push(iat_text(), JsonValue::Num(t.created_at));
        },
    }
    proof {
        assert(c@ =~= introspection_members(opt_access_view(*token)));
    }
    write_object(&c.members)
}

/// What joins a query to `uri`: `?`, or `&` where `uri` has a query
/// already.
pub open spec fn query_separator(uri: Seq<u8>) -> u8 {
    if uri.contains(0x3Fu8) {
        0x26
    } else {
        0x3F
    }
}

/// What joins a query to `uri`.
pub fn separator_for(uri: &[u8]) -> (r: u8)
    ensures
        r == query_separator(uri@),
{
    let mut i: usize = 0;
    while i < uri.len()
        invariant
            i <= uri.len(),
            forall|j: int| 0 <= j < i ==> uri@[j] != 0x3Fu8,
        decreases uri.len() - i,
    {
        if uri[i] == 0x3F {
            return 0x26;
        }
        i = i + 1;
    }
    0x3F
}

/// The `state` parameter of a redirect, where the request had a state.
pub open spec fn state_parameter(state: Option<Seq<u8>>) -> Seq<u8> {
    match state {
        Some(s) => text_state_param() + percent_encode(s),
        None => Seq::<u8>::empty(),
    }
}

/// The URL to which the authorization endpoint sends the user with a code:
/// the redirect URI of the grant with the parameters `code` and, where the
/// request had one, `state`.
pub open spec fn spec_code_redirect(redirect_uri: Seq<u8>, code: Seq<u8>, state: Option<Seq<u8>>) -> Seq<
    u8,
> {
    redirect_uri.push(query_separator(redirect_uri)) + text_code_param() + percent_encode(code)
        + state_parameter(state)
}

/// The URL to which the authorization endpoint sends the user with a code.
pub fn code_redirect(redirect_uri: &[u8], code: &[u8], state: Option<&[u8]>) -> (r: Vec<u8>)
    ensures
        r@ == spec_code_redirect(redirect_uri@, code@, opt_slice_view(state)),
{
    let mut out = to_vec(redirect_uri);
    out.push(separator_for(redirect_uri));
    append(&mut out, code_param_text().as_slice());
    write_percent_encoded(&mut out, code);
    match state {
        Some(s) => {
            append(&mut out, state_param_text().as_slice());
            write_percent_encoded(&mut out, s);
        },
        None => {
            proof {
                assert(out@ + Seq::<u8>::empty() =~= out@);
            }
        },
    }
    out
}

/// The URL to which the authorization endpoint sends the user with an
/// error: the redirect URI with the parameters `error`,
/// `error_description` and, where the request had one, `state`.
pub open spec fn spec_error_redirect(
    redirect_uri: Seq<u8>,
    code: OAuthErrorCode,
    description: Seq<u8>,
    state: Option<Seq<u8>>,
) -> Seq<u8> {
    redirect_uri.push(query_separator(redirect_uri)) + text_error_param() + percent_encode(
        code.spec_name(),
    ) + text_description_param() + percent_encode(description) + state_parameter(state)
}

/// The URL to which the authorization endpoint sends the user with an
/// error.
pub fn error_redirect(
    redirect_uri: &[u8],
    code: OAuthErrorCode,
    description: &[u8],
    state: Option<&[u8]>,
) -> (r: Vec<u8>)
    ensures
        r@ == spec_error_redirect(
            redirect_uri@,
            code,
            description@,
            opt_slice_view(state),
        ),
{
    let mut out = to_vec(redirect_uri);
    out.push(separator_for(redirect_uri));
    append(&mut out, error_param_text().as_slice());
    write_percent_encoded(&mut out, code.name().as_slice());
    append(&mut out, description_param_text().as_slice());
    write_percent_encoded(&mut out, description);
    match state {
        Some(s) => {
            append(&mut out, state_param_text().as_slice());
            write_percent_encoded(&mut out, s);
        },
        None => {
            proof {
                assert(out@ + Seq::<u8>::empty() =~= out@);
            }
        },
    }
    out
}

/// The bearer token of an `Authorization` header: what follows `Bearer `,
/// where the header begins so and something follows.
pub open spec fn spec_bearer_token(header: Seq<u8>) -> Option<Seq<u8>> {
    if header.len() > 7 && header.subrange(0, 7) == text_bearer_prefix() {
        Some(header.subrange(7, header.len() as int))
    } else {
        None
    }
}

/// The bearer token of an `Authorization` header.
pub fn bearer_token(header: &[u8]) -> (r: Option<&[u8]>)
    ensures
        opt_slice_view(r) == spec_bearer_token(header@),
{
    if header.len() <= 7 {
        return None;
    }
    let prefix = bearer_prefix_text();
    let head = vstd::slice::slice_subrange(header, 0, 7);
    if !crate::bytes::bytes_eq(head, prefix.as_slice()) {
        return None;
    }
    Some(vstd::slice::slice_subrange(header, 7, header.len()))
}

/// The endpoints of a server.
#[derive(Debug, PartialEq, Eq)]
pub struct Endpoints {
    pub authorization: Vec<u8>,
    pub token: Vec<u8>,
    pub userinfo: Vec<u8>,
    pub jwks: Vec<u8>,
    pub introspection: Vec<u8>,
}

/// The algorithms with which the keys `keys` currently sign, in the order of
/// the keys.
pub open spec fn signing_algorithms(keys: Seq<JsonWebKeyView>) -> Seq<Seq<u8>>
    decreases keys.len(),
{
    if keys.len() == 0 {
        Seq::<Seq<u8>>::empty()
    } else if keys.last().signing {
        signing_algorithms(keys.drop_last()).push(keys.last().alg.spec_name())
    } else {
        signing_algorithms(keys.drop_last())
    }
}

/// A member that holds a list of strings.
pub open spec fn list_member(name: Seq<u8>, l: Seq<Seq<u8>>) -> MemberView {
    MemberView { name, value: JsonValueView::List(l) }
}

/// The members of the discovery document: the issuer, the endpoints, and
/// the response types, grant types and signing algorithms that are
/// supported.
pub open spec fn discovery_members(
    issuer: Seq<u8>,
    authorization: Seq<u8>,
    token: Seq<u8>,
    userinfo: Seq<u8>,
    jwks: Seq<u8>,
    introspection: Seq<u8>,
    keys: Seq<JsonWebKeyView>,
) -> Seq<MemberView> {
    seq![
        str_member(text_issuer(), issuer),
        str_member(text_authorization_endpoint(), authorization),
        str_member(text_token_endpoint(), token),
        str_member(text_userinfo_endpoint(), userinfo),
        str_member(text_jwks_uri(), jwks),
        str_member(text_introspection_endpoint(), introspection),
        list_member(
            text_response_types_supported(),
            seq![ResponseType::Code.spec_name(), ResponseType::CodeIdToken.spec_name()],
        ),
        list_member(
            text_grant_types_supported(),
            seq![GrantType::AuthorizationCode.spec_name(), GrantType::RefreshToken.spec_name()],
        ),
        list_member(text_id_token_signing_alg_values_supported(), signing_algorithms(keys)),
    ]
}

/// The discovery document, as JSON.
pub fn discovery_document(issuer: &[u8], endpoints: &Endpoints, keys: &JsonWebKeySet) -> (r: Vec<u8>)
    ensures
        r@ == enc_object(
            discovery_members(
                issuer@,
                endpoints.authorization@,
                endpoints.token@,
                endpoints.userinfo@,
                endpoints.jwks@,
                endpoints.introspection@,
                keys@,
            ),
        ),
{
    let published = keys.public_jwks();
    let mut algorithms: Vec<Vec<u8>> = Vec::new();
    let mut i: usize = 0;
    proof {
        assert(keys@.take(0) =~= Seq::<JsonWebKeyView>::empty());
        assert(list_view(algorithms@) =~= Seq::<Seq<u8>>::empty());
        assert(crate::jose::jwk::public_keys_view(published@).len() == published@.len());
        assert(keys@.map_values(|k: JsonWebKeyView| k.public()).len() == keys@.len());
    }
    while i < published.len()
        invariant
            i <= published.len(),
            published@.len() == keys@.len(),
            crate::jose::jwk::public_keys_view(published@) == keys@.map_values(
                |k: JsonWebKeyView| k.public(),
            ),
            list_view(algorithms@) == signing_algorithms(keys@.take(i as int)),
        decreases published.len() - i,
    {
        proof {
            assert(keys@.take(i as int + 1).drop_last() =~= keys@.take(i as int));
            assert(keys@.take(i as int + 1).last() == keys@[i as int]);
            assert(crate::jose::jwk::public_keys_view(published@)[i as int] == keys@[i as int].public());
            assert(published@[i as int]@ == keys@[i as int].public());
        }
        if published[i].signing {
            let ghost before = list_view(algorithms@);
            let name = published[i].alg.name();
            let ghost nv = name@;
            algorithms.push(name);
            proof {
                assert(list_view(algorithms@) =~= before.push(nv));
            }
        }
        i = i + 1;
    }
    proof {
        assert(keys@.take(keys@.len() as int) =~= keys@);
    }
    let mut c = Claims::new();
    c.push(issuer_text(), JsonValue::Str(to_vec(issuer)));
    c.push(authorization_endpoint_text(), JsonValue::Str(to_vec(endpoints.authorization.as_slice())));
    c.push(token_endpoint_text(), JsonValue::Str(to_vec(endpoints.token.as_slice())));
    c.push(userinfo_endpoint_text(), JsonValue::Str(to_vec(endpoints.userinfo.as_slice())));
    c.push(jwks_uri_text(), JsonValue::Str(to_vec(endpoints.jwks.as_slice())));
    c.push(
        introspection_endpoint_text(),
        JsonValue::Str(to_vec(endpoints.introspection.as_slice())),
    );
    let response_types: Vec<Vec<u8>> = vec![
        ResponseType::Code.name(),
        ResponseType::CodeIdToken.name(),
    ];
    proof {
        assert(list_view(response_types@) =~= seq![
            ResponseType::Code.spec_name(),
            ResponseType::CodeIdToken.spec_name(),
        ]);
    }
    c.push(response_types_supported_text(), JsonValue::List(response_types));
    let grant_types: Vec<Vec<u8>> = vec![
        GrantType::AuthorizationCode.name(),
        GrantType::RefreshToken.name(),
    ];
    proof {
        assert(list_view(grant_types@) =~= seq![
            GrantType::AuthorizationCode.spec_name(),
            GrantType::RefreshToken.spec_name(),
        ]);
    }
    c.push(grant_types_supported_text(), JsonValue::List(grant_types));
    c.push(id_token_signing_alg_values_supported_text(), JsonValue::List(algorithms));
    proof {
        assert(c@ =~= discovery_members(
            issuer@,
            endpoints.authorization@,
            endpoints.token@,
            endpoints.userinfo@,
            endpoints.jwks@,
            endpoints.introspection@,
            keys@,
        ));
    }
    write_object(&c.members)
}

/// The text `use`.
pub open spec fn text_use() -> Seq<u8> {
    seq![0x75u8, 0x73u8, 0x65u8]
}

/// The text `use`.
pub fn use_text() -> (r: Vec<u8>)
    ensures
        r@ == text_use(),
{
    vec![0x75u8, 0x73u8, 0x65u8]
}

/// The text `sig`.
pub open spec fn text_sig() -> Seq<u8> {
    seq![0x73u8, 0x69u8, 0x67u8]
}

/// The text `sig`.
pub fn sig_text() -> (r: Vec<u8>)
    ensures
        r@ == text_sig(),
{
    vec![0x73u8, 0x69u8, 0x67u8]
}

/// The text `{"keys":[`.
pub open spec fn text_jwks_open() -> Seq<u8> {
    seq![0x7Bu8, 0x22u8, 0x6Bu8, 0x65u8, 0x79u8, 0x73u8, 0x22u8, 0x3Au8, 0x5Bu8]
}

/// The text `{"keys":[`.
pub fn jwks_open_text() -> (r: Vec<u8>)
    ensures
        r@ == text_jwks_open(),
{
    vec![0x7Bu8, 0x22u8, 0x6Bu8, 0x65u8, 0x79u8, 0x73u8, 0x22u8, 0x3Au8, 0x5Bu8]
}

/// The text `]}`.
pub open spec fn text_jwks_close() -> Seq<u8> {
    seq![0x5Du8, 0x7Du8]
}

/// The text `]}`.
pub fn jwks_close_text() -> (r: Vec<u8>)
    ensures
        r@ == text_jwks_close(),
{
    vec![0x5Du8, 0x7Du8]
}

/// The members of what is published of a key: its identifier, its
/// algorithm, and that it is used for signatures. No secret is among them.
pub open spec fn key_members(k: PublicJsonWebKeyView) -> Seq<MemberView> {
    seq![
        str_member(name_kid(), k.kid),
        str_member(name_alg(), k.alg.spec_name()),
        str_member(text_use(), text_sig()),
    ]
}

/// The objects of the published keys, separated by commas.
pub open spec fn enc_keys(keys: Seq<PublicJsonWebKeyView>) -> Seq<u8>
    decreases keys.len(),
{
    if keys.len() == 0 {
        Seq::<u8>::empty()
    } else if keys.len() == 1 {
        enc_object(key_members(keys[0]))
    } else {
        enc_object(key_members(keys[0])) + seq![0x2Cu8] + enc_keys(keys.skip(1))
    }
}

/// The key set document: an object whose one member, `keys`, lists what is
/// published of each key.
pub open spec fn spec_jwks_document(keys: Seq<PublicJsonWebKeyView>) -> Seq<u8> {
    text_jwks_open() + enc_keys(keys) + text_jwks_close()
}

/// The key set document of what `keys` publish, as JSON.
pub fn jwks_document(keys: &JsonWebKeySet) -> (r: Vec<u8>)
    ensures
        r@ == spec_jwks_document(keys@.map_values(|k: JsonWebKeyView| k.public())),
{
    let published = keys.public_jwks();
    let ghost pv = crate::jose::jwk::public_keys_view(published@);
    let mut out = jwks_open_text();
    let ghost start = out@;
    let mut i: usize = 0;
    proof {
        assert(pv.skip(0) =~= pv);
        assert(pv.len() == published@.len());
    }
    while i < published.len()
        invariant
            i <= published.len(),
            pv == crate::jose::jwk::public_keys_view(published@),
            pv.len() == published@.len(),
            out@ + enc_keys(pv.skip(i as int)) == start + enc_keys(pv),
        decreases published.len() - i,
    {
        let k = &published[i];
        let mut c = Claims::new();
        c.push(kid_name(), JsonValue::Str(to_vec(k.kid.as_slice())));
        c.push(alg_name(), JsonValue::Str(k.alg.name()));
        c.push(use_text(), JsonValue::Str(sig_text()));
        let ghost before = out@;
        let object = write_object(&c.members);
        append(&mut out, object.as_slice());
        proof {
            let rest = pv.skip(i as int);
            assert(rest[0] == k@);
            assert(c@ =~= key_members(k@));
            assert(rest.skip(1) =~= pv.skip(i as int + 1));
        }
        if i + 1 < published.len() {
            out.push(0x2C);
            proof {
                let rest = pv.skip(i as int);
                let head = enc_object(key_members(rest[0]));
                assert(out@ =~= before + (head + seq![0x2Cu8]));
                assert((before + (head + seq![0x2Cu8])) + enc_keys(pv.skip(i as int + 1))
                    =~= before + (head + seq![0x2Cu8] + enc_keys(pv.skip(i as int + 1))));
            }
        } else {
            proof {
                let rest = pv.skip(i as int);
                assert(rest.len() == 1);
                assert(enc_keys(pv.skip(i as int + 1)) =~= Seq::<u8>::empty());
                assert(out@ + Seq::<u8>::empty() =~= out@);
            }
        }
        i = i + 1;
    }
    proof {
        assert(enc_keys(pv.skip(i as int)) =~= Seq::<u8>::empty());
        assert(out@ + Seq::<u8>::empty() =~= out@);
    }
    append(&mut out, jwks_close_text().as_slice());
    out
}

/// The members of the answer of the user-info endpoint: the attributes of
/// the account, each under its name.
pub open spec fn userinfo_members(attributes: Seq<AttributeView>) -> Seq<MemberView> {
    attributes.map_values(|a: AttributeView| str_member(a.name, a.value))
}

/// The answer of the user-info endpoint, as JSON.
pub fn userinfo_response(attributes: &Vec<Attribute>) -> (r: Vec<u8>)
    ensures
        r@ == enc_object(userinfo_members(attributes_view(attributes@))),
{
    let ghost av = attributes_view(attributes@);
    let mut c = Claims::new();
    let mut i: usize = 0;
    proof {
        assert(userinfo_members(av).take(0) =~= Seq::<MemberView>::empty());
    }
    while i < attributes.len()
        invariant
            i <= attributes.len(),
            av == attributes_view(attributes@),
            c@ == userinfo_members(av).take(i as int),
        decreases attributes.len() - i,
    {
        let a = &attributes[i];
        let ghost before = c@;
        c.push(to_vec(a.name.as_slice()), JsonValue::Str(to_vec(a.value.as_slice())));
        proof {
            assert(av[i as int] == a@);
            assert(userinfo_members(av).take(i as int + 1) =~= before.push(
                str_member(a@.name, a@.value),
            ));
        }
        i = i + 1;
    }
    proof {
        assert(userinfo_members(av).take(attributes.len() as int) =~= userinfo_members(av));
    }
    write_object(&c.members)
}

} // verus!
