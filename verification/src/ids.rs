use vstd::prelude::*;

verus! {

/// The canonical text of a 128-bit identifier: the lower-case hyphenated
/// rendering the uuid crate gives it. Which digits stand in the text of a
/// given value is left unstated; contracts only carry the text through.
pub uninterp spec fn uuid_text(id: u128) -> Seq<char>;

/// Relies on uuid::Uuid::new_v4 (read back through as_u128): a freshly drawn
/// random identifier. Nothing is promised of the value.
#[verifier::external_body]
pub(crate) fn fresh_id() -> u128 {
    uuid::Uuid::new_v4().as_u128()
}

/// Relies on uuid::Uuid's Display impl (reached through from_u128 and
/// to_string): the 36-character lower-case hyphenated text of the identifier,
/// a function of the value alone.
#[verifier::external_body]
pub(crate) fn id_text(id: u128) -> (r: String)
    ensures
        r@ == uuid_text(id),
        r@.len() == 36,
{
    uuid::Uuid::from_u128(id).to_string()
}

/// Relies on uuid::Uuid::parse_str (read back through as_u128): parsing the
/// hyphenated text of an identifier yields that identifier back.
#[verifier::external_body]
pub(crate) fn parse_id(s: &str) -> (r: Option<u128>)
    ensures
        forall|u: u128| s@ == #[trigger] uuid_text(u) ==> r == Some(u),
{
    uuid::Uuid::parse_str(s).ok().map(|u| u.as_u128())
}

} // verus!
