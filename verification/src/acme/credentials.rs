//! The saved form of the credentials of an ACME account.
use instant_acme::AccountCredentials;
use vstd::prelude::*;

verus! {

/// The credentials of an account, of the crate instant-acme.
#[verifier::external_type_specification]
#[verifier::external_body]
pub struct ExAccountCredentials(instant_acme::AccountCredentials);

/// The text of the error with which `serde_json::from_str` refuses to read account
/// credentials of the crate instant-acme from a text; none where it reads some.
pub uninterp spec fn credentials_error(text: Seq<char>) -> Option<Seq<char>>;

/// Whether `text` is a JSON form of `credentials`: the order of some members is open, so
/// there may be several.
pub uninterp spec fn is_saved_form(
    text: Seq<char>,
    credentials: instant_acme::AccountCredentials,
) -> bool;

/// Whether a text holds account credentials.
pub open spec fn holds_credentials(text: Seq<char>) -> bool {
    credentials_error(text) is None
}

/// Whether `text` is a JSON form of `credentials` and of no others.
pub open spec fn reads_as(text: Seq<char>, credentials: instant_acme::AccountCredentials) -> bool {
    &&& is_saved_form(text, credentials)
    &&& forall|other: instant_acme::AccountCredentials| #[trigger]
        is_saved_form(text, other) ==> other == credentials
}

/// `serde_json::from_str` into the `AccountCredentials` of the crate instant-acme. Whether
/// it reads some, and its error otherwise, is a function of the text. What it reads are
/// the credentials of which the text is a JSON form: each member reads back as it was
/// written, so there are no others.
#[verifier::external_body]
fn read_credentials(text: &str) -> (r: Result<AccountCredentials, String>)
    ensures
        match r {
            Ok(credentials) => credentials_error(text@) is None && reads_as(text@, credentials),
            Err(reason) => credentials_error(text@) == Some(reason@),
        },
{
    serde_json::from_str(text).map_err(|err| err.to_string())
}

/// `serde_json::to_string` on the `AccountCredentials` of the crate instant-acme. It does
/// not fail on them, what it writes is a JSON form of them, and credentials can be read
/// from that.
#[verifier::external_body]
fn write_credentials(credentials: &AccountCredentials) -> (r: Result<String, String>)
    ensures
        match r {
            Ok(text) => credentials_error(text@) is None && is_saved_form(text@, *credentials),
            Err(_) => false,
        },
{
    serde_json::to_string(credentials).map_err(|err| err.to_string())
}

/// Whether `r` are the credentials that a text holds, or why it holds none.
pub open spec fn reads(text: Seq<char>, r: Result<AccountCredentials, String>) -> bool {
    match r {
        Ok(credentials) => holds_credentials(text) && reads_as(text, credentials),
        Err(reason) => credentials_error(text) == Some(reason@),
    }
}

/// Whether `r` is a text in which credentials are saved.
pub open spec fn saves(credentials: AccountCredentials, r: Result<String, String>) -> bool {
    match r {
        Ok(text) => holds_credentials(text@) && is_saved_form(text@, credentials),
        Err(_) => false,
    }
}

/// The account credentials that a text holds, or why it holds none.
pub fn parse_credentials(text: &str) -> (r: Result<AccountCredentials, String>)
    ensures
        reads(text@, r),
{
    read_credentials(text)
}

/// The text in which account credentials are saved: credentials can be read from it.
pub fn credentials_text(credentials: &AccountCredentials) -> (r: Result<String, String>)
    ensures
        saves(*credentials, r),
{
    write_credentials(credentials)
}

/// Credentials that are saved and read again are the same credentials, and neither fails.
pub proof fn credentials_survive_saving(
    credentials: AccountCredentials,
    saved: Result<String, String>,
    read: Result<AccountCredentials, String>,
)
    requires
        saves(credentials, saved),
        saved matches Ok(text) ==> reads(text@, read),
    ensures
        saved is Ok,
        read == Ok::<AccountCredentials, String>(credentials),
{
}

/// A text is read exactly where it holds credentials, and the reason is given otherwise.
pub proof fn only_credentials_are_read(text: Seq<char>, r: Result<AccountCredentials, String>)
    requires
        reads(text, r),
    ensures
        r is Ok <==> credentials_error(text) is None,
        r matches Err(reason) ==> credentials_error(text) == Some(reason@),
{
}

} // verus!
