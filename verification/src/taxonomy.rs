//! The closed vocabulary of failures and the wire form of each.

use vstd::prelude::*;

verus! {

/// A classified failure. Each kind stands for one fixed status, code and
/// message, and carries nothing else.
///
/// The lookups of this library answer with `IpAddressInvalid` and
/// `IpAddressNotFound` only. The other kinds belong to the same wire
/// vocabulary and are kept for whoever stands in front of the lookups: no
/// address is held back as reserved here, and nothing here reads a
/// credential.
#[derive(Clone, Copy, Debug, PartialEq, Eq, Structural)]
pub enum LookupError {
    /// The value is not the text of an IPv4 or IPv6 address.
    IpAddressInvalid,
    /// No address was given where one is needed.
    IpAddressRequired,
    /// The address is well formed and the database has no record for it.
    IpAddressNotFound,
    /// The address lies in a reserved or private range.
    IpAddressReserved,
    /// The credential names no account.
    AccountIdRequired,
    /// The account is not known.
    AccountIdUnknown,
    /// The pair of account and license key is not valid.
    AuthorizationInvalid,
    /// No license key was given.
    LicenseKeyRequired,
    /// The license key has no balance left to use.
    InsufficientFunds,
    /// The caller may not do this.
    PermissionRequired,
}

/// What is sent back for one request: the HTTP status and the body text.
#[derive(Debug, PartialEq, Eq)]
pub struct Reply {
    pub status: u16,
    pub body: String,
}

/// A reply as plain values.
pub struct ReplyView {
    pub status: u16,
    pub body: Seq<char>,
}

impl View for Reply {
    type V = ReplyView;

    open spec fn view(&self) -> ReplyView {
        ReplyView { status: self.status, body: self.body@ }
    }
}

/// Whether JSON writes every character of `s` as it stands inside a string:
/// no quote, no backslash, no control character.
pub open spec fn plain(s: Seq<char>) -> bool {
    forall|i: int| 0 <= i < s.len() ==> plain_char(#[trigger] s[i])
}

/// Whether JSON writes `c` as it stands inside a string.
pub open spec fn plain_char(c: char) -> bool {
    c != '"' && c != '\\' && c >= ' '
}

/// The compact JSON text of an object with two members whose names and
/// values are plain strings.
pub open spec fn object_text(
    first: Seq<char>,
    first_value: Seq<char>,
    second: Seq<char>,
    second_value: Seq<char>,
) -> Seq<char> {
    seq!['{', '"'] + first + seq!['"', ':', '"'] + first_value + seq!['"', ',', '"'] + second
        + seq!['"', ':', '"'] + second_value + seq!['"', '}']
}

/// Builds an object of two string members with `serde_json::Map::insert` and
/// renders it through the `Display` of `serde_json::Value`.
///
/// Believed, not proved: serde_json keeps the members in the order of their
/// names, and writes each name and value between quotes and unchanged where
/// it holds nothing to escape, with no white space.
#[verifier::external_body]
fn render_object(first: &str, first_value: &str, second: &str, second_value: &str) -> (text:
    String)
    requires
        plain(first@),
        plain(first_value@),
        plain(second@),
        plain(second_value@),
        first@.len() > 0,
        second@.len() > 0,
        first@[0] < second@[0],
    ensures
        text@ == object_text(first@, first_value@, second@, second_value@),
{
    let mut members = serde_json::Map::new();
    members.insert(first.to_string(), serde_json::Value::from(first_value));
    members.insert(second.to_string(), serde_json::Value::from(second_value));
    serde_json::Value::Object(members).to_string()
}

impl LookupError {
    /// The HTTP status of this kind of failure.
    pub open spec fn spec_status(self) -> u16 {
        match self {
            LookupError::IpAddressInvalid => 400,
            LookupError::IpAddressRequired => 400,
            LookupError::IpAddressNotFound => 404,
            LookupError::IpAddressReserved => 400,
            LookupError::AccountIdRequired => 401,
            LookupError::AccountIdUnknown => 401,
            LookupError::AuthorizationInvalid => 401,
            LookupError::LicenseKeyRequired => 402,
            LookupError::InsufficientFunds => 402,
            LookupError::PermissionRequired => 403,
        }
    }

    /// The machine-readable code of this kind of failure.
    pub open spec fn spec_code(self) -> Seq<char> {
        match self {
            LookupError::IpAddressInvalid => "IP_ADDRESS_INVALID"@,
            LookupError::IpAddressRequired => "IP_ADDRESS_REQUIRED"@,
            LookupError::IpAddressNotFound => "IP_ADDRESS_NOT_FOUND"@,
            LookupError::IpAddressReserved => "IP_ADDRESS_RESERVED"@,
            LookupError::AccountIdRequired => "ACCOUNT_ID_REQUIRED"@,
            LookupError::AccountIdUnknown => "ACCOUNT_ID_UNKNOWN"@,
            LookupError::AuthorizationInvalid => "AUTHORIZATION_INVALID"@,
            LookupError::LicenseKeyRequired => "LICENSE_KEY_REQUIRED"@,
            LookupError::InsufficientFunds => "INSUFFICIENT_FUNDS"@,
            LookupError::PermissionRequired => "PERMISSION_REQUIRED"@,
        }
    }

    /// The sentence that tells a person what went wrong.
    pub open spec fn spec_message(self) -> Seq<char> {
        match self {
            LookupError::IpAddressInvalid => "You have not supplied a valid IPv4 or IPv6 address."@,
            LookupError::IpAddressRequired =>
                "You have not supplied an IP address, which is a required field."@,
            LookupError::IpAddressNotFound => "The supplied IP address is not in the database."@,
            LookupError::IpAddressReserved =>
                "You have supplied an IP address which belongs to a reserved or private range."@,
            LookupError::AccountIdRequired =>
                "You have not supplied an account ID in the authorization credential."@,
            LookupError::AccountIdUnknown => "You have supplied an account ID that is not known."@,
            LookupError::AuthorizationInvalid =>
                "You have supplied an invalid pair of account ID and license key."@,
            LookupError::LicenseKeyRequired => "You have not supplied a license key."@,
            LookupError::InsufficientFunds =>
                "The license key you have supplied does not have sufficient funds."@,
            LookupError::PermissionRequired => "You do not have permission to use this service."@,
        }
    }

    /// The body that goes with this kind of failure: an object with the two
    /// members `code` and `error`.
    pub open spec fn spec_body(self) -> Seq<char> {
        object_text("code"@, self.spec_code(), "error"@, self.spec_message())
    }

    #[verifier::when_used_as_spec(spec_status)]
    pub fn status(self) -> (status: u16)
        ensures
            status == self.spec_status(),
    {
        match self {
            LookupError::IpAddressInvalid => 400,
            LookupError::IpAddressRequired => 400,
            LookupError::IpAddressNotFound => 404,
            LookupError::IpAddressReserved => 400,
            LookupError::AccountIdRequired => 401,
            LookupError::AccountIdUnknown => 401,
            LookupError::AuthorizationInvalid => 401,
            LookupError::LicenseKeyRequired => 402,
            LookupError::InsufficientFunds => 402,
            LookupError::PermissionRequired => 403,
        }
    }

    pub fn code(self) -> (code: &'static str)
        ensures
            code@ == self.spec_code(),
    {
        match self {
            LookupError::IpAddressInvalid => "IP_ADDRESS_INVALID",
            LookupError::IpAddressRequired => "IP_ADDRESS_REQUIRED",
            LookupError::IpAddressNotFound => "IP_ADDRESS_NOT_FOUND",
            LookupError::IpAddressReserved => "IP_ADDRESS_RESERVED",
            LookupError::AccountIdRequired => "ACCOUNT_ID_REQUIRED",
            LookupError::AccountIdUnknown => "ACCOUNT_ID_UNKNOWN",
            LookupError::AuthorizationInvalid => "AUTHORIZATION_INVALID",
            LookupError::LicenseKeyRequired => "LICENSE_KEY_REQUIRED",
            LookupError::InsufficientFunds => "INSUFFICIENT_FUNDS",
            LookupError::PermissionRequired => "PERMISSION_REQUIRED",
        }
    }

    pub fn message(self) -> (message: &'static str)
        ensures
            message@ == self.spec_message(),
    {
        match self {
            LookupError::IpAddressInvalid => "You have not supplied a valid IPv4 or IPv6 address.",
            LookupError::IpAddressRequired =>
                "You have not supplied an IP address, which is a required field.",
            LookupError::IpAddressNotFound => "The supplied IP address is not in the database.",
            LookupError::IpAddressReserved =>
                "You have supplied an IP address which belongs to a reserved or private range.",
            LookupError::AccountIdRequired =>
                "You have not supplied an account ID in the authorization credential.",
            LookupError::AccountIdUnknown => "You have supplied an account ID that is not known.",
            LookupError::AuthorizationInvalid =>
                "You have supplied an invalid pair of account ID and license key.",
            LookupError::LicenseKeyRequired => "You have not supplied a license key.",
            LookupError::InsufficientFunds =>
                "The license key you have supplied does not have sufficient funds.",
            LookupError::PermissionRequired => "You do not have permission to use this service.",
        }
    }

    /// Turns the failure into what is sent back: its status, and its code
    /// and message as the two members of a JSON object.
    pub fn into_response(self) -> (reply: Reply)
        ensures
            reply@.status == self.spec_status(),
            reply@.body == self.spec_body(),
    {
        let code = self.code();
        let message = self.message();
        proof {
            reveal_strlit("code");
            reveal_strlit("error");
            self.lemma_text_is_plain();
        }
        Reply { status: self.status(), body: render_object("code", code, "error", message) }
    }

    /// Neither a code nor a message holds a character that JSON would escape.
    pub proof fn lemma_text_is_plain(self)
        ensures
            plain(self.spec_code()),
            plain(self.spec_message()),
    {
        reveal_strlit("IP_ADDRESS_INVALID");
        reveal_strlit("IP_ADDRESS_REQUIRED");
        reveal_strlit("IP_ADDRESS_NOT_FOUND");
        reveal_strlit("IP_ADDRESS_RESERVED");
        reveal_strlit("ACCOUNT_ID_REQUIRED");
        reveal_strlit("ACCOUNT_ID_UNKNOWN");
        reveal_strlit("AUTHORIZATION_INVALID");
        reveal_strlit("LICENSE_KEY_REQUIRED");
        reveal_strlit("INSUFFICIENT_FUNDS");
        reveal_strlit("PERMISSION_REQUIRED");
        reveal_strlit("You have not supplied a valid IPv4 or IPv6 address.");
        reveal_strlit("You have not supplied an IP address, which is a required field.");
        reveal_strlit("The supplied IP address is not in the database.");
        reveal_strlit(
            "You have supplied an IP address which belongs to a reserved or private range.",
        );
        reveal_strlit("You have not supplied an account ID in the authorization credential.");
        reveal_strlit("You have supplied an account ID that is not known.");
        reveal_strlit("You have supplied an invalid pair of account ID and license key.");
        reveal_strlit("You have not supplied a license key.");
        reveal_strlit("The license key you have supplied does not have sufficient funds.");
        reveal_strlit("You do not have permission to use this service.");
    }
}

} // verus!
