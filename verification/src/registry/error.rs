//! What can go wrong with the registry.

use vstd::prelude::*;
use crate::text;
use crate::text::{cat, cat3};

verus! {

/// Why a registry operation failed.
pub enum RegistryError {
    /// A registry key was not found.
    Key(String),
    /// A value of a registry key could not be read.
    Value { value: String, key: String },
    /// A text with a zero character inside cannot be handed to the registry. The number is
    /// where the zero stands among the UTF-16 code units.
    ContainsNul(usize),
    InvalidInstallKey,
    InvalidStoredClientPath,
    InvalidQrcProtocol,
    XdgMime,
    /// A MIME type could not be associated with the launcher.
    MimeSet { mime_type: String, error: String },
    XdgQueryFailed,
    QrcUnregistered,
    /// The user refused to run this program with more rights.
    Elevation(String),
}

/// The text of an error for the user. The operating system words the two that it reports
/// itself (a text with a zero character, refused rights).
pub open spec fn error_message(e: RegistryError) -> Option<Seq<char>> {
    match e {
        RegistryError::Key(key) => Some("registry key `"@ + key@ + "` not found"@),
        RegistryError::Value { value, key } => Some(
            "failed to get `"@ + value@ + "` of registry key `"@ + key@ + "`"@,
        ),
        RegistryError::ContainsNul(_) => None,
        RegistryError::InvalidInstallKey => Some("install key is invalid"@),
        RegistryError::InvalidStoredClientPath => Some("invalid stored client path"@),
        RegistryError::InvalidQrcProtocol => Some("invalid qrc protocol"@),
        RegistryError::XdgMime => Some(
            "xdg-mime command is not available. Please install xdg-utils"@,
        ),
        RegistryError::MimeSet { mime_type, error } => Some(
            "Failed to set MIME type association for "@ + mime_type@ + ": "@ + error@,
        ),
        RegistryError::XdgQueryFailed => Some("failed to query mime status"@),
        RegistryError::QrcUnregistered => Some("QRC protocol is not registered"@),
        RegistryError::Elevation(_) => None,
    }
}

impl RegistryError {
    /// The text of the error for the user.
    pub fn message(&self) -> (r: Option<String>)
        ensures
            crate::text::opt_string(r) == error_message(*self),
    {
        match self {
            RegistryError::Key(key) => Some(cat3("registry key `", key.as_str(), "` not found")),
            RegistryError::Value { value, key } => {
                let head = cat3("failed to get `", value.as_str(), "` of registry key `");
                Some(cat3(head.as_str(), key.as_str(), "`"))
            },
            RegistryError::ContainsNul(_) => None,
            RegistryError::InvalidInstallKey => Some("install key is invalid".to_owned()),
            RegistryError::InvalidStoredClientPath => Some("invalid stored client path".to_owned()),
            RegistryError::InvalidQrcProtocol => Some("invalid qrc protocol".to_owned()),
            RegistryError::XdgMime => Some(
                "xdg-mime command is not available. Please install xdg-utils".to_owned(),
            ),
            RegistryError::MimeSet { mime_type, error } => {
                let head = cat3(
                    "Failed to set MIME type association for ",
                    mime_type.as_str(),
                    ": ",
                );
                Some(cat(head.as_str(), error.as_str()))
            },
            RegistryError::XdgQueryFailed => Some("failed to query mime status".to_owned()),
            RegistryError::QrcUnregistered => Some("QRC protocol is not registered".to_owned()),
            RegistryError::Elevation(_) => None,
        }
    }
}

/// The text of an error names the key, the value or the MIME type that it is about; only the
/// errors that the operating system words have none.
pub proof fn message_names_what_failed(key: String, value: String)
    ensures
        ({
            let of_key = error_message(RegistryError::Key(key));
            let of_value = error_message(RegistryError::Value { value, key });
            let of_mime = error_message(RegistryError::MimeSet { mime_type: key, error: value });
            &&& of_key is Some && text::occurs(of_key->0, seq!['`'] + key@ + seq!['`'])
            &&& of_value is Some && text::occurs(of_value->0, seq!['`'] + key@ + seq!['`'])
            &&& text::occurs(of_value->0, seq!['`'] + value@ + seq!['`'])
            &&& of_mime is Some && text::occurs(of_mime->0, key@)
            &&& (": "@ + value@).is_suffix_of(of_mime->0)
        }),
{
    reveal_strlit("registry key `");
    reveal_strlit("` not found");
    reveal_strlit("failed to get `");
    reveal_strlit("` of registry key `");
    reveal_strlit("`");
    let k = seq!['`'] + key@ + seq!['`'];
    let v = seq!['`'] + value@ + seq!['`'];
    let a = "registry key `"@.drop_last();
    let b = "` not found"@.skip(1);
    assert("registry key `"@ + key@ + "` not found"@ =~= a + k + b);
    text::text_stands_where_it_was_put(a, k, b);
    let whole = "failed to get `"@ + value@ + "` of registry key `"@ + key@ + "`"@;
    let c = "failed to get `"@ + value@ + "` of registry key `"@.drop_last();
    let none = Seq::<char>::empty();
    assert(whole =~= c + k + none);
    text::text_stands_where_it_was_put(c, k, none);
    let d = "failed to get `"@.drop_last();
    let e = "` of registry key `"@.skip(1) + key@ + "`"@;
    assert(whole =~= d + v + e);
    text::text_stands_where_it_was_put(d, v, e);
    let lead = "Failed to set MIME type association for "@;
    let tail = ": "@ + value@;
    let mime = lead + key@ + ": "@ + value@;
    assert(mime =~= lead + key@ + tail);
    text::text_stands_where_it_was_put(lead, key@, tail);
    assert(mime.subrange(mime.len() - tail.len(), mime.len() as int) =~= tail);
}

} // verus!
