//! The server's error values. Errors raised by outside libraries are held
//! by the text they display.
use vstd::prelude::*;

verus! {

#[derive(Debug)]
pub enum Error {
    Nip19(String),
    Http(String),
    Hyper(String),
    Nostrdb(String),
    NostrClient(String),
    Recv(String),
    Io(String),
    Generic(String),
    Timeout(String),
    Image(String),
    Secp(String),
    InvalidUri,
    NotFound,
    /// Profile picture is too big
    TooBig,
    InvalidNip19,
    InvalidProfilePic,
    CantRender,
    SliceErr,
    /// A page was to be completed but nothing was missing that a relay
    /// could be asked for
    NothingToFetch,
}

/// The text an error displays.
pub open spec fn message_spec(e: Error) -> Seq<char> {
    match e {
        Error::Nip19(m) => "Nip19 error: "@ + m@,
        Error::Http(m) => "HTTP error: "@ + m@,
        Error::Nostrdb(m) => "Nostrdb error: "@ + m@,
        Error::NostrClient(m) => "Nostr client error: "@ + m@,
        Error::NotFound => "Not found"@,
        Error::Recv(m) => "Recieve error: "@ + m@,
        Error::InvalidNip19 => "Invalid nip19 object"@,
        Error::SliceErr => "Array slice error"@,
        Error::TooBig => "Profile picture is too big"@,
        Error::InvalidProfilePic => "Profile picture is corrupt"@,
        Error::CantRender => "Error rendering"@,
        Error::Image(m) => "Image error: "@ + m@,
        Error::Timeout(m) => "Timeout error: "@ + m@,
        Error::InvalidUri => "Invalid url"@,
        Error::Hyper(m) => "Hyper error: "@ + m@,
        Error::Generic(m) => "Generic error: "@ + m@,
        Error::Io(m) => "Io error: "@ + m@,
        Error::Secp(m) => "Signature error: "@ + m@,
        Error::NothingToFetch => "Nothing to fetch"@,
    }
}

fn prefixed(prefix: &str, m: &String) -> (res: String)
    ensures
        res@ == prefix@ + m@,
{
    let mut s = prefix.to_owned();
    s.append(m.as_str());
    s
}

impl Error {
    /// The text this error displays.
    pub fn message(&self) -> (res: String)
        ensures
            res@ == message_spec(*self),
    {
        match self {
            Error::Nip19(m) => prefixed("Nip19 error: ", m),
            Error::Http(m) => prefixed("HTTP error: ", m),
            Error::Nostrdb(m) => prefixed("Nostrdb error: ", m),
            Error::NostrClient(m) => prefixed("Nostr client error: ", m),
            Error::NotFound => "Not found".to_owned(),
            Error::Recv(m) => prefixed("Recieve error: ", m),
            Error::InvalidNip19 => "Invalid nip19 object".to_owned(),
            Error::SliceErr => "Array slice error".to_owned(),
            Error::TooBig => "Profile picture is too big".to_owned(),
            Error::InvalidProfilePic => "Profile picture is corrupt".to_owned(),
            Error::CantRender => "Error rendering".to_owned(),
            Error::Image(m) => prefixed("Image error: ", m),
            Error::Timeout(m) => prefixed("Timeout error: ", m),
            Error::InvalidUri => "Invalid url".to_owned(),
            Error::Hyper(m) => prefixed("Hyper error: ", m),
            Error::Generic(m) => prefixed("Generic error: ", m),
            Error::Io(m) => prefixed("Io error: ", m),
            Error::Secp(m) => prefixed("Signature error: ", m),
            Error::NothingToFetch => "Nothing to fetch".to_owned(),
        }
    }
}

} // verus!
