//! The fields of a kind-0 profile that pages show, and the names, handles
//! and pictures derived from them.
use vstd::prelude::*;
use crate::text::{trim, trim_seq};
use crate::escape::{encode_text, encode_double_quoted_attribute, esc_text, esc_attr};
use crate::nip19::opt_view;

verus! {

/// The profile metadata of an author, as stored. Each field is absent when
/// the profile does not set it.
#[derive(Debug)]
pub struct ProfileInfo {
    pub name: Option<String>,
    pub display_name: Option<String>,
    pub about: Option<String>,
    pub picture: Option<String>,
    pub nip05: Option<String>,
    pub website: Option<String>,
    pub lud16: Option<String>,
}

pub ghost struct ProfileView {
    pub name: Option<Seq<char>>,
    pub display_name: Option<Seq<char>>,
    pub about: Option<Seq<char>>,
    pub picture: Option<Seq<char>>,
    pub nip05: Option<Seq<char>>,
    pub website: Option<Seq<char>>,
    pub lud16: Option<Seq<char>>,
}

impl View for ProfileInfo {
    type V = ProfileView;

    open spec fn view(&self) -> ProfileView {
        ProfileView {
            name: opt_view(self.name),
            display_name: opt_view(self.display_name),
            about: opt_view(self.about),
            picture: opt_view(self.picture),
            nip05: opt_view(self.nip05),
            website: opt_view(self.website),
            lud16: opt_view(self.lud16),
        }
    }
}

pub open spec fn pv(p: Option<ProfileInfo>) -> Option<ProfileView> {
    match p {
        Some(p) => Some(p@),
        None => None,
    }
}

/// The value, when it holds something besides whitespace.
pub open spec fn non_blank(o: Option<Seq<char>>) -> Option<Seq<char>> {
    match o {
        Some(s) => if trim_seq(s).len() > 0 {
            Some(s)
        } else {
            None
        },
        None => None,
    }
}

/// The value, when it is not empty.
pub open spec fn non_empty(o: Option<Seq<char>>) -> Option<Seq<char>> {
    match o {
        Some(s) => if s.len() > 0 {
            Some(s)
        } else {
            None
        },
        None => None,
    }
}

/// The value trimmed, when the trimmed value is not empty.
pub open spec fn trimmed_non_empty(o: Option<Seq<char>>) -> Option<Seq<char>> {
    match o {
        Some(s) => if trim_seq(s).len() > 0 {
            Some(trim_seq(s))
        } else {
            None
        },
        None => None,
    }
}

pub open spec fn or_else(a: Option<Seq<char>>, b: Option<Seq<char>>) -> Option<Seq<char>> {
    match a {
        Some(x) => Some(x),
        None => b,
    }
}

pub open spec fn unwrap_or(a: Option<Seq<char>>, d: Seq<char>) -> Seq<char> {
    match a {
        Some(x) => x,
        None => d,
    }
}

/// The name to show for a profile: its display name, else its name, each
/// only when it is not blank.
pub open spec fn display_name_spec(p: Option<ProfileView>) -> Option<Seq<char>> {
    match p {
        Some(p) => or_else(non_blank(p.display_name), non_blank(p.name)),
        None => None,
    }
}

pub fn non_blank_of(o: &Option<String>) -> (res: Option<String>)
    ensures
        opt_view(res) == non_blank(opt_view(*o)),
{
    match o {
        Some(s) => {
            if trim(s.as_str()).as_str().unicode_len() > 0 {
                Some(s.clone())
            } else {
                None
            }
        },
        None => None,
    }
}

pub fn non_empty_of(o: &Option<String>) -> (res: Option<String>)
    ensures
        opt_view(res) == non_empty(opt_view(*o)),
{
    match o {
        Some(s) => {
            if s.as_str().unicode_len() > 0 {
                Some(s.clone())
            } else {
                None
            }
        },
        None => None,
    }
}

pub fn trimmed_non_empty_of(o: &Option<String>) -> (res: Option<String>)
    ensures
        opt_view(res) == trimmed_non_empty(opt_view(*o)),
{
    match o {
        Some(s) => {
            let t = trim(s.as_str());
            if t.as_str().unicode_len() > 0 {
                Some(t)
            } else {
                None
            }
        },
        None => None,
    }
}

/// Gets the display name for a profile, preferring the display name and
/// falling back to the name; blank values do not count.
pub fn get_profile_display_name(profile: &Option<ProfileInfo>) -> (res: Option<String>)
    ensures
        opt_view(res) == display_name_spec(pv(*profile)),
{
    match profile {
        Some(p) => match non_blank_of(&p.display_name) {
            Some(d) => Some(d),
            None => non_blank_of(&p.name),
        },
        None => None,
    }
}

/// The author's name as HTML text, `nostrich` when the profile has none.
pub open spec fn author_display_spec(p: Option<ProfileView>) -> Seq<char> {
    esc_text(unwrap_or(display_name_spec(p), "nostrich"@))
}

pub fn author_display_html(profile: &Option<ProfileInfo>) -> (res: String)
    ensures
        res@ == author_display_spec(pv(*profile)),
{
    match get_profile_display_name(profile) {
        Some(n) => encode_text(n.as_str()),
        None => encode_text("nostrich"),
    }
}

pub open spec fn profile_name(p: Option<ProfileView>) -> Option<Seq<char>> {
    match p {
        Some(p) => p.name,
        None => None,
    }
}

/// The `@name` handle markup, or nothing when the profile has no name.
pub open spec fn author_handle_spec(p: Option<ProfileView>) -> Seq<char> {
    match non_empty(profile_name(p)) {
        Some(n) => "<span class=\"damus-note-handle\">@"@ + esc_text(n) + "</span>"@,
        None => Seq::empty(),
    }
}

/// Returns the @username handle markup if available, empty string otherwise.
pub fn author_handle_html(profile: &Option<ProfileInfo>) -> (res: String)
    ensures
        res@ == author_handle_spec(pv(*profile)),
{
    let name = match profile {
        Some(p) => non_empty_of(&p.name),
        None => None,
    };
    match name {
        Some(n) => {
            let mut s = String::new();
            s.append("<span class=\"damus-note-handle\">@");
            let e = encode_text(n.as_str());
            s.append(e.as_str());
            s.append("</span>");
            s
        },
        None => String::new(),
    }
}

pub open spec fn profile_picture(p: Option<ProfileView>) -> Option<Seq<char>> {
    match p {
        Some(p) => p.picture,
        None => None,
    }
}

/// The profile picture URL as an attribute value: the trimmed picture, or
/// the placeholder image under `base_url`.
pub open spec fn pfp_url_attr_spec(p: Option<ProfileView>, base_url: Seq<char>) -> Seq<char> {
    esc_attr(
        unwrap_or(
            trimmed_non_empty(profile_picture(p)),
            base_url + "/img/no-profile.svg"@,
        ),
    )
}

pub fn pfp_url_attr(profile: &Option<ProfileInfo>, base_url: &str) -> (res: String)
    ensures
        res@ == pfp_url_attr_spec(pv(*profile), base_url@),
{
    let pic = match profile {
        Some(p) => trimmed_non_empty_of(&p.picture),
        None => None,
    };
    match pic {
        Some(u) => encode_double_quoted_attribute(u.as_str()),
        None => {
            let mut u = base_url.to_owned();
            u.append("/img/no-profile.svg");
            encode_double_quoted_attribute(u.as_str())
        },
    }
}

/// The author details shown on an embedded quote.
pub struct QuoteProfileInfo {
    pub display_name: Option<String>,
    pub username: Option<String>,
    pub pfp_url: Option<String>,
}

/// Display name (else name), `@name` and picture of a quoted author; empty
/// values do not count.
pub open spec fn quote_profile_spec(p: Option<ProfileView>) -> (
    Option<Seq<char>>,
    Option<Seq<char>>,
    Option<Seq<char>>,
) {
    match p {
        Some(p) => (
            or_else(non_empty(p.display_name), non_empty(p.name)),
            match non_empty(p.name) {
                Some(n) => Some("@"@ + n),
                None => None,
            },
            non_empty(p.picture),
        ),
        None => (None, None, None),
    }
}

pub fn quote_profile_info(profile: &Option<ProfileInfo>) -> (res: QuoteProfileInfo)
    ensures
        (opt_view(res.display_name), opt_view(res.username), opt_view(res.pfp_url)) == quote_profile_spec(
            pv(*profile),
        ),
{
    match profile {
        Some(p) => {
            let display_name = match non_empty_of(&p.display_name) {
                Some(d) => Some(d),
                None => non_empty_of(&p.name),
            };
            let username = match non_empty_of(&p.name) {
                Some(n) => {
                    let mut u = String::new();
                    u.append("@");
                    u.append(n.as_str());
                    Some(u)
                },
                None => None,
            };
            QuoteProfileInfo { display_name, username, pfp_url: non_empty_of(&p.picture) }
        },
        None => QuoteProfileInfo { display_name: None, username: None, pfp_url: None },
    }
}

} // verus!
