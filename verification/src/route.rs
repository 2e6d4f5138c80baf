//! What the server answers for a request path, and the settings it reads
//! at start.
use vstd::prelude::*;
use crate::text::{has_suffix, has_prefix, str_eq, chars_of, sub_vec, string_of, parse_u64, parse_u64_spec};
use crate::nip19::{Nip19Ref, Nip19View, decode_nip19, spec_decode_nip19};
use crate::render::RenderData;

verus! {

/// The form a note or profile is served in, by the path's suffix.
#[derive(Debug, Clone, Copy, PartialEq, Eq, Structural)]
pub enum Format {
    Png,
    Json,
    Html,
}

/// What a request path asks for.
#[derive(Debug)]
pub enum Route {
    Metrics,
    Css,
    Font,
    DefaultPfp,
    Logo,
    Home,
    Robots,
    Sitemap,
    /// A note or profile named by a NIP-19 identifier
    Render { nip19: Nip19Ref, format: Format },
    /// A path that names nothing the server knows
    InvalidUrl,
}

pub ghost enum RouteView {
    Metrics,
    Css,
    Font,
    DefaultPfp,
    Logo,
    Home,
    Robots,
    Sitemap,
    Render { nip19: Nip19View, format: Format },
    InvalidUrl,
}

impl View for Route {
    type V = RouteView;

    open spec fn view(&self) -> RouteView {
        match self {
            Route::Metrics => RouteView::Metrics,
            Route::Css => RouteView::Css,
            Route::Font => RouteView::Font,
            Route::DefaultPfp => RouteView::DefaultPfp,
            Route::Logo => RouteView::Logo,
            Route::Home => RouteView::Home,
            Route::Robots => RouteView::Robots,
            Route::Sitemap => RouteView::Sitemap,
            Route::Render { nip19, format } => RouteView::Render { nip19: nip19@, format: *format },
            Route::InvalidUrl => RouteView::InvalidUrl,
        }
    }
}

pub open spec fn format_of(path: Seq<char>) -> Format {
    if has_suffix(path, ".png"@) {
        Format::Png
    } else if has_suffix(path, ".json"@) {
        Format::Json
    } else {
        Format::Html
    }
}

pub open spec fn suffix_len(f: Format) -> int {
    match f {
        Format::Png => 4,
        Format::Json => 5,
        Format::Html => 0,
    }
}

/// The route of a path: the fixed assets and pages first, else the
/// identifier between the leading `/` and a `.png` or `.json` suffix.
pub open spec fn route_spec(path: Seq<char>) -> RouteView {
    if path == "/metrics"@ {
        RouteView::Metrics
    } else if path == "/damus.css"@ {
        RouteView::Css
    } else if path == "/fonts/PoetsenOne-Regular.ttf"@ {
        RouteView::Font
    } else if path == "/assets/default_pfp.jpg"@ {
        RouteView::DefaultPfp
    } else if path == "/assets/logo_icon.png"@ {
        RouteView::Logo
    } else if path == "/"@ {
        RouteView::Home
    } else if path == "/robots.txt"@ {
        RouteView::Robots
    } else if path == "/sitemap.xml"@ {
        RouteView::Sitemap
    } else {
        let f = format_of(path);
        match spec_decode_nip19(path.subrange(1, path.len() - suffix_len(f))) {
            Some(n) => RouteView::Render { nip19: n, format: f },
            None => RouteView::InvalidUrl,
        }
    }
}

/// Routes a request path. Paths start with `/`.
pub fn route(path: &str) -> (res: Route)
    requires
        has_prefix(path@, "/"@),
    ensures
        res@ == route_spec(path@),
{
    if str_eq(path, "/metrics") {
        return Route::Metrics;
    }
    if str_eq(path, "/damus.css") {
        return Route::Css;
    }
    if str_eq(path, "/fonts/PoetsenOne-Regular.ttf") {
        return Route::Font;
    }
    if str_eq(path, "/assets/default_pfp.jpg") {
        return Route::DefaultPfp;
    }
    if str_eq(path, "/assets/logo_icon.png") {
        return Route::Logo;
    }
    if str_eq(path, "/") {
        return Route::Home;
    }
    if str_eq(path, "/robots.txt") {
        return Route::Robots;
    }
    if str_eq(path, "/sitemap.xml") {
        return Route::Sitemap;
    }
    let v = chars_of(path);
    let png = crate::text::ends_with_str(path, ".png");
    let json = crate::text::ends_with_str(path, ".json");
    let format = if png {
        Format::Png
    } else if json {
        Format::Json
    } else {
        Format::Html
    };
    let until: usize = if png {
        4
    } else if json {
        5
    } else {
        0
    };
    proof {
        reveal_strlit("/");
        reveal_strlit(".png");
        reveal_strlit(".json");
    }
    proof {
        assert(v@[0] == path@.take(1)[0]);
        if png {
            let t = path@.subrange(path@.len() - 4, path@.len() as int);
            assert(t[0] == '.');
            assert(v@[v@.len() - 4] == '.');
        }
        if json {
            let t = path@.subrange(path@.len() - 5, path@.len() as int);
            assert(t[0] == '.');
            assert(v@[v@.len() - 5] == '.');
        }
    }
    let id = sub_vec(&v, 1, v.len() - until);
    let id_text = string_of(&id);
    match decode_nip19(id_text.as_str()) {
        Some(n) => Route::Render { nip19: n, format },
        None => Route::InvalidUrl,
    }
}

/// What to send once the render data of a note or profile is known.
#[derive(Debug, Clone, Copy, PartialEq, Eq, Structural)]
pub enum Reply {
    /// The PNG card
    Png,
    /// The note as JSON
    NoteJson,
    /// Not found: profiles have no JSON form yet
    ProfileJsonMissing,
    NoteHtml,
    ProfileHtml,
}

pub open spec fn reply_spec(format: Format, is_note: bool) -> Reply {
    match format {
        Format::Png => Reply::Png,
        Format::Json => if is_note {
            Reply::NoteJson
        } else {
            Reply::ProfileJsonMissing
        },
        Format::Html => if is_note {
            Reply::NoteHtml
        } else {
            Reply::ProfileHtml
        },
    }
}

/// The reply for a format and the render data found.
pub fn reply_for(format: Format, render_data: &RenderData) -> (res: Reply)
    ensures
        res == reply_spec(format, render_data is Note),
{
    let is_note = match render_data {
        RenderData::Note(_) => true,
        RenderData::Profile(_) => false,
    };
    match format {
        Format::Png => Reply::Png,
        Format::Json => if is_note {
            Reply::NoteJson
        } else {
            Reply::ProfileJsonMissing
        },
        Format::Html => if is_note {
            Reply::NoteHtml
        } else {
            Reply::ProfileHtml
        },
    }
}

/// The relay request timeout in milliseconds: the `TIMEOUT_MS` setting when
/// it is a number, else 2000.
pub open spec fn timeout_ms_spec(setting: Option<Seq<char>>) -> u64 {
    match setting {
        Some(s) => match parse_u64_spec(s) {
            Some(n) => n,
            None => 2000,
        },
        None => 2000,
    }
}

pub fn timeout_ms(setting: Option<&str>) -> (res: u64)
    ensures
        res == timeout_ms_spec(
            match setting {
                Some(s) => Some(s@),
                None => None,
            },
        ),
{
    match setting {
        Some(s) => match parse_u64(s) {
            Some(n) => n,
            None => 2000,
        },
        None => 2000,
    }
}

} // verus!
