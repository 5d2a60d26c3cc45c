//! Static assets: the packaged stylesheet and favicon, and the lookup that
//! serves them.  Any other asset name yields a 404 with an empty body; a
//! miss is an ordinary outcome, not an error.

use vstd::prelude::*;

verus! {

/// The packaged stylesheet, as a sequence of characters.
pub open spec fn theme_css_text() -> Seq<char> {
    "body{font-family:sans-serif;margin:2em auto;max-width:40em;color:#222}a{color:#06c}"@
}

/// The packaged favicon, as a sequence of characters.
pub open spec fn favicon_text() -> Seq<char> {
    "<svg xmlns=\"http://www.w3.org/2000/svg\" viewBox=\"0 0 16 16\"><circle cx=\"8\" cy=\"8\" r=\"7\" fill=\"#06c\"/></svg>"@
}

/// The packaged stylesheet.
pub fn theme_css() -> (s: String)
    ensures
        s@ == theme_css_text(),
{
    "body{font-family:sans-serif;margin:2em auto;max-width:40em;color:#222}a{color:#06c}".to_owned()
}

/// The packaged favicon.
pub fn favicon() -> (s: String)
    ensures
        s@ == favicon_text(),
{
    "<svg xmlns=\"http://www.w3.org/2000/svg\" viewBox=\"0 0 16 16\"><circle cx=\"8\" cy=\"8\" r=\"7\" fill=\"#06c\"/></svg>".to_owned()
}

/// What an asset request answers with: a status code, an optional
/// content-type header value, and the body.
pub struct AssetResponse {
    pub status: u16,
    pub content_type: Option<String>,
    pub body: String,
}

/// Look up an asset by name: the stylesheet is served as `text/css`, the
/// favicon with no explicit content-type header (the client sniffs it),
/// and any other name gets a 404 with an empty body.
pub fn handle_assets(path: &String) -> (r: AssetResponse)
    ensures
        path@ == "theme.css"@ ==> r.status == 200 && (match r.content_type {
            Some(c) => c@ == "text/css"@,
            None => false,
        }) && r.body@ == theme_css_text(),
        path@ == "favicon.svg"@ ==> r.status == 200 && r.content_type is None && r.body@
            == favicon_text(),
        path@ != "theme.css"@ && path@ != "favicon.svg"@ ==> r.status == 404 && r.content_type
            is None && r.body@ == Seq::<char>::empty(),
{
    proof {
        reveal_strlit("theme.css");
        reveal_strlit("favicon.svg");
        assert("theme.css"@.len() != "favicon.svg"@.len());
    }
    let css_name: String = "theme.css".to_owned();
    let icon_name: String = "favicon.svg".to_owned();
    if *path == css_name {
        AssetResponse { status: 200, content_type: Some("text/css".to_owned()), body: theme_css() }
    } else if *path == icon_name {
        AssetResponse { status: 200, content_type: None, body: favicon() }
    } else {
        AssetResponse { status: 404, content_type: None, body: String::new() }
    }
}

} // verus!
