//! The last step before the page is written: minifying it for a release.
use vstd::prelude::*;
use vstd::utf8::{decode_utf8, valid_utf8};

verus! {

/// The bytes that minify-html makes of a page, with JavaScript and CSS minified too.
pub uninterp spec fn minified(html: Seq<char>) -> Seq<u8>;

/// Relies on `minify_html::minify`, with `minify_js` and `minify_css` set: its
/// output depends on the page and the settings alone.
#[verifier::external_body]
fn minify_page(html: &str) -> (r: Vec<u8>)
    ensures
        r@ == minified(html@),
{
    let cfg = minify_html::Cfg { minify_js: true, minify_css: true, ..minify_html::Cfg::new() };
    minify_html::minify(html.as_bytes(), &cfg)
}

/// Relies on `String::from_utf8`: text when the bytes are valid UTF-8, else none.
#[verifier::external_body]
fn text_of_bytes(b: Vec<u8>) -> (r: Option<String>)
    ensures
        r is Some <==> valid_utf8(b@),
        r is Some ==> r->0@ == decode_utf8(b@),
{
    String::from_utf8(b).ok()
}

/// The page as it is written: minified for a release, else unchanged. Fails
/// only when the minified bytes are not valid UTF-8.
pub fn finish_page(html: String, is_release: bool) -> (r: Result<String, String>)
    ensures
        !is_release ==> r == Ok::<String, String>(html),
        is_release ==> (r is Ok <==> valid_utf8(minified(html@))),
        is_release && r is Ok ==> r->Ok_0@ == decode_utf8(minified(html@)),
        r is Err ==> r->Err_0@ == "minified page is not valid UTF-8"@,
{
    if !is_release {
        return Ok(html);
    }
    match text_of_bytes(minify_page(html.as_str())) {
        Some(text) => Ok(text),
        None => Err(String::from_str("minified page is not valid UTF-8")),
    }
}

} // verus!
