//! The page chrome shared by every HTML page: header, stylesheet, scripts
//! and the page shell, rendered as HTML text.
use std::fmt::Write;
use vstd::prelude::*;
use vstd::string::StringExecFns;
use crate::db::repo::Repo;
use crate::text::{chars_of, vec_eq};
use crate::web::formatting::{decimal, decimal_string};

verus! {

/// What HTML escaping makes of one character: `&`, `<`, `>` and `"` become
/// entities, everything else stays.
pub open spec fn escape_char(c: char) -> Seq<char> {
    if c == '&' {
        "&amp;"@
    } else if c == '<' {
        "&lt;"@
    } else if c == '>' {
        "&gt;"@
    } else if c == '"' {
        "&quot;"@
    } else {
        seq![c]
    }
}

/// `s` escaped for HTML text and attribute values.
pub open spec fn spec_escape_html(s: Seq<char>) -> Seq<char>
    decreases s.len(),
{
    if s.len() == 0 {
        Seq::empty()
    } else {
        spec_escape_html(s.drop_last()) + escape_char(s.last())
    }
}

/// `s` written through maud's `Escaper`, which (as its documentation says)
/// escapes `&`, `<`, `>` and `"` and passes every other character through.
#[verifier::external_body]
pub(crate) fn escape_html(s: &str) -> (r: String)
    ensures
        r@ == spec_escape_html(s@),
{
    let mut out = String::new();
    let _ = write!(maud::Escaper::new(&mut out), "{}", s);
    out
}

pub open spec fn spec_stylesheet_link() -> Seq<char> {
    "<link rel=\"stylesheet\" href=\"/res/styles.css\">"@
}

pub open spec fn spec_scripts() -> Seq<char> {
    "<script src=\"/res/htmx.min.js\"></script>"@ + "<script src=\"/res/idiomorph.min.js\"></script>"@
        + "<script src=\"/res/idiomorph-ext.min.js\"></script>"@
}

pub fn stylesheet_link() -> (r: String)
    ensures
        r@ == spec_stylesheet_link(),
{
    String::from_str("<link rel=\"stylesheet\" href=\"/res/styles.css\">")
}

pub fn scripts() -> (r: String)
    ensures
        r@ == spec_scripts(),
{
    let mut r = String::from_str("<script src=\"/res/htmx.min.js\"></script>");
    r.append("<script src=\"/res/idiomorph.min.js\"></script>");
    r.append("<script src=\"/res/idiomorph-ext.min.js\"></script>");
    r
}

/// The class of the navigation item `key` when `active_page` is shown.
pub open spec fn nav_class(active_page: Seq<char>, key: Seq<char>) -> Seq<char> {
    if active_page == key {
        "header-nav-item active"@
    } else {
        "header-nav-item"@
    }
}

pub open spec fn spec_render(active_page: Seq<char>) -> Seq<char> {
    "<header class=\"header\"><div class=\"header-title\"><a href=\"/\">watchtower</a></div><nav class=\"header-nav\">"@
        + "<a class=\""@ + nav_class(active_page, "repos"@) + "\" href=\"/\">Repos</a>"@
        + "<a class=\""@ + nav_class(active_page, "metrics"@)
        + "\" href=\"/api/metrics\">Metrics</a>"@ + "</nav></header>"@
}

fn nav_item_class(active_page: &str, key: &str) -> (c: &'static str)
    ensures
        c@ == nav_class(active_page@, key@),
{
    if vec_eq(&chars_of(active_page), &chars_of(key)) {
        "header-nav-item active"
    } else {
        "header-nav-item"
    }
}

/// The page header: the site title and the navigation, with the item of
/// `active_page` marked active.
pub fn render(active_page: &str) -> (r: String)
    ensures
        r@ == spec_render(active_page@),
{
    let mut r = String::from_str(
        "<header class=\"header\"><div class=\"header-title\"><a href=\"/\">watchtower</a></div><nav class=\"header-nav\">",
    );
    r.append("<a class=\"");
    r.append(nav_item_class(active_page, "repos"));
    r.append("\" href=\"/\">Repos</a>");
    r.append("<a class=\"");
    r.append(nav_item_class(active_page, "metrics"));
    r.append("\" href=\"/api/metrics\">Metrics</a>");
    r.append("</nav></header>");
    r
}

pub open spec fn spec_page(
    title: Seq<char>,
    active_page: Seq<char>,
    page_class: Seq<char>,
    content: Seq<char>,
) -> Seq<char> {
    "<!DOCTYPE html><html lang=\"en\"><head><meta charset=\"UTF-8\">"@
        + "<meta name=\"viewport\" content=\"width=device-width, initial-scale=1.0\">"@
        + "<title>"@ + spec_escape_html(title) + " · watchtower</title>"@ + spec_stylesheet_link()
        + spec_scripts() + "</head><body class=\""@ + spec_escape_html(page_class + "-page"@)
        + "\" hx-ext=\"morph\">"@ + spec_render(active_page) + "<div class=\"content\">"@
        + content + "</div></body></html>"@
}

/// Common page shell: header chrome, stylesheet, htmx + idiomorph, around
/// `content` (already HTML). The title and page class are escaped.
pub fn page(title: &str, active_page: &str, page_class: &str, content: &str) -> (r: String)
    ensures
        r@ == spec_page(title@, active_page@, page_class@, content@),
{
    let mut r = String::from_str("<!DOCTYPE html><html lang=\"en\"><head><meta charset=\"UTF-8\">");
    r.append("<meta name=\"viewport\" content=\"width=device-width, initial-scale=1.0\">");
    r.append("<title>");
    r.append(escape_html(title).as_str());
    r.append(" · watchtower</title>");
    r.append(stylesheet_link().as_str());
    r.append(scripts().as_str());
    r.append("</head><body class=\"");
    let mut class = String::from_str(page_class);
    class.append("-page");
    r.append(escape_html(class.as_str()).as_str());
    r.append("\" hx-ext=\"morph\">");
    r.append(render(active_page).as_str());
    r.append("<div class=\"content\">");
    r.append(content);
    r.append("</div></body></html>");
    r
}

pub open spec fn spec_render_heading(repo: Repo) -> Seq<char> {
    let id = decimal(repo.id as nat);
    "<div class=\"page-heading\"><h1>"@ + spec_escape_html(repo.registry@) + "/"@
        + spec_escape_html(repo.name@) + " "@ + if repo.active {
        "<span class=\"badge badge-active\">active</span>"@
    } else {
        "<span class=\"badge badge-inactive\">paused</span>"@
    } + "</h1><div><button class=\"button button-primary\" hx-post=\"/api/repo/"@ + id
        + "/refresh\" hx-swap=\"none\" title=\"Queue an immediate refresh\">Refresh now</button> "@
        + "<form class=\"inline-form\" action=\"/repo/"@ + id + "/toggle\" method=\"post\">"@
        + if repo.active {
        "<button class=\"button button-danger\" type=\"submit\">Pause tracking</button>"@
    } else {
        "<button class=\"button\" type=\"submit\">Resume tracking</button>"@
    } + "</form></div></div>"@
}

/// The heading of a repo's page: its name, whether it is tracked, and the
/// buttons that refresh it now and pause or resume it.
pub fn render_heading(repo: &Repo) -> (r: String)
    ensures
        r@ == spec_render_heading(*repo),
{
    let id = decimal_string(repo.id);
    let mut r = String::from_str("<div class=\"page-heading\"><h1>");
    r.append(escape_html(repo.registry.as_str()).as_str());
    r.append("/");
    r.append(escape_html(repo.name.as_str()).as_str());
    r.append(" ");
    if repo.active {
        r.append("<span class=\"badge badge-active\">active</span>");
    } else {
        r.append("<span class=\"badge badge-inactive\">paused</span>");
    }
    r.append("</h1><div><button class=\"button button-primary\" hx-post=\"/api/repo/");
    r.append(id.as_str());
    r.append("/refresh\" hx-swap=\"none\" title=\"Queue an immediate refresh\">Refresh now</button> ");
    r.append("<form class=\"inline-form\" action=\"/repo/");
    r.append(id.as_str());
    r.append("/toggle\" method=\"post\">");
    if repo.active {
        r.append("<button class=\"button button-danger\" type=\"submit\">Pause tracking</button>");
    } else {
        r.append("<button class=\"button\" type=\"submit\">Resume tracking</button>");
    }
    r.append("</form></div></div>");
    r
}

} // verus!
