//! The repo list: one row per tracked repo, with its status, tag counts,
//! freshness and health.
use vstd::prelude::*;
use vstd::string::StringExecFns;
use crate::db::repo::Repo;
use crate::db::repo_state::RepoState;
use crate::web::formatting::{decimal, decimal_string, format_ago, spec_ago};
use crate::web::header::{escape_html, page, spec_escape_html, spec_page};

verus! {

pub open spec fn spec_health(failures: u32, last_checked: Option<i64>) -> (Seq<char>, Seq<char>) {
    if failures > 0 {
        ("status-error"@, decimal(failures as nat) + " consecutive failures"@)
    } else if last_checked is Some {
        ("status-ok"@, "ok"@)
    } else {
        ("status-pending"@, "awaiting first refresh"@)
    }
}

/// A repo's health as the list shows it: the status dot's class and the
/// text beside it. A failing repo shows its failure streak; otherwise a
/// repo refreshed at least once is ok, and one never refreshed is
/// awaiting its first refresh.
pub fn repo_health(failures: u32, last_checked: Option<i64>) -> (r: (&'static str, String))
    ensures
        r.0@ == spec_health(failures, last_checked).0,
        r.1@ == spec_health(failures, last_checked).1,
{
    if failures > 0 {
        let mut text = decimal_string(failures as u64);
        text.append(" consecutive failures");
        ("status-error", text)
    } else if last_checked.is_some() {
        ("status-ok", String::from_str("ok"))
    } else {
        ("status-pending", String::from_str("awaiting first refresh"))
    }
}

/// How many of a repo's tags are gone from the registry, when any are:
/// the tags on record beyond the active ones.
pub fn gone_tags(active: u64, total: u64) -> (gone: Option<u64>)
    ensures
        gone == if total > active {
            Some((total - active) as u64)
        } else {
            None
        },
{
    if total > active {
        Some(total - active)
    } else {
        None
    }
}

/// What the list shows of one repo, as read from the database.
#[derive(Debug, Clone)]
pub struct RepoRow {
    pub repo: Repo,
    pub state: Option<RepoState>,
    /// Tags currently in the registry's list.
    pub active_tags: u64,
    /// Tags ever seen.
    pub total_tags: u64,
}

pub open spec fn row_last_checked(row: RepoRow) -> Option<i64> {
    match row.state {
        Some(s) => s.last_checked_at,
        None => None,
    }
}

pub open spec fn row_failures(row: RepoRow) -> u32 {
    match row.state {
        Some(s) => s.consecutive_failures,
        None => 0,
    }
}

pub open spec fn status_badge(active: bool) -> Seq<char> {
    if active {
        "<span class=\"badge badge-active\">active</span>"@
    } else {
        "<span class=\"badge badge-inactive\">paused</span>"@
    }
}

pub open spec fn gone_note(active: u64, total: u64) -> Seq<char> {
    if total > active {
        "<span class=\"cell-secondary\"> (+"@ + decimal((total - active) as nat) + " gone)</span>"@
    } else {
        Seq::empty()
    }
}

pub open spec fn pause_button(active: bool) -> Seq<char> {
    if active {
        "<button class=\"button button-small button-danger\" type=\"submit\">Pause</button>"@
    } else {
        "<button class=\"button button-small\" type=\"submit\">Resume</button>"@
    }
}

/// The row of one repo at `now`: its name linking to its page and its
/// registry, whether it is tracked, its active tags and how many are gone,
/// when it was last refreshed, its health, and the buttons that refresh it
/// now and pause or resume it.
pub open spec fn spec_repo_row(row: RepoRow, now: i64) -> Seq<char> {
    let id = decimal(row.repo.id as nat);
    let health = spec_health(row_failures(row), row_last_checked(row));
    "<tr><td><a href=\"/repo/"@ + id + "\">"@ + spec_escape_html(row.repo.name@)
        + "</a><div class=\"cell-secondary\">"@ + spec_escape_html(row.repo.registry@)
        + "</div></td><td>"@ + status_badge(row.repo.active) + "</td><td>"@
        + decimal(row.active_tags as nat) + gone_note(row.active_tags, row.total_tags)
        + "</td><td class=\"cell-secondary\">"@ + spec_escape_html(spec_ago(now, row_last_checked(row)))
        + "</td><td class=\"cell-secondary\"><span class=\""@ + spec_escape_html("status-dot "@ + health.0)
        + "\"></span>"@ + spec_escape_html(health.1)
        + "</td><td class=\"cell-actions\"><button class=\"button button-small\" hx-post=\"/api/repo/"@
        + id + "/refresh\" hx-swap=\"none\" title=\"Queue an immediate refresh\">Refresh now</button> "@
        + "<form class=\"inline-form\" action=\"/repo/"@ + id + "/toggle\" method=\"post\">"@
        + pause_button(row.repo.active) + "</form></td></tr>"@
}

fn render_gone_note(active: u64, total: u64) -> (r: String)
    ensures
        r@ == gone_note(active, total),
{
    match gone_tags(active, total) {
        Some(gone) => {
            let mut r = String::from_str("<span class=\"cell-secondary\"> (+");
            r.append(decimal_string(gone).as_str());
            r.append(" gone)</span>");
            r
        },
        None => String::new(),
    }
}

/// The row of one repo, with times relative to `now`.
pub fn render_repo_row(row: &RepoRow, now: i64) -> (r: String)
    ensures
        r@ == spec_repo_row(*row, now),
{
    let last_checked = match &row.state {
        Some(s) => s.last_checked_at,
        None => None,
    };
    let failures = match &row.state {
        Some(s) => s.consecutive_failures,
        None => 0,
    };
    let (dot_class, health) = repo_health(failures, last_checked);
    let id = decimal_string(row.repo.id);
    let mut r = String::from_str("<tr><td><a href=\"/repo/");
    r.append(id.as_str());
    r.append("\">");
    r.append(escape_html(row.repo.name.as_str()).as_str());
    r.append("</a><div class=\"cell-secondary\">");
    r.append(escape_html(row.repo.registry.as_str()).as_str());
    r.append("</div></td><td>");
    if row.repo.active {
        r.append("<span class=\"badge badge-active\">active</span>");
    } else {
        r.append("<span class=\"badge badge-inactive\">paused</span>");
    }
    r.append("</td><td>");
    r.append(decimal_string(row.active_tags).as_str());
    r.append(render_gone_note(row.active_tags, row.total_tags).as_str());
    r.append("</td><td class=\"cell-secondary\">");
    r.append(escape_html(format_ago(now, last_checked).as_str()).as_str());
    r.append("</td><td class=\"cell-secondary\"><span class=\"");
    let mut dot = String::from_str("status-dot ");
    dot.append(dot_class);
    r.append(escape_html(dot.as_str()).as_str());
    r.append("\"></span>");
    r.append(escape_html(health.as_str()).as_str());
    r.append("</td><td class=\"cell-actions\"><button class=\"button button-small\" hx-post=\"/api/repo/");
    r.append(id.as_str());
    r.append("/refresh\" hx-swap=\"none\" title=\"Queue an immediate refresh\">Refresh now</button> ");
    r.append("<form class=\"inline-form\" action=\"/repo/");
    r.append(id.as_str());
    r.append("/toggle\" method=\"post\">");
    if row.repo.active {
        r.append("<button class=\"button button-small button-danger\" type=\"submit\">Pause</button>");
    } else {
        r.append("<button class=\"button button-small\" type=\"submit\">Resume</button>");
    }
    r.append("</form></td></tr>");
    r
}

/// The rows of `rows`, in order.
pub open spec fn spec_repo_rows(rows: Seq<RepoRow>, now: i64) -> Seq<char>
    decreases rows.len(),
{
    if rows.len() == 0 {
        Seq::empty()
    } else {
        spec_repo_rows(rows.drop_last(), now) + spec_repo_row(rows.last(), now)
    }
}

/// The repo table: a row per repo, or an invitation to add one when there
/// are none.
pub open spec fn spec_repo_table(rows: Seq<RepoRow>, now: i64) -> Seq<char> {
    if rows.len() == 0 {
        "<div class=\"empty-state\"><h2>No repos tracked yet</h2><p>Add a registry + repository pair above to start tracking its tags.</p></div>"@
    } else {
        "<table class=\"data-table\"><thead><tr><th>Repo</th><th>Status</th><th>Tags</th><th>Last refreshed</th><th>Health</th><th></th></tr></thead><tbody>"@
            + spec_repo_rows(rows, now) + "</tbody></table>"@
    }
}

/// The repo table, with times relative to `now`.
pub fn render_repo_table(rows: &Vec<RepoRow>, now: i64) -> (r: String)
    ensures
        r@ == spec_repo_table(rows@, now),
{
    if rows.len() == 0 {
        return String::from_str(
            "<div class=\"empty-state\"><h2>No repos tracked yet</h2><p>Add a registry + repository pair above to start tracking its tags.</p></div>",
        );
    }
    let mut body = String::new();
    let mut i: usize = 0;
    while i < rows.len()
        invariant
            i <= rows@.len(),
            body@ == spec_repo_rows(rows@.take(i as int), now),
        decreases rows.len() - i,
    {
        proof {
            assert(rows@.take(i + 1).drop_last() =~= rows@.take(i as int));
        }
        body.append(render_repo_row(&rows[i], now).as_str());
        i = i + 1;
    }
    assert(rows@.take(rows.len() as int) =~= rows@);
    let mut r = String::from_str(
        "<table class=\"data-table\"><thead><tr><th>Repo</th><th>Status</th><th>Tags</th><th>Last refreshed</th><th>Health</th><th></th></tr></thead><tbody>",
    );
    r.append(body.as_str());
    r.append("</tbody></table>");
    r
}

/// The list page's content around the repo table: the form that adds a
/// repo, and the table, which re-renders every few seconds.
pub open spec fn spec_repos_content(table: Seq<char>) -> Seq<char> {
    "<div class=\"page-heading\"><h1>Tracked repos</h1><form class=\"add-repo-form\" action=\"/repo\" method=\"post\">"@
        + "<input type=\"text\" name=\"registry\" placeholder=\"registry (e.g. ghcr.io)\" required>"@
        + "<input type=\"text\" name=\"name\" placeholder=\"repository (e.g. qdm12/gluetun)\" required>"@
        + "<button class=\"button button-primary\" type=\"submit\">Track repo</button></form></div>"@
        + "<div id=\"repo-table\" hx-get=\"/fragments/repo-rows\" hx-trigger=\"every 5s\" hx-swap=\"morph:innerHTML\">"@
        + table + "</div>"@
}

/// The repo list page, with times relative to `now`.
pub fn render_repos_page(rows: &Vec<RepoRow>, now: i64) -> (r: String)
    ensures
        r@ == spec_page("Repos"@, "repos"@, "repos"@, spec_repos_content(spec_repo_table(rows@, now))),
{
    let mut content = String::from_str(
        "<div class=\"page-heading\"><h1>Tracked repos</h1><form class=\"add-repo-form\" action=\"/repo\" method=\"post\">",
    );
    content.append("<input type=\"text\" name=\"registry\" placeholder=\"registry (e.g. ghcr.io)\" required>");
    content.append("<input type=\"text\" name=\"name\" placeholder=\"repository (e.g. qdm12/gluetun)\" required>");
    content.append("<button class=\"button button-primary\" type=\"submit\">Track repo</button></form></div>");
    content.append(
        "<div id=\"repo-table\" hx-get=\"/fragments/repo-rows\" hx-trigger=\"every 5s\" hx-swap=\"morph:innerHTML\">",
    );
    content.append(render_repo_table(rows, now).as_str());
    content.append("</div>");
    page("Repos", "repos", "repos", content.as_str())
}

} // verus!
