//! The webhook debug list: recently received webhook events, each behind
//! a disclosure that loads its payload on first open.
use vstd::prelude::*;
use vstd::string::StringExecFns;

verus! {

pub open spec fn spec_webhook_event_row() -> Seq<char> {
    "<details class=\"webhook-event\" hx-preserve=\"true\" hx-trigger=\"toggle once\" hx-target=\"find .webhook-payload\" hx-swap=\"innerHTML\">"@
        + "<summary class=\"webhook-event-summary\"></summary><div class=\"webhook-payload\">Loading…</div></details>"@
}

/// One received event, collapsed; its payload loads when it is opened.
pub fn render_event_row() -> (r: String)
    ensures
        r@ == spec_webhook_event_row(),
{
    let mut r = String::from_str(
        "<details class=\"webhook-event\" hx-preserve=\"true\" hx-trigger=\"toggle once\" hx-target=\"find .webhook-payload\" hx-swap=\"innerHTML\">",
    );
    r.append("<summary class=\"webhook-event-summary\"></summary><div class=\"webhook-payload\">Loading…</div></details>");
    r
}

pub open spec fn spec_webhook_rows(n: nat) -> Seq<char>
    decreases n,
{
    if n == 0 {
        Seq::empty()
    } else {
        spec_webhook_rows((n - 1) as nat) + spec_webhook_event_row()
    }
}

/// The list of `events` received events, or a note that none has arrived.
pub open spec fn spec_webhook_list(events: nat) -> Seq<char> {
    if events == 0 {
        "<div class=\"empty-state\"><h2>No webhook events yet</h2><p>Events will appear here as they are received.</p></div>"@
    } else {
        spec_webhook_rows(events)
    }
}

pub fn render_webhook_list(events: usize) -> (r: String)
    ensures
        r@ == spec_webhook_list(events as nat),
{
    if events == 0 {
        return String::from_str(
            "<div class=\"empty-state\"><h2>No webhook events yet</h2><p>Events will appear here as they are received.</p></div>",
        );
    }
    let mut r = String::new();
    let mut i: usize = 0;
    while i < events
        invariant
            i <= events,
            r@ == spec_webhook_rows(i as nat),
        decreases events - i,
    {
        r.append(render_event_row().as_str());
        i = i + 1;
    }
    r
}

} // verus!
