//! What happens to a link that leaves the document: open it at once, or
//! keep it waiting for the user to confirm.
use vstd::prelude::*;

use crate::session::ExternalLinkBehavior;

verus! {

/// A click on the external link `url`: with `AskFirst` the link waits in
/// `pending_external_link` for confirmation and nothing opens yet; with
/// `OpenDirectly` the link is given back to be opened at once.
pub fn handle_external_link_click(
    behavior: ExternalLinkBehavior,
    pending_external_link: &mut Option<String>,
    url: String,
) -> (to_open: Option<String>)
    ensures
        behavior == ExternalLinkBehavior::AskFirst ==> *final(pending_external_link) == Some(url)
            && to_open is None,
        behavior == ExternalLinkBehavior::OpenDirectly ==> *final(pending_external_link)
            == *old(pending_external_link) && to_open == Some(url),
{
    match behavior {
        ExternalLinkBehavior::AskFirst => {
            *pending_external_link = Some(url);
            None
        },
        ExternalLinkBehavior::OpenDirectly => Some(url),
    }
}

/// The user's answer to the confirmation of a waiting link: confirming
/// opens it, cancelling drops it; either way it stops waiting. Without an
/// answer, or without a waiting link, nothing changes.
pub fn resolve_external_link_prompt(
    pending_external_link: &mut Option<String>,
    open_link: bool,
    cancel: bool,
) -> (to_open: Option<String>)
    ensures
        (*old(pending_external_link)) is None ==> (*final(pending_external_link)) is None
            && to_open is None,
        (*old(pending_external_link)) is Some && open_link ==> (*final(pending_external_link)) is None
            && to_open == *old(pending_external_link),
        (*old(pending_external_link)) is Some && !open_link && cancel ==> (*final(pending_external_link)) is None && to_open is None,
        !open_link && !cancel ==> *final(pending_external_link) == *old(pending_external_link)
            && to_open is None,
{
    if pending_external_link.is_none() {
        return None;
    }
    if open_link {
        let url = pending_external_link.take();
        url
    } else if cancel {
        *pending_external_link = None;
        None
    } else {
        None
    }
}

} // verus!
