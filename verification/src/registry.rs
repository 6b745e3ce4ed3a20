//! Registration with core's Registry service.

use vstd::prelude::*;
use vstd::string::*;

use crate::text::join3;

verus! {

/// The plugin that owns a storefront.
#[derive(Debug)]
pub struct Owner {
    pub endpoint: String,
    pub plugin_version: String,
}

/// The registry's answer.
#[derive(Debug)]
pub struct RegisterReply {
    pub accepted: bool,
    pub registration_token: Option<String>,
    pub current_owner: Option<Owner>,
}

/// What follows from the registry's answer.
#[derive(Debug)]
pub enum Registration {
    /// Serve, and keep the registration alive with this token.
    Serve { token: String },
    /// Refuse to start, for another process already owns the storefront. Who it
    /// is, is to be logged, if the registry says so.
    Refuse { report: Option<String> },
}

pub open spec fn owner_report(owner: Owner) -> Seq<char> {
    "Gog already owned by "@ + owner.endpoint@ + " (v"@ + owner.plugin_version@
        + "); refusing to start"@
}

/// Serves if the registry accepted the plugin, and refuses to start otherwise,
/// rather than silently serving traffic nobody will ever route to it.
pub fn registration(reply: RegisterReply) -> (decision: Registration)
    requires
        reply.accepted ==> reply.registration_token is Some,
    ensures
        match decision {
            Registration::Serve { token } => reply.accepted && reply.registration_token == Some(
                token,
            ),
            Registration::Refuse { report } => {
                &&& !reply.accepted
                &&& report.deep_view() == match reply.current_owner {
                    Some(owner) => Some(owner_report(owner)),
                    None => None,
                }
            },
        },
{
    if reply.accepted {
        Registration::Serve { token: reply.registration_token.unwrap() }
    } else {
        let report = match reply.current_owner {
            Some(owner) => {
                let mut text = join3("Gog already owned by ", owner.endpoint.as_str(), " (v");
                text.append(owner.plugin_version.as_str());
                text.append("); refusing to start");
                Some(text)
            },
            None => None,
        };
        Registration::Refuse { report }
    }
}

/// The plugin serves exactly if it was accepted, with the token of the reply; otherwise
/// it refuses to start, and reports the owner if the reply names one.
pub proof fn law_accepted_plugin_serves(reply: RegisterReply, decision: Registration)
    requires
        reply.accepted ==> reply.registration_token is Some,
        call_ensures(registration, (reply,), decision),
    ensures
        decision is Serve <==> reply.accepted,
        decision is Refuse <==> !reply.accepted,
        decision matches Registration::Serve { token } ==> reply.registration_token == Some(token),
        decision matches Registration::Refuse { report } ==> (report is Some
            <==> reply.current_owner is Some),
        decision matches Registration::Refuse { report: Some(text) } ==> text@
            == "Gog already owned by "@ + reply.current_owner->0.endpoint@ + " (v"@
            + reply.current_owner->0.plugin_version@ + "); refusing to start"@,
{
}

} // verus!
