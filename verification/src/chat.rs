//! The chat flow's decisions around the agent: how a successful parse is
//! applied to the shared state, and the transcript notices for an agent
//! that cannot run.

use vstd::prelude::*;
use crate::agent::ParsedQuery;
use crate::state::{AppModel, AppState, MsgModel};

verus! {

/// The notice shown for a provider the agent cannot drive.
pub open spec fn spec_unsupported_provider(p: Seq<char>) -> Seq<char> {
    "Provider '"@ + p + "' not yet supported. Use Groq for now."@
}

/// Renders the unsupported-provider notice.
pub fn unsupported_provider_message(provider: &str) -> (r: String)
    ensures
        r@ == spec_unsupported_provider(provider@),
{
    String::from_str("Provider '").concat(provider).concat("' not yet supported. Use Groq for now.")
}

/// The notice shown when no credentials are configured.
pub fn not_configured_message() -> (r: String)
    ensures
        r@ == "LLM not configured. Please add your API key in Settings."@,
{
    String::from_str("LLM not configured. Please add your API key in Settings.")
}

impl AppState {
    /// Applies a successful parse: the extracted request replaces the
    /// current parameters, the rendered preview joins the transcript as a
    /// code message, and the agent identity is recorded.
    pub fn apply_parsed_query(
        &mut self,
        pq: ParsedQuery,
        preview: &str,
        provider: &str,
        model: &str,
    )
        ensures
            final(self)@ == (AppModel {
                query_params: pq@.params,
                messages: old(self)@.messages.push(
                    MsgModel { role: "assistant"@, content: preview@, msg_type: "code"@ },
                ),
                agent_configured: true,
                provider_name: provider@,
                model_name: model@,
                ..old(self)@
            }),
    {
        let ghost pqm = pq@;
        self.query_params = pq.params;
        self.add_message("assistant", preview, "code");
        self.agent_configured = true;
        self.provider_name = provider.to_owned();
        self.model_name = model.to_owned();
        proof {
            assert(self@ =~= (AppModel {
                query_params: pqm.params,
                messages: old(self)@.messages.push(
                    MsgModel { role: "assistant"@, content: preview@, msg_type: "code"@ },
                ),
                agent_configured: true,
                provider_name: provider@,
                model_name: model@,
                ..old(self)@
            }));
        }
    }
}

} // verus!
