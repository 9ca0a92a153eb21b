use vstd::prelude::*;
use crate::types::HoloHash;
use crate::conversions::{holo_hash_encode, holo_hash_encoding, lemma_hash_text_form};

verus! {

/// What a zome call knows of itself: the zome's name, the function's name and
/// the agent that made the call.
pub struct CallContext {
    pub zome_name: String,
    pub function_name: String,
    pub provenance: HoloHash,
}

/// The short form of an agent's key: characters 5 to 13 of its text.
pub open spec fn snip_text(agent: Seq<u8>) -> Seq<char> {
    holo_hash_encoding(agent).subrange(5, 13)
}

/// The context text of a zome call: who called which function of which
/// zome, and in whose chain.
pub open spec fn context_text(call: Option<(Seq<char>, Seq<char>, Seq<u8>)>, agent: Option<Seq<u8>>) -> Seq<char> {
    let call_part = match call {
        Some((zome, function, provenance)) =>
            "'"@ + zome + "::"@ + function + "()' by "@ + snip_text(provenance) + " "@,
        None => seq![],
    };
    let agent_part = match agent {
        Some(key) => "in chain of "@ + snip_text(key),
        None => seq![],
    };
    call_part + agent_part
}

/// Shorten an agent's key for printing: characters 5 to 13 of its text.
pub fn snip(agent: &HoloHash) -> (s: String)
    requires
        agent@.len() >= 9,
    ensures
        s@ == snip_text(agent@),
        s@.len() == 8,
{
    let text = holo_hash_encode(agent.0.as_slice());
    proof {
        lemma_hash_text_form(agent@);
    }
    let part = text.as_str().substring_ascii(5, 13);
    String::from_str(part)
}

/// The context of a zome call as text: `'zome::function()' by <agent> ` when
/// the call is known, then `in chain of <agent>` when the chain's agent is.
pub fn context_message(call: Option<CallContext>, agent: Option<HoloHash>) -> (s: String)
    requires
        call matches Some(c) ==> c.provenance@.len() >= 9,
        agent matches Some(a) ==> a@.len() >= 9,
    ensures
        s@ == context_text(
            match call {
                Some(c) => Some((c.zome_name@, c.function_name@, c.provenance@)),
                None => None,
            },
            match agent {
                Some(a) => Some(a@),
                None => None,
            },
        ),
{
    let mut msg = String::new();
    match &call {
        Some(c) => {
            msg.append("'");
            msg.append(c.zome_name.as_str());
            msg.append("::");
            msg.append(c.function_name.as_str());
            msg.append("()' by ");
            msg.append(snip(&c.provenance).as_str());
            msg.append(" ");
        },
        None => {},
    }
    let ghost call_part = msg@;
    match &agent {
        Some(a) => {
            msg.append("in chain of ");
            msg.append(snip(a).as_str());
        },
        None => {},
    }
    proof {
        reveal_strlit("'");
        reveal_strlit("::");
        reveal_strlit("()' by ");
        reveal_strlit(" ");
        reveal_strlit("in chain of ");
    }
    msg
}

/// The text of an error: its reason, then the zome call's context.
pub fn error_message(reason: &str, context: &str) -> (s: String)
    ensures
        s@ == reason@ + " ; Context: "@ + context@,
{
    let mut msg = String::from_str(reason);
    msg.append(" ; Context: ");
    msg.append(context);
    msg
}

/// The text logged when a zome call panics.
pub fn panic_message(context: &str, info: &str) -> (s: String)
    ensures
        s@ == "\n\nPanic during zome call "@ + context@ + "\n\n"@ + info@,
{
    let mut msg = String::from_str("\n\nPanic during zome call ");
    msg.append(context);
    msg.append("\n\n");
    msg.append(info);
    msg
}

} // verus!
