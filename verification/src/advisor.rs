//! Text rules of the advisor proxy.
//!
//! The surrounding transport forwards a prompt to a language-model API;
//! what the library owns is the deterministic text work around that call:
//! assembling the instruction prompt and choosing the caller-safe reply for
//! an upstream error, without ever echoing the server credential.

use vstd::prelude::*;
use vstd::string::StringExecFns;

use crate::lex::str_lex_eq;

verus! {

/// The instruction prompt sent upstream: the caller's financial context,
/// the question, and the fixed advisor instructions, in that order.
pub open spec fn spec_advisor_prompt(context: Seq<char>, prompt: Seq<char>) -> Seq<char> {
    "Context: "@ + context + "\n\nUser Question: "@ + prompt
        + "\n\nInstructions: Provide short, professional financial advice as MasterUang AI Advisor. Respond in Indonesian unless the user speaks English. Be concise but thorough. Use bullet points when appropriate."@
}

/// Builds the upstream prompt.
pub fn build_advisor_prompt(context: &str, prompt: &str) -> (r: String)
    ensures
        r@ == spec_advisor_prompt(context@, prompt@),
{
    let mut out: String = "Context: ".to_owned();
    out.append(context);
    out.append("\n\nUser Question: ");
    out.append(prompt);
    out.append(
        "\n\nInstructions: Provide short, professional financial advice as MasterUang AI Advisor. Respond in Indonesian unless the user speaks English. Be concise but thorough. Use bullet points when appropriate.",
    );
    out
}

/// The caller-safe reply for an upstream error status: a fixed notice for
/// a denied credential, otherwise the upstream message behind a generic
/// prefix.
pub open spec fn spec_advisor_error_reply(status: Seq<char>, message: Seq<char>) -> Seq<char> {
    if status == "PERMISSION_DENIED"@ {
        "Akses AI ditolak. API Key tidak valid."@
    } else {
        "Layanan AI error: "@ + message
    }
}

/// Chooses the reply shown to the caller when the upstream API reports an
/// error.
pub fn advisor_error_reply(status: &str, message: &str) -> (r: String)
    ensures
        r@ == spec_advisor_error_reply(status@, message@),
{
    if str_lex_eq(status, "PERMISSION_DENIED") {
        "Akses AI ditolak. API Key tidak valid.".to_owned()
    } else {
        let mut out: String = "Layanan AI error: ".to_owned();
        out.append(message);
        out
    }
}

} // verus!
