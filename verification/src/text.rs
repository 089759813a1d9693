//! The lines that are shown to the operator and sent down a pipe, and a
//! node's name as discovery services spell it.

use crate::keys::{public_key_text, secret_key_text, Identity, PublicKey};
use vstd::prelude::*;
use vstd::string::StringExecFns;

verus! {

/// The z-base-32 text of `bytes`.
pub uninterp spec fn zbase32_text(bytes: Seq<u8>) -> Seq<char>;

/// Calls `encode_full_bytes` of zbase32 on the 32 bytes. Trusted: the text
/// is a function of the bytes alone.
#[verifier::external_body]
fn zbase32_encode(bytes: &[u8; 32]) -> (text: String)
    ensures
        text@ == zbase32_text(bytes@),
{
    zbase32::encode_full_bytes(bytes.as_slice())
}

/// A node's public key in z-base-32, the spelling under which its address
/// record is published.
pub fn z32_node_id(node_id: &PublicKey) -> (text: String)
    ensures
        text@ == zbase32_text(node_id@),
{
    zbase32_encode(node_id.as_bytes())
}

/// The line that shows a broadcast: the sender, `> `, the text.
pub open spec fn broadcast_line(from: Seq<u8>, text: Seq<char>) -> Seq<char> {
    public_key_text(from) + "> "@ + text
}

/// The line that shows a direct message that was opened.
pub open spec fn direct_line(from: Seq<u8>, text: Seq<char>) -> Seq<char> {
    "got encrypted message from "@ + public_key_text(from) + ": "@ + text
}

/// The line that shows what `author` sent down a pipe: the author, `> `,
/// the line.
pub open spec fn author_line(author: Seq<char>, line: Seq<char>) -> Seq<char> {
    author + "> "@ + line
}

/// A line as it is sent down a pipe: with a line feed behind it.
pub open spec fn framed_line(line: Seq<char>) -> Seq<char> {
    line + "\n"@
}

/// The first line that a peer sends down a fresh pipe.
pub open spec fn greeting_line(me: Seq<u8>) -> Seq<char> {
    framed_line("hello from "@ + public_key_text(me))
}

/// What the operator is told of a fresh secret key, so that the next run can
/// be given it.
pub open spec fn secret_notice(secret: Seq<u8>) -> Seq<char> {
    "Using SECRET="@ + secret_key_text(secret) + "\nTo keep the node id stable, use \nSECRET="@
        + secret_key_text(secret) + " cargo run ...\n"@
}

/// Writes what the operator is told of the fresh secret key of `identity`.
pub fn format_secret_notice(identity: &Identity) -> (notice: String)
    ensures
        notice@ == secret_notice(identity.secret()),
{
    let secret = identity.secret_text();
    let mut notice = String::from_str("Using SECRET=");
    notice.append(secret.as_str());
    notice.append("\nTo keep the node id stable, use \nSECRET=");
    notice.append(secret.as_str());
    notice.append(" cargo run ...\n");
    notice
}

/// Writes the line that shows the broadcast `text` from `from`.
pub fn format_broadcast(from: &PublicKey, text: &str) -> (line: String)
    ensures
        line@ == broadcast_line(from@, text@),
{
    let mut line = from.to_text();
    line.append("> ");
    line.append(text);
    line
}

/// Writes the line that shows the opened direct message `text` from `from`.
pub fn format_direct(from: &PublicKey, text: &str) -> (line: String)
    ensures
        line@ == direct_line(from@, text@),
{
    let mut line = String::from_str("got encrypted message from ");
    line.append(from.to_text().as_str());
    line.append(": ");
    line.append(text);
    line
}

/// Writes the line that shows `line` as sent by `author`.
pub fn format_author_line(author: &str, line: &str) -> (shown: String)
    ensures
        shown@ == author_line(author@, line@),
{
    let mut shown = String::from_str(author);
    shown.append("> ");
    shown.append(line);
    shown
}

/// Writes `line` with the line feed that ends it on the wire.
pub fn frame_line(line: &str) -> (framed: String)
    ensures
        framed@ == framed_line(line@),
{
    let mut framed = String::from_str(line);
    framed.append("\n");
    framed
}

/// Writes the greeting of the peer `me`.
pub fn format_greeting(me: &PublicKey) -> (line: String)
    ensures
        line@ == greeting_line(me@),
{
    let mut line = String::from_str("hello from ");
    line.append(me.to_text().as_str());
    line.append("\n");
    line
}

} // verus!
