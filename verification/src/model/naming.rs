//! The names that the compiler gives to what it synthesizes: the transport
//! resource of a cross-runtime link and the identifiers of its two
//! connectors. Tools outside this crate find resources and connectors by
//! these names, so each is stated character by character.

use vstd::prelude::*;
use vstd::string::*;

verus! {

/// The lower-case hexadecimal digit of `n`, for `n` below sixteen.
pub open spec fn hex_digit(n: nat) -> char {
    if n == 0 {
        '0'
    } else if n == 1 {
        '1'
    } else if n == 2 {
        '2'
    } else if n == 3 {
        '3'
    } else if n == 4 {
        '4'
    } else if n == 5 {
        '5'
    } else if n == 6 {
        '6'
    } else if n == 7 {
        '7'
    } else if n == 8 {
        '8'
    } else if n == 9 {
        '9'
    } else if n == 10 {
        'a'
    } else if n == 11 {
        'b'
    } else if n == 12 {
        'c'
    } else if n == 13 {
        'd'
    } else if n == 14 {
        'e'
    } else {
        'f'
    }
}

/// The `digits` lowest hexadecimal digits of `v`, the most significant first.
pub open spec fn hex_lower(v: nat, digits: nat) -> Seq<char>
    decreases digits,
{
    if digits == 0 {
        Seq::empty()
    } else {
        hex_lower(v / 16, (digits - 1) as nat).push(hex_digit(v % 16))
    }
}

/// The text of an instance identifier: its 32 hexadecimal digits in lower
/// case, in groups of 8, 4, 4, 4 and 12 with a hyphen between groups.
pub open spec fn instance_text(id: u128) -> Seq<char> {
    let h = hex_lower(id as nat, 32);
    h.subrange(0, 8) + seq!['-'] + h.subrange(8, 12) + seq!['-'] + h.subrange(12, 16) + seq!['-']
        + h.subrange(16, 20) + seq!['-'] + h.subrange(20, 32)
}

/// Formats an instance identifier as a UUID.
///
/// Trusted: the body builds a `uuid::Uuid` from the 128-bit value with
/// `Uuid::from_u128` (the value's bytes, most significant first) and formats
/// it with `Uuid`'s `Display`, which writes the hyphenated lower-case form.
/// The contract claims that this text is [`instance_text`].
#[verifier::external_body]
fn format_instance(id: u128) -> (s: String)
    ensures
        s@ == instance_text(id),
{
    format!("{}", uuid::Uuid::from_u128(id))
}

/// The name of the transport resource that carries what the output `port` of
/// `node` sends to other runtimes.
pub open spec fn resource_name(flow: Seq<char>, id: u128, node: Seq<char>, port: Seq<char>) -> Seq<
    char,
> {
    "/zf/data/"@ + flow + "/"@ + instance_text(id) + "/"@ + node + "/"@ + port
}

/// The identifier of the sender connector for the output `port` of `node`.
pub open spec fn sender_name(flow: Seq<char>, id: u128, node: Seq<char>, port: Seq<char>) -> Seq<
    char,
> {
    "sender-"@ + flow + "-"@ + instance_text(id) + "/"@ + node + "/"@ + port
}

/// The identifier of the receiver connector for the input `port` of `node`.
pub open spec fn receiver_name(flow: Seq<char>, id: u128, node: Seq<char>, port: Seq<char>) -> Seq<
    char,
> {
    "receiver-"@ + flow + "-"@ + instance_text(id) + "/"@ + node + "/"@ + port
}

/// `head`, the flow name, `joint`, the instance identifier, and then the
/// node and the port, each after a slash.
fn compose(head: &str, joint: &str, flow: &String, id: u128, node: &String, port: &String) -> (s:
    String)
    ensures
        s@ == head@ + flow@ + joint@ + instance_text(id) + "/"@ + node@ + "/"@ + port@,
{
    let instance = format_instance(id);
    let mut out = String::from_str(head);
    out.append(flow.as_str());
    out.append(joint);
    out.append(instance.as_str());
    out.append("/");
    out.append(node.as_str());
    out.append("/");
    out.append(port.as_str());
    out
}

/// Builds [`resource_name`].
pub fn make_resource_name(flow: &String, id: u128, node: &String, port: &String) -> (s: String)
    ensures
        s@ == resource_name(flow@, id, node@, port@),
{
    compose("/zf/data/", "/", flow, id, node, port)
}

/// Builds [`sender_name`].
pub fn make_sender_name(flow: &String, id: u128, node: &String, port: &String) -> (s: String)
    ensures
        s@ == sender_name(flow@, id, node@, port@),
{
    compose("sender-", "-", flow, id, node, port)
}

/// Builds [`receiver_name`].
pub fn make_receiver_name(flow: &String, id: u128, node: &String, port: &String) -> (s: String)
    ensures
        s@ == receiver_name(flow@, id, node@, port@),
{
    compose("receiver-", "-", flow, id, node, port)
}

} // verus!
