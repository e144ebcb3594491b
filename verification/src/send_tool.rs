//! The arguments and the outcome of the tool that sends a message.

use crate::address::{parse_address, Address, AddressError, AddressView};
use crate::string_map::StringMap;
use crate::text::{trim, trim_str};
use vstd::prelude::*;

verus! {

/// Why sending a message through the tool failed; `E` is the error of the
/// transport.
#[derive(Debug)]
pub enum SendMessageToolError<E> {
    /// The named argument is missing, is not a string, or is blank.
    InvalidArgument(String),
    /// The recipient is not an address.
    InvalidAddress(AddressError),
    /// The transport failed to send the message.
    Transport(E),
}

/// The value of a string argument: the argument's text, trimmed, when the
/// argument is present, is a string and is not blank.
pub open spec fn string_arg_value(args: Map<Seq<char>, Option<String>>, field: Seq<char>) -> Option<
    Seq<char>,
> {
    if args.contains_key(field) && args[field] is Some && trim(args[field]->0@).len() > 0 {
        Some(trim(args[field]->0@))
    } else {
        None
    }
}

/// Reads a string argument of the tool. The arguments map each field's
/// name to its text when the field's value is a JSON string, and to `None`
/// when it is another JSON value.
pub fn string_arg<E>(args: &StringMap<Option<String>>, field: &str) -> (res: Result<
    String,
    SendMessageToolError<E>,
>)
    requires
        args.wf(),
    ensures
        match string_arg_value(args.map_view(), field@) {
            Some(v) => res matches Ok(s) && s@ == v,
            None => res matches Err(SendMessageToolError::InvalidArgument(f)) && f@ == field@,
        },
{
    match args.get(field) {
        Some(Some(text)) => {
            let value = trim_str(text.as_str());
            if value.is_empty() {
                Err(SendMessageToolError::InvalidArgument(field.to_owned()))
            } else {
                Ok(value.to_owned())
            }
        },
        _ => Err(SendMessageToolError::InvalidArgument(field.to_owned())),
    }
}

/// Reads an address argument of the tool: a string argument that holds the
/// address's text form.
pub fn address_arg<E>(args: &StringMap<Option<String>>, field: &str) -> (res: Result<
    Address,
    SendMessageToolError<E>,
>)
    requires
        args.wf(),
    ensures
        match string_arg_value(args.map_view(), field@) {
            Some(v) => match parse_address(v) {
                Some(a) => res matches Ok(r) && r@ == a,
                None => res matches Err(SendMessageToolError::InvalidAddress(_)),
            },
            None => res matches Err(SendMessageToolError::InvalidArgument(f)) && f@ == field@,
        },
{
    let value = string_arg(args, field)?;
    match Address::parse(value.as_str()) {
        Ok(a) => Ok(a),
        Err(e) => Err(SendMessageToolError::InvalidAddress(e)),
    }
}

/// What the tool is asked to send: the recipient (argument `to`) and the
/// body (argument `body`). The recipient is checked first.
pub open spec fn send_message_request(args: Map<Seq<char>, Option<String>>) -> Option<
    (AddressView, Seq<char>),
> {
    match string_arg_value(args, "to"@) {
        Some(to) => match parse_address(to) {
            Some(a) => match string_arg_value(args, "body"@) {
                Some(body) => Some((a, body)),
                None => None,
            },
            None => None,
        },
        None => None,
    }
}

/// Reads the recipient and the body that the tool is asked to send.
pub fn send_message_args<E>(args: &StringMap<Option<String>>) -> (res: Result<
    (Address, String),
    SendMessageToolError<E>,
>)
    requires
        args.wf(),
    ensures
        match send_message_request(args.map_view()) {
            Some((to, body)) => res matches Ok((a, b)) && a@ == to && b@ == body,
            None => res is Err,
        },
        match string_arg_value(args.map_view(), "to"@) {
            None => res matches Err(SendMessageToolError::InvalidArgument(f)) && f@ == "to"@,
            Some(to) => match parse_address(to) {
                None => res matches Err(SendMessageToolError::InvalidAddress(_)),
                Some(_) => string_arg_value(args.map_view(), "body"@) is None ==> (
                res matches Err(SendMessageToolError::InvalidArgument(f)) && f@ == "body"@),
            },
        },
{
    let to = address_arg(args, "to")?;
    let body = string_arg(args, "body")?;
    Ok((to, body))
}

/// The tool's answer once the transport has tried to send the message.
pub fn send_message_outcome<E>(sent: Result<(), E>) -> (res: Result<
    String,
    SendMessageToolError<E>,
>)
    ensures
        match sent {
            Ok(()) => res matches Ok(text) && text@ == "message sent successfully"@,
            Err(e) => res matches Err(SendMessageToolError::Transport(t)) && t == e,
        },
{
    match sent {
        Ok(()) => Ok(String::from_str("message sent successfully")),
        Err(e) => Err(SendMessageToolError::Transport(e)),
    }
}

} // verus!
