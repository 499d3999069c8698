//! Log events forwarded from the tracing framework to the logging panel:
//! the event record, the channel that carries it, and how an event's fields
//! become its message.

use vstd::prelude::*;
use std::sync::mpsc::{Receiver, Sender};
use crate::panels::logging::LogLevel;
use crate::text::{chars_of, push_str, string_of, subrange_chars, string_from_chars};

verus! {

/// `std::sync::mpsc::Sender`, carried as an opaque value.
#[verifier::external_type_specification]
#[verifier::external_body]
#[verifier::reject_recursive_types(T)]
pub struct ExSender<T>(Sender<T>);

/// `std::sync::mpsc::Receiver`, carried as an opaque value.
#[verifier::external_type_specification]
#[verifier::external_body]
#[verifier::reject_recursive_types(T)]
pub struct ExReceiver<T>(Receiver<T>);

/// A log event for the logging panel.
#[derive(Debug)]
pub struct GuiLogEvent {
    pub level: LogLevel,
    /// Target (module path) of the event.
    pub target: String,
    pub message: String,
}

/// Forwards tracing events to the logging panel through a channel.
pub struct GuiLogLayer {
    pub sender: Sender<GuiLogEvent>,
}

impl GuiLogLayer {
    pub fn new(sender: Sender<GuiLogEvent>) -> (r: GuiLogLayer)
        ensures
            r.sender == sender,
    {
        GuiLogLayer { sender }
    }
}

/// A channel for log events (`std::sync::mpsc::channel`): the sender goes
/// to the layer, the receiver to the panel.
#[verifier::external_body]
pub fn create_log_channel() -> (r: (Sender<GuiLogEvent>, Receiver<GuiLogEvent>))
{
    std::sync::mpsc::channel()
}

/// `s` with one surrounding pair of double quotes removed, if it has one.
pub open spec fn unquoted(s: Seq<char>) -> Seq<char> {
    if s.len() >= 2 && s[0] == '"' && s.last() == '"' {
        s.subrange(1, s.len() - 1)
    } else {
        s
    }
}

/// Collects an event's message from its fields.
#[derive(Debug)]
pub struct MessageVisitor {
    pub message: String,
}

impl MessageVisitor {
    pub fn new() -> (r: MessageVisitor)
        ensures
            r.message@.len() == 0,
    {
        MessageVisitor { message: String::new() }
    }

    /// Take in a field shown with `{:?}`: the `message` field becomes the
    /// message (without surrounding quotes); another field becomes
    /// `name=value` if there is no message yet.
    pub fn record_debug(&mut self, field_name: &str, debug_text: &str)
        requires
            field_name@ == "message"@ ==> debug_text@ != "\""@,
        ensures
            final(self).message@ == if field_name@ == "message"@ {
                unquoted(debug_text@)
            } else if old(self).message@.len() == 0 {
                field_name@ + "="@ + debug_text@
            } else {
                old(self).message@
            },
    {
        proof {
            reveal_strlit("message");
            reveal_strlit("\"");
        }
        let name = chars_of(field_name);
        let key = chars_of("message");
        if name.len() == key.len() && crate::text::has_prefix(&name, &key) {
            proof {
                assert(name@ =~= "message"@);
            }
            let t = chars_of(debug_text);
            if t.len() >= 2 && t[0] == '"' && t[t.len() - 1] == '"' {
                let inner = subrange_chars(&t, 1, t.len() - 1);
                self.message = string_from_chars(&inner);
            } else {
                self.message = string_of(debug_text);
            }
        } else {
            proof {
                if field_name@ == "message"@ {
                    assert(name@.take(key@.len() as int) =~= name@);
                }
            }
            if self.message.as_str().unicode_len() == 0 {
                let mut m = string_of(field_name);
                push_str(&mut m, "=");
                push_str(&mut m, debug_text);
                self.message = m;
            }
        }
    }

    /// Take in a text field: the `message` field becomes the message;
    /// another field becomes `name=value` if there is no message yet.
    pub fn record_str(&mut self, field_name: &str, value: &str)
        ensures
            final(self).message@ == if field_name@ == "message"@ {
                value@
            } else if old(self).message@.len() == 0 {
                field_name@ + "="@ + value@
            } else {
                old(self).message@
            },
    {
        proof {
            reveal_strlit("message");
        }
        let name = chars_of(field_name);
        let key = chars_of("message");
        if name.len() == key.len() && crate::text::has_prefix(&name, &key) {
            proof {
                assert(name@ =~= "message"@);
            }
            self.message = string_of(value);
        } else {
            proof {
                if field_name@ == "message"@ {
                    assert(name@.take(key@.len() as int) =~= name@);
                }
            }
            if self.message.as_str().unicode_len() == 0 {
                let mut m = string_of(field_name);
                push_str(&mut m, "=");
                push_str(&mut m, value);
                self.message = m;
            }
        }
    }
}

} // verus!
