//! Notifications from the desktop (D-Bus) and from XSOverlay-compatible
//! senders (UDP): which of them become toasts, and with which text. Listening
//! on the bus and the socket stays with the caller.

use vstd::prelude::*;

verus! {

/// The title of a desktop notification: its summary, or the sending app's
/// name when the summary is empty.
pub fn notification_title(app_name: String, summary: String) -> (r: String)
    ensures
        r == (if summary@.len() == 0 { app_name } else { summary }),
{
    if summary.as_str().is_empty() {
        app_name
    } else {
        summary
    }
}

/// The kind of XSOverlay message that is a notification.
pub const XSO_NOTIFICATION: i32 = 1;

/// An XSOverlay message as a toast's title and body: only notifications
/// become toasts, and a missing content is an empty body.
pub fn xso_toast_text(message_type: i32, title: String, content: Option<String>) -> (r: Option<(String, String)>)
    ensures
        message_type != XSO_NOTIFICATION ==> r is None,
        message_type == XSO_NOTIFICATION ==> match r {
            Some((t, body)) => t == title && match content {
                Some(c) => body == c,
                None => body@.len() == 0,
            },
            None => false,
        },
{
    if message_type != XSO_NOTIFICATION {
        return None;
    }
    let body = match content {
        Some(c) => c,
        None => String::new(),
    };
    Some((title, body))
}

/// The pending toasts to show: all of them while notifications are enabled,
/// none otherwise (they are dropped either way).
pub fn toasts_to_submit<T>(enabled: bool, pending: Vec<T>) -> (r: Vec<T>)
    ensures
        r@ == (if enabled { pending@ } else { Seq::<T>::empty() }),
{
    if enabled {
        pending
    } else {
        Vec::new()
    }
}

} // verus!
