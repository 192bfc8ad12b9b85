//! The mail block: the number of new messages.
use vstd::prelude::*;

use super::element::ElementFormat;
use crate::text::{decimal_digits, push_char, push_unsigned};

verus! {

pub const ICON: char = '\u{f6ee}';

pub const BLUEWIN_DIR: &'static str = "/home/tibor/Mail/bluewin/INBOX";

pub const ETH_DIR: &'static str = "/home/tibor/Mail/ETH/INBOX";

/// What the block shows for a number of new messages: the icon and the
/// number, as a warning when there is any new message.
pub fn mail_status(unread: usize) -> (r: (String, ElementFormat))
    ensures
        r.0@ == seq![ICON, ' '] + decimal_digits(unread as nat),
        r.1 == (if unread > 0 {
            ElementFormat::Warning
        } else {
            ElementFormat::Normal
        }),
{
    let mut s = String::new();
    push_char(&mut s, ICON);
    push_char(&mut s, ' ');
    push_unsigned(&mut s, unread as u64);
    assert(s@ =~= seq![ICON, ' '] + decimal_digits(unread as nat));
    let format = if unread > 0 {
        ElementFormat::Warning
    } else {
        ElementFormat::Normal
    };
    (s, format)
}

} // verus!
