//! The blocks of the bar.
pub mod audio;
pub mod brightness;
pub mod element;
pub mod mail;
pub mod network;
pub mod time;
pub mod weather;

use std::sync::mpsc::Sender;
use std::sync::{Arc, Mutex};

use vstd::prelude::*;

use element::Element;

verus! {

/// A block that runs on its own: it fills its element and announces changes
/// on `event_tx`.
pub trait Block {
    fn work(&self, event_tx: Sender<i32>, elem: Arc<Mutex<Element>>);

    fn get_id(&self) -> i32;

    fn get_id_str(&self) -> &str;
}

/// Whether a block shows its other form after a wait: it switches form
/// whenever a click arrived.
pub open spec fn toggled(extended: bool, clicked: bool) -> bool {
    if clicked {
        !extended
    } else {
        extended
    }
}

/// The form a block shows after a wait in which a click did or did not arrive.
pub fn toggle(extended: bool, clicked: bool) -> (r: bool)
    ensures
        r == toggled(extended, clicked),
{
    if clicked {
        !extended
    } else {
        extended
    }
}

} // verus!
