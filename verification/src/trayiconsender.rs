use vstd::prelude::*;

use crate::channel::send_on;

verus! {

/// The application's event sink: a cloneable channel endpoint. The
/// platform glue only ever owns such an endpoint; the application drains
/// the receiving side on its own thread.
#[derive(Debug)]
pub struct TrayIconSender {
    pub sender: std::sync::mpsc::Sender<u64>,
}

impl TrayIconSender {
    /// Wrap a channel endpoint as the application's event sink.
    pub fn new(sender: std::sync::mpsc::Sender<u64>) -> (r: TrayIconSender) {
        TrayIconSender { sender }
    }

    /// Deliver one typed application event; a vanished receiver is
    /// silently ignored.
    pub fn send(&self, e: &u64) {
        send_on(&self.sender, *e);
    }
}

impl Clone for TrayIconSender {
    /// Another endpoint of the same channel.
    fn clone(&self) -> TrayIconSender {
        TrayIconSender { sender: self.sender.clone() }
    }
}

} // verus!
