//! Synchronous channels: broadcast, watch and priority receive.

mod errors;
mod outside;

pub use outside::receiver_capacity;

pub use errors::{RecvError, TryRecvError, TrySendError};

mod broadcast;

pub use broadcast::{
    broadcast, delivered_flags, keep_delivered, kept_by, went_through, notify_step, law_all_delivered_keeps_all,
    law_change_is_broadcast, law_delivered_stay, law_kept_are_registered, law_kept_were_delivered,
    offer_and_prune, law_repeat_is_silent, should_notify,
    watcher, Broadcaster, Listener, Notifier, NotifierStatus, Watcher,
};

mod priority;

pub use priority::{
    ascending, bounded, is_max_of, law_receives_descend, law_successive_maxima, receive_outcome,
    takes_in_turn, takes_largest, unbounded,
    PriorityReceiver, ReceiverExt,
};
