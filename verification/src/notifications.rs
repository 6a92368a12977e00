//! The user's notification configuration: two interval-threshold rules and
//! an on-favorite rule.

use vstd::prelude::*;
use crate::sound::Sound;

verus! {

/// A threshold rule over one per-interval total. `threshold == None` means
/// the rule is disabled; `previous_threshold` remembers the last armed value
/// so that re-enabling restores it.
#[derive(Clone, Copy, Debug, PartialEq, Eq)]
pub struct ThresholdNotification {
    /// Per-interval total at or above which a notification is emitted.
    pub threshold: Option<u32>,
    /// The sound to emit.
    pub sound: Sound,
    /// The last `Some` value the threshold held.
    pub previous_threshold: u32,
}

impl ThresholdNotification {
    /// Arm the rule at `t`.
    pub fn enable(&mut self, t: u32)
        ensures
            final(self).threshold == Some(t),
            final(self).sound == old(self).sound,
            final(self).previous_threshold == old(self).previous_threshold,
    {
        self.threshold = Some(t);
    }

    /// Re-arm the rule at the remembered previous threshold.
    pub fn enable_previous(&mut self)
        ensures
            final(self).threshold == Some(old(self).previous_threshold),
            final(self).sound == old(self).sound,
            final(self).previous_threshold == old(self).previous_threshold,
    {
        self.threshold = Some(self.previous_threshold);
    }

    /// Disarm the rule, remembering an armed threshold for re-enabling.
    pub fn disable(&mut self)
        ensures
            final(self).threshold is None,
            final(self).sound == old(self).sound,
            final(self).previous_threshold == match old(self).threshold {
                Some(t) => t,
                None => old(self).previous_threshold,
            },
    {
        match self.threshold {
            Some(t) => {
                self.previous_threshold = t;
            },
            None => {},
        }
        self.threshold = None;
    }
}

/// The on-favorite rule: notify the first time a flow involving a favorite
/// host shows activity.
#[derive(Clone, Copy, Debug, PartialEq, Eq)]
pub struct FavoriteNotifications {
    /// Whether the rule is enabled.
    pub notify_on_favorite: bool,
    /// The sound to emit.
    pub sound: Sound,
}

/// The whole notification configuration set by the user.
#[derive(Clone, Copy, Debug, PartialEq, Eq)]
pub struct Notifications {
    pub packets_notification: ThresholdNotification,
    pub bytes_notification: ThresholdNotification,
    pub on_favorite_notification: FavoriteNotifications,
}

impl Default for Notifications {
    /// Both threshold rules start disabled with their stock previous values;
    /// the favorite rule starts off.
    fn default() -> (r: Notifications)
        ensures
            r.packets_notification == (ThresholdNotification {
                threshold: None,
                sound: Sound::Bubble,
                previous_threshold: 500,
            }),
            r.bytes_notification == (ThresholdNotification {
                threshold: None,
                sound: Sound::Pop,
                previous_threshold: 100_000,
            }),
            r.on_favorite_notification == (FavoriteNotifications {
                notify_on_favorite: false,
                sound: Sound::Tic,
            }),
    {
        Notifications {
            packets_notification: ThresholdNotification {
                threshold: None,
                sound: Sound::Bubble,
                previous_threshold: 500,
            },
            bytes_notification: ThresholdNotification {
                threshold: None,
                sound: Sound::Pop,
                previous_threshold: 100_000,
            },
            on_favorite_notification: FavoriteNotifications {
                notify_on_favorite: false,
                sound: Sound::Tic,
            },
        }
    }
}

} // verus!
