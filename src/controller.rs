//! The screen-mode state machine that the hotkeys drive.
//!
//! The mode and the displayed client change together: a remote client is
//! displayed exactly when the mode is `DisplayRemote`.

use vstd::prelude::*;

use crate::{ScreenConfig, ScreenHotkey, ScreenMode};

verus! {

/// Identifier of a peer of the KVM session.
pub type ClientHandle = u64;

/// Linux scancode of the Up arrow.
pub const KEY_UP: u32 = 103;

/// X11 code of the Up arrow.
pub const KEY_UP_X11: u32 = 57416;

/// Linux scancode of the Down arrow.
pub const KEY_DOWN: u32 = 108;

/// X11 code of the Down arrow.
pub const KEY_DOWN_X11: u32 = 57424;

/// The hotkey that a key press stands for: with Ctrl and Shift held, Up
/// cycles to the next remote screen and Down returns to the local screen.
pub fn hotkey_for_key(ctrl: bool, shift: bool, key_code: u32) -> (r: Option<ScreenHotkey>)
    ensures
        r == if ctrl && shift && (key_code == KEY_UP || key_code == KEY_UP_X11) {
            Some(ScreenHotkey::Cycle)
        } else if ctrl && shift && (key_code == KEY_DOWN || key_code == KEY_DOWN_X11) {
            Some(ScreenHotkey::Local)
        } else {
            None
        },
{
    if ctrl && shift {
        if key_code == KEY_UP || key_code == KEY_UP_X11 {
            Some(ScreenHotkey::Cycle)
        } else if key_code == KEY_DOWN || key_code == KEY_DOWN_X11 {
            Some(ScreenHotkey::Local)
        } else {
            None
        }
    } else {
        None
    }
}

/// The configuration of a session: sharing from the start or not, at the
/// given frame rate and quality, with hardware acceleration asked for and a
/// bitrate cap of 50 Mbps.
pub fn session_config(share_on_start: bool, fps: u32, quality: u8) -> (r: ScreenConfig)
    ensures
        r.mode == if share_on_start {
            ScreenMode::ShareScreen
        } else {
            ScreenMode::InputOnly
        },
        r.fps == fps,
        r.quality == quality,
        r.hardware_accel,
        r.max_bitrate == 50,
{
    ScreenConfig {
        mode: if share_on_start {
            ScreenMode::ShareScreen
        } else {
            ScreenMode::InputOnly
        },
        fps,
        quality,
        hardware_accel: true,
        max_bitrate: 50,
    }
}

/// `x` is the smallest of `peers`.
pub open spec fn is_first_peer(peers: Seq<ClientHandle>, x: ClientHandle) -> bool {
    &&& peers.contains(x)
    &&& forall|p: ClientHandle| #[trigger] peers.contains(p) ==> x <= p
}

/// `x` is the smallest of `peers` above `c`.
pub open spec fn is_peer_after(peers: Seq<ClientHandle>, c: ClientHandle, x: ClientHandle) -> bool {
    &&& peers.contains(x)
    &&& c < x
    &&& forall|p: ClientHandle| #[trigger] peers.contains(p) && c < p ==> x <= p
}

/// `c` is one of `peers` and not the largest of them.
pub open spec fn has_peer_after(peers: Seq<ClientHandle>, c: ClientHandle) -> bool {
    peers.contains(c) && exists|p: ClientHandle| #[trigger] peers.contains(p) && c < p
}

/// The client that cycling moves to, among active `peers` (not empty) in
/// ascending order: the one after `current`, or the first one where `current`
/// is none, not among them, or the last.
pub open spec fn is_cycle_target(
    peers: Seq<ClientHandle>,
    current: Option<ClientHandle>,
    x: ClientHandle,
) -> bool {
    match current {
        Some(c) => if has_peer_after(peers, c) {
            is_peer_after(peers, c, x)
        } else {
            is_first_peer(peers, x)
        },
        None => is_first_peer(peers, x),
    }
}

/// The smallest of `peers` above `bound` (any, where `bound` is `None`), if there is one.
fn least_peer_above(peers: &Vec<ClientHandle>, bound: Option<ClientHandle>) -> (r: Option<
    ClientHandle,
>)
    ensures
        r matches Some(x) ==> peers@.contains(x) && (bound matches Some(b) ==> b < x) && forall|
            p: ClientHandle,
        | #[trigger] peers@.contains(p) && (bound matches Some(b) ==> b < p) ==> x <= p,
        r is None ==> forall|p: ClientHandle| #[trigger]
            peers@.contains(p) ==> (bound matches Some(b) && p <= b),
{
    let mut best: Option<ClientHandle> = None;
    let mut i: usize = 0;
    while i < peers.len()
        invariant
            i <= peers@.len(),
            best matches Some(x) ==> peers@.contains(x) && (bound matches Some(b) ==> b < x)
                && forall|k: int|
                0 <= k < i && (bound matches Some(b) ==> b < #[trigger] peers@[k]) ==> x
                    <= peers@[k],
            best is None ==> forall|k: int|
                0 <= k < i ==> (bound matches Some(b) && #[trigger] peers@[k] <= b),
        decreases peers@.len() - i,
    {
        let p = peers[i];
        let above = match bound {
            Some(b) => b < p,
            None => true,
        };
        if above {
            match best {
                Some(x) => {
                    if p < x {
                        best = Some(p);
                    }
                },
                None => {
                    best = Some(p);
                },
            }
        }
        i = i + 1;
    }
    best
}

/// The mode of the controller and the client whose screen is displayed.
pub struct ScreenState {
    mode: ScreenMode,
    displayed_client: Option<ClientHandle>,
}

impl ScreenState {
    pub closed spec fn spec_mode(&self) -> ScreenMode {
        self.mode
    }

    pub closed spec fn spec_displayed_client(&self) -> Option<ClientHandle> {
        self.displayed_client
    }

    /// A client is displayed exactly in `DisplayRemote`.
    pub open spec fn wf(&self) -> bool {
        (self.spec_mode() == ScreenMode::DisplayRemote) == (self.spec_displayed_client() is Some)
    }

    /// The state at start: the configured mode, with no client displayed
    /// (`InputOnly` where the configuration asks to display a remote screen,
    /// since no client is chosen yet).
    pub fn new(config: &ScreenConfig) -> (r: Self)
        ensures
            r.wf(),
            r.spec_displayed_client() is None,
            r.spec_mode() == if config.mode == ScreenMode::DisplayRemote {
                ScreenMode::InputOnly
            } else {
                config.mode
            },
    {
        let mode = match config.mode {
            ScreenMode::DisplayRemote => ScreenMode::InputOnly,
            m => m,
        };
        ScreenState { mode, displayed_client: None }
    }

    pub fn current_mode(&self) -> (r: ScreenMode)
        ensures
            r == self.spec_mode(),
    {
        self.mode
    }

    pub fn displayed_client(&self) -> (r: Option<ClientHandle>)
        ensures
            r == self.spec_displayed_client(),
    {
        self.displayed_client
    }

    /// Applies a hotkey. `Local` returns to input only; `Remote(id)` displays
    /// client `id`; `Toggle` starts sharing from input only and returns to
    /// input only from any other mode; `Cycle` displays the next of the
    /// `active` clients in ascending order, or returns to input only where
    /// none is active.
    pub fn handle_hotkey(&mut self, hotkey: ScreenHotkey, active: &Vec<ClientHandle>)
        requires
            old(self).wf(),
        ensures
            final(self).wf(),
            hotkey == ScreenHotkey::Local ==> final(self).spec_mode() == ScreenMode::InputOnly,
            hotkey matches ScreenHotkey::Remote(id) ==> final(self).spec_mode()
                == ScreenMode::DisplayRemote && final(self).spec_displayed_client() == Some(
                id as ClientHandle,
            ),
            hotkey == ScreenHotkey::Toggle ==> final(self).spec_mode() == if old(self).spec_mode()
                == ScreenMode::InputOnly {
                ScreenMode::ShareScreen
            } else {
                ScreenMode::InputOnly
            },
            hotkey == ScreenHotkey::Cycle && active@.len() == 0 ==> final(self).spec_mode()
                == ScreenMode::InputOnly,
            hotkey == ScreenHotkey::Cycle && active@.len() > 0 ==> final(self).spec_mode()
                == ScreenMode::DisplayRemote && is_cycle_target(
                active@,
                old(self).spec_displayed_client(),
                final(self).spec_displayed_client()->0,
            ),
    {
        match hotkey {
            ScreenHotkey::Local => {
                self.mode = ScreenMode::InputOnly;
                self.displayed_client = None;
            },
            ScreenHotkey::Remote(id) => {
                self.mode = ScreenMode::DisplayRemote;
                self.displayed_client = Some(id as ClientHandle);
            },
            ScreenHotkey::Toggle => {
                match self.mode {
                    ScreenMode::InputOnly => {
                        self.mode = ScreenMode::ShareScreen;
                    },
                    _ => {
                        self.mode = ScreenMode::InputOnly;
                        self.displayed_client = None;
                    },
                }
            },
            ScreenHotkey::Cycle => {
                self.cycle(active);
            },
        }
    }

    /// Moves to the next active client, or to input only where none is active.
    fn cycle(&mut self, active: &Vec<ClientHandle>)
        requires
            old(self).wf(),
        ensures
            final(self).wf(),
            active@.len() == 0 ==> final(self).spec_mode() == ScreenMode::InputOnly,
            active@.len() > 0 ==> final(self).spec_mode() == ScreenMode::DisplayRemote
                && is_cycle_target(
                active@,
                old(self).spec_displayed_client(),
                final(self).spec_displayed_client()->0,
            ),
    {
        let first = least_peer_above(active, None);
        match first {
            None => {
                if active.len() > 0 {
                    assert(active@.contains(active@[0]));
                }
                self.mode = ScreenMode::InputOnly;
                self.displayed_client = None;
                return ;
            },
            Some(_) => {},
        }
        let next = match self.displayed_client {
            Some(c) => {
                let after = least_peer_above(active, Some(c));
                let present = contains_peer(active, c);
                if present {
                    match after {
                        Some(x) => Some(x),
                        None => first,
                    }
                } else {
                    first
                }
            },
            None => first,
        };
        self.mode = ScreenMode::DisplayRemote;
        self.displayed_client = next;
    }

    /// Forgets a client that left the session: where it was displayed, the
    /// controller returns to input only.
    pub fn peer_disconnected(&mut self, peer: ClientHandle)
        requires
            old(self).wf(),
        ensures
            final(self).wf(),
            old(self).spec_displayed_client() == Some(peer) ==> final(self).spec_mode()
                == ScreenMode::InputOnly && final(self).spec_displayed_client() is None,
            old(self).spec_displayed_client() != Some(peer) ==> *final(self) == *old(self),
    {
        if self.displayed_client == Some(peer) {
            self.mode = ScreenMode::InputOnly;
            self.displayed_client = None;
        }
    }
}

/// Whether `peer` is among `peers`.
fn contains_peer(peers: &Vec<ClientHandle>, peer: ClientHandle) -> (r: bool)
    ensures
        r == peers@.contains(peer),
{
    let mut i: usize = 0;
    while i < peers.len()
        invariant
            i <= peers@.len(),
            forall|k: int| 0 <= k < i ==> peers@[k] != peer,
        decreases peers@.len() - i,
    {
        if peers[i] == peer {
            return true;
        }
        i = i + 1;
    }
    false
}

} // verus!
