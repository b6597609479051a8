//! Ardaku: a capability-oriented runtime host engine for a single untrusted
//! WebAssembly guest.
//!
//! The engine multiplexes the guest's asynchronous requests onto a small set
//! of portal services supplied by an embedder.  The guest brings channels up
//! with a connect command on channel 0, dispatches operations on those
//! channels, and cooperatively yields through the `ar` import until pending
//! operations complete.

use vstd::prelude::*;

pub mod engine;
pub mod laws;
pub mod parse;
pub mod system;

verus! {

use crate::engine::Trap;
use crate::parse::{store32, u16_at, u32_at, Reader, Writer};
use crate::system::{Call, Level, System};
use vstd::utf8::{encode_utf8, valid_utf8};

/// Number of known portal IDs.
pub const PORTAL_COUNT: usize = 12;

/// Portal IDs.
#[derive(Clone, Copy, Debug, PartialEq, Eq, Structural)]
pub enum Portal {
    /// Logging API (stdout/printf)
    Log,
    /// Developer command API (stdin/scanf)
    Prompt,
    /// Set user information API (username, display name)
    Account,
    /// Get user information API (username, display name)
    User,
    /// Set system information API (system nickname, hostname)
    System,
    /// Get system information API (system nickname, hostname)
    Host,
    /// Set hardware features API (overclock, hardware time)
    Hardware,
    /// Get hardware features API (cpu / gpu specs)
    Platform,
    /// Task spawning API
    Spawn,
    /// Blocking task spawning API
    SpawnBlocking,
    /// MPMC Channel API
    Channel,
    /// Account API (create / delete users)
    Admin,
}

/// The stable wire value of each portal ID.
pub open spec fn portal_index(p: Portal) -> int {
    match p {
        Portal::Log => 0,
        Portal::Prompt => 1,
        Portal::Account => 2,
        Portal::User => 3,
        Portal::System => 4,
        Portal::Host => 5,
        Portal::Hardware => 6,
        Portal::Platform => 7,
        Portal::Spawn => 8,
        Portal::SpawnBlocking => 9,
        Portal::Channel => 10,
        Portal::Admin => 11,
    }
}

/// The portal a wire value names, if any: values 12 and above are invalid.
pub open spec fn spec_portal_of(id: u32) -> Option<Portal> {
    if id == 0 {
        Some(Portal::Log)
    } else if id == 1 {
        Some(Portal::Prompt)
    } else if id == 2 {
        Some(Portal::Account)
    } else if id == 3 {
        Some(Portal::User)
    } else if id == 4 {
        Some(Portal::System)
    } else if id == 5 {
        Some(Portal::Host)
    } else if id == 6 {
        Some(Portal::Hardware)
    } else if id == 7 {
        Some(Portal::Platform)
    } else if id == 8 {
        Some(Portal::Spawn)
    } else if id == 9 {
        Some(Portal::SpawnBlocking)
    } else if id == 10 {
        Some(Portal::Channel)
    } else if id == 11 {
        Some(Portal::Admin)
    } else {
        None
    }
}

/// Resolve a requested portal wire value to a portal ID.
pub fn portal_of(id: u32) -> (r: Option<Portal>)
    ensures
        r == spec_portal_of(id),
{
    match id {
        0 => Some(Portal::Log),
        1 => Some(Portal::Prompt),
        2 => Some(Portal::Account),
        3 => Some(Portal::User),
        4 => Some(Portal::System),
        5 => Some(Portal::Host),
        6 => Some(Portal::Hardware),
        7 => Some(Portal::Platform),
        8 => Some(Portal::Spawn),
        9 => Some(Portal::SpawnBlocking),
        10 => Some(Portal::Channel),
        11 => Some(Portal::Admin),
        _ => None,
    }
}

/// The slot of a portal in the enable set.
pub fn portal_slot(p: Portal) -> (i: usize)
    ensures
        i == portal_index(p),
        i < PORTAL_COUNT,
{
    match p {
        Portal::Log => 0,
        Portal::Prompt => 1,
        Portal::Account => 2,
        Portal::User => 3,
        Portal::System => 4,
        Portal::Host => 5,
        Portal::Hardware => 6,
        Portal::Platform => 7,
        Portal::Spawn => 8,
        Portal::SpawnBlocking => 9,
        Portal::Channel => 10,
        Portal::Admin => 11,
    }
}

/// Command: one 16-byte record of an asynchronous request.
#[derive(Clone, Copy, Debug, PartialEq, Eq, Structural)]
pub struct Command {
    /// Size of the message payload in bytes.
    pub size: u32,
    /// Pointer to the message payload.
    pub data: u32,
    /// Destination channel; 0 is the connector.
    pub channel: u32,
    /// Opaque identifier correlating the asynchronous completion.
    pub ready: u32,
}

/// Connect: the payload of a channel-0 command.
#[derive(Clone, Copy, Debug, PartialEq, Eq, Structural)]
pub struct Connect {
    /// Number of `u32` entries in the portals array.
    pub portals_size: u32,
    /// Pointer to the portals array.
    pub portals_data: u32,
    /// Number of `u32` slots in the ready list.
    pub ready_capacity: u32,
    /// Pointer to the ready list.
    pub ready_data: u32,
}

/// The engine state a guest observes: everything but the embedder itself.
#[verifier::ext_equal]
pub struct StateModel {
    /// Ready list `(capacity, pointer)` captured at connect time.
    pub ready_list: (u32, u32),
    /// Enable set: one flag per known portal ID.
    pub portals: Seq<bool>,
    /// Channel IDs that can be reclaimed.
    pub drop_channels: Seq<u32>,
    /// Next channel ID.
    pub next_channel: u32,
    /// Connected channels, indexed by channel ID.
    pub conn_channels: Seq<Option<Portal>>,
}

impl StateModel {
    /// Well-formedness: the channel table invariants.
    pub open spec fn wf(self) -> bool {
        &&& self.portals.len() == PORTAL_COUNT
        &&& 1 <= self.next_channel
        &&& self.conn_channels.len() <= self.next_channel
        &&& (self.conn_channels.len() > 0 ==> self.conn_channels[0] is None)
        &&& (forall|k: int|
            0 <= k < self.drop_channels.len() ==> 1 <= #[trigger] self.drop_channels[k]
                < self.next_channel)
        &&& (forall|k: int|
            0 <= k < self.drop_channels.len() && #[trigger] self.drop_channels[k]
                < self.conn_channels.len() ==> self.conn_channels[self.drop_channels[k] as int]
                is None)
        &&& (forall|k1: int, k2: int|
            0 <= k1 < k2 < self.drop_channels.len() ==> #[trigger] self.drop_channels[k1]
                != #[trigger] self.drop_channels[k2])
    }
}

/// Whether a channel can still be allocated.
pub open spec fn alloc_ok(s: StateModel) -> bool {
    s.drop_channels.len() > 0 || s.next_channel < u32::MAX
}

/// The channel ID the next allocation hands out: the most recently recycled
/// ID if any, else the next fresh one.
pub open spec fn alloc_id(s: StateModel) -> u32 {
    if s.drop_channels.len() > 0 {
        s.drop_channels.last()
    } else {
        s.next_channel
    }
}

/// The state after one allocation.
pub open spec fn alloc_rest(s: StateModel) -> StateModel {
    if s.drop_channels.len() > 0 {
        StateModel { drop_channels: s.drop_channels.drop_last(), ..s }
    } else {
        StateModel { next_channel: (s.next_channel + 1) as u32, ..s }
    }
}

/// The severity a log command level in `1..=5` is forwarded at.
pub open spec fn spec_level(lvl: u16) -> Level {
    if lvl == 1 {
        Level::Error
    } else if lvl == 2 {
        Level::Warn
    } else if lvl == 3 {
        Level::Info
    } else if lvl == 4 {
        Level::Debug
    } else {
        Level::Trace
    }
}

/// The outcome of a log command: the embedder calls it produces, or the trap
/// that stops the guest together with the calls made before it.
///
/// The payload must be exactly 16 bytes: a log header naming a target slice
/// (its length clamped to 255 bytes), a level, and a message slice.  Both
/// slices must be valid UTF-8.  Level 0 forwards the message at `Error`
/// severity and then traps; levels 1 to 5 forward at the matching severity;
/// any other level traps.
pub open spec fn spec_log(calls: Seq<Call>, m: Seq<u8>, size: u32, data: u32) -> Result<
    Seq<Call>,
    (Trap, Seq<Call>),
> {
    if size != 16 {
        Err((Trap::CommandSize, calls))
    } else if data + 16 > m.len() {
        Err((Trap::OutOfBounds, calls))
    } else {
        let ts = u16_at(m, data as int);
        let tsz = if ts > 255 {
            255 as u16
        } else {
            ts
        };
        let lvl = u16_at(m, data + 2);
        let td = u32_at(m, data + 4);
        let msz = u32_at(m, data + 8);
        let md = u32_at(m, data + 12);
        if td + tsz > m.len() {
            Err((Trap::OutOfBounds, calls))
        } else if !valid_utf8(m.subrange(td as int, td + tsz)) {
            Err((Trap::InvalidUtf8, calls))
        } else if md + msz > m.len() {
            Err((Trap::OutOfBounds, calls))
        } else if !valid_utf8(m.subrange(md as int, md + msz)) {
            Err((Trap::InvalidUtf8, calls))
        } else {
            let target = m.subrange(td as int, td + tsz);
            let message = m.subrange(md as int, md + msz);
            if lvl == 0 {
                Err(
                    (
                        Trap::Fatal,
                        calls.push(Call::Log { text: message, level: Level::Error, target }),
                    ),
                )
            } else if lvl <= 5 {
                Ok(calls.push(Call::Log { text: message, level: spec_level(lvl), target }))
            } else {
                Err((Trap::InvalidLogLevel, calls))
            }
        }
    }
}

/// The outcome of a prompt command: the read-line registration it hands the
/// embedder, or the trap that stops the guest.
///
/// The payload must be exactly 8 bytes: a pointer to the capacity cell and a
/// pointer to the `(size, reference)` buffer pair.
pub open spec fn spec_prompt(calls: Seq<Call>, m: Seq<u8>, ready: u32, size: u32, data: u32)
    -> Result<Seq<Call>, (Trap, Seq<Call>)> {
    if size != 8 {
        Err((Trap::CommandSize, calls))
    } else if data + 8 > m.len() {
        Err((Trap::OutOfBounds, calls))
    } else {
        let capacity_ref = u32_at(m, data as int);
        let text_ref = u32_at(m, data + 4);
        Ok(calls.push(Call::ReadLine { ready, text_ref, capacity_ref }))
    }
}

/// Log portal: decode the log header, read both strings from guest memory,
/// and forward the message to the embedder at the named severity.
///
/// Returns `true` on completion: a log command always completes
/// synchronously.
fn log<S: System>(system: &mut S, _ready: u32, bytes: &Vec<u8>, size: u32, data: u32) -> (r:
    Result<bool, Trap>)
    ensures
        match spec_log(old(system).calls(), bytes@, size, data) {
            Ok(c2) => r == Ok::<bool, Trap>(true) && final(system).calls() == c2,
            Err((t, c2)) => r == Err::<bool, Trap>(t) && final(system).calls() == c2,
        },
{
    if size != 16 {
        return Err(Trap::CommandSize);
    }
    let mut rd = Reader::new(data as usize);
    let target_size = match rd.u16(bytes) {
        Ok(v) => v,
        Err(t) => {
            return Err(t);
        },
    };
    let log_level = match rd.u16(bytes) {
        Ok(v) => v,
        Err(t) => {
            return Err(t);
        },
    };
    let target_data = match rd.u32(bytes) {
        Ok(v) => v,
        Err(t) => {
            return Err(t);
        },
    };
    let message_size = match rd.u32(bytes) {
        Ok(v) => v,
        Err(t) => {
            return Err(t);
        },
    };
    let message_data = match rd.u32(bytes) {
        Ok(v) => v,
        Err(t) => {
            return Err(t);
        },
    };
    let target_len: u16 = if target_size > 255 {
        255
    } else {
        target_size
    };
    let mut tr = Reader::new(target_data as usize);
    let target = match tr.str(bytes, target_len as usize) {
        Ok(s) => s,
        Err(t) => {
            return Err(t);
        },
    };
    let mut mr = Reader::new(message_data as usize);
    let message = match mr.str(bytes, message_size as usize) {
        Ok(s) => s,
        Err(t) => {
            return Err(t);
        },
    };
    let level = match log_level {
        0 => {
            system.log(message.as_str(), Level::Error, target.as_str());
            return Err(Trap::Fatal);
        },
        1 => Level::Error,
        2 => Level::Warn,
        3 => Level::Info,
        4 => Level::Debug,
        5 => Level::Trace,
        _ => {
            return Err(Trap::InvalidLogLevel);
        },
    };
    system.log(message.as_str(), level, target.as_str());
    Ok(true)
}

/// Prompt portal: decode the two payload pointers and register the read-line
/// request with the embedder.
///
/// Returns `false`: a prompt never completes synchronously; the embedder
/// appends `ready` to the ready list once a line has been captured.
fn prompt<S: System>(system: &mut S, ready: u32, bytes: &Vec<u8>, size: u32, data: u32) -> (r:
    Result<bool, Trap>)
    ensures
        match spec_prompt(old(system).calls(), bytes@, ready, size, data) {
            Ok(c2) => r == Ok::<bool, Trap>(false) && final(system).calls() == c2,
            Err((t, c2)) => r == Err::<bool, Trap>(t) && final(system).calls() == c2,
        },
{
    if size != 8 {
        return Err(Trap::CommandSize);
    }
    let mut rd = Reader::new(data as usize);
    let capacity_ref = match rd.u32(bytes) {
        Ok(v) => v,
        Err(t) => {
            return Err(t);
        },
    };
    let text_ref = match rd.u32(bytes) {
        Ok(v) => v,
        Err(t) => {
            return Err(t);
        },
    };
    system.read_line(ready, text_ref, capacity_ref);
    Ok(false)
}

/// Placeholder for portals whose APIs are not settled yet: completes at once
/// without doing anything.
fn fixme<S: System>(_system: &mut S, _ready: u32, _bytes: &Vec<u8>, _size: u32, _data: u32) -> (r:
    bool)
    ensures
        r == true,
        *final(_system) == *old(_system),
{
    true
}

/// The channel table extended with unbound slots up to length `n`.
pub open spec fn pad_channels(cs: Seq<Option<Portal>>, n: int) -> Seq<Option<Portal>> {
    if cs.len() >= n {
        cs
    } else {
        cs + Seq::new((n - cs.len()) as nat, |i: int| None::<Portal>)
    }
}

/// The state with portal `p` marked enabled.
pub open spec fn enable_portal(s: StateModel, p: Portal) -> StateModel {
    StateModel { portals: s.portals.update(portal_index(p), true), ..s }
}

/// The state with channel `id` bound to portal `p`, the table having been
/// resized up to `next_channel`.
pub open spec fn bind_channel(s: StateModel, id: u32, p: Portal) -> StateModel {
    StateModel {
        conn_channels: pad_channels(s.conn_channels, s.next_channel as int).update(
            id as int,
            Some(p),
        ),
        ..s
    }
}

/// The outcome of processing the first `k` portal entries of a connect
/// payload at offset `pd`: the new state and guest memory, or the trap that
/// stops the guest.  Each entry requests a portal by wire value; the engine
/// enables the portal, allocates a channel, binds it, and overwrites the
/// entry with the channel ID.
pub open spec fn spec_connect_entries(s: StateModel, m: Seq<u8>, pd: int, k: nat) -> Result<
    (StateModel, Seq<u8>),
    Trap,
>
    decreases k,
{
    if k == 0 {
        Ok((s, m))
    } else if !(0 <= pd && pd + 4 <= m.len()) {
        Err(Trap::OutOfBounds)
    } else {
        match spec_portal_of(u32_at(m, pd)) {
            None => Err(Trap::InvalidPortal),
            Some(p) => {
                let s1 = enable_portal(s, p);
                if !alloc_ok(s1) {
                    Err(Trap::ChannelExhausted)
                } else {
                    let id = alloc_id(s1);
                    let s2 = bind_channel(alloc_rest(s1), id, p);
                    let m2 = store32(m, pd, id);
                    spec_connect_entries(s2, m2, pd + 4, (k - 1) as nat)
                }
            },
        }
    }
}

/// The state with the ready list replaced by the one a connect payload names.
pub open spec fn set_ready_list(s: StateModel, c: Connect) -> StateModel {
    StateModel { ready_list: (c.ready_capacity, c.ready_data), ..s }
}

/// The outcome of a whole connect command: install the ready list, then
/// process every portal entry.
pub open spec fn spec_connect(s: StateModel, m: Seq<u8>, c: Connect) -> Result<
    (StateModel, Seq<u8>),
    Trap,
> {
    spec_connect_entries(
        set_ready_list(s, c),
        m,
        c.portals_data as int,
        c.portals_size as nat,
    )
}

/// The outcome of one command: the new engine state, guest memory and
/// embedder calls together with the synchronous-completion flag, or the trap
/// that stops the guest together with the calls made before it.
///
/// Channel 0 carries a 16-byte connect payload.  Any other channel must be
/// bound in the table and its portal enabled; the command is then handled by
/// the portal's callback.
pub open spec fn spec_step(s: StateModel, m: Seq<u8>, calls: Seq<Call>, cmd: Command) -> Result<
    (StateModel, Seq<u8>, Seq<Call>, bool),
    (Trap, Seq<Call>),
> {
    if cmd.channel == 0 {
        if cmd.size != 16 {
            Err((Trap::CommandSize, calls))
        } else if cmd.data + 16 > m.len() {
            Err((Trap::OutOfBounds, calls))
        } else {
            let c = Connect {
                portals_size: u32_at(m, cmd.data as int),
                portals_data: u32_at(m, cmd.data + 4),
                ready_capacity: u32_at(m, cmd.data + 8),
                ready_data: u32_at(m, cmd.data + 12),
            };
            match spec_connect(s, m, c) {
                Ok((s2, m2)) => Ok((s2, m2, calls, true)),
                Err(t) => Err((t, calls)),
            }
        }
    } else if cmd.channel >= s.conn_channels.len() {
        Err((Trap::InvalidChannel, calls))
    } else {
        match s.conn_channels[cmd.channel as int] {
            None => Err((Trap::InvalidChannel, calls)),
            Some(p) => {
                if !s.portals[portal_index(p)] {
                    Err((Trap::DisabledPortal, calls))
                } else {
                    match p {
                        Portal::Log => match spec_log(calls, m, cmd.size, cmd.data) {
                            Ok(c2) => Ok((s, m, c2, true)),
                            Err(e) => Err(e),
                        },
                        Portal::Prompt => match spec_prompt(
                            calls,
                            m,
                            cmd.ready,
                            cmd.size,
                            cmd.data,
                        ) {
                            Ok(c2) => Ok((s, m, c2, false)),
                            Err(e) => Err(e),
                        },
                        _ => Ok((s, m, calls, true)),
                    }
                }
            },
        }
    }
}

/// The outcome of processing the remaining `n` commands of an asynchronous
/// request, the next one at offset `data`: the final state, guest memory,
/// embedder calls and conjunction of the synchronous-completion flags, or
/// the trap that stops the guest.  Commands are processed in array order;
/// each 16-byte record is read from guest memory as it stands when its turn
/// comes.
pub open spec fn spec_run(
    s: StateModel,
    m: Seq<u8>,
    calls: Seq<Call>,
    data: int,
    n: nat,
    sync_all: bool,
) -> Result<(StateModel, Seq<u8>, Seq<Call>, bool), (Trap, Seq<Call>)>
    decreases n,
{
    if n == 0 {
        Ok((s, m, calls, sync_all))
    } else if !(0 <= data && data + 16 <= m.len()) {
        Err((Trap::OutOfBounds, calls))
    } else {
        let cmd = Command {
            size: u32_at(m, data),
            data: u32_at(m, data + 4),
            channel: u32_at(m, data + 8),
            ready: u32_at(m, data + 12),
        };
        match spec_step(s, m, calls, cmd) {
            Ok((s2, m2, c2, sync)) => spec_run(s2, m2, c2, data + 16, (n - 1) as nat, sync_all
                && sync),
            Err(e) => Err(e),
        }
    }
}

/// Guest memory with the `k` ready-list slots starting at byte offset `ptr`
/// overwritten with the sentinel `0xFFFF_FFFF`.
pub open spec fn spec_fill_ready(m: Seq<u8>, ptr: int, k: nat) -> Seq<u8>
    decreases k,
{
    if k == 0 {
        m
    } else {
        spec_fill_ready(store32(m, ptr, 0xFFFF_FFFFu32), ptr + 4, (k - 1) as nat)
    }
}

/// Per-guest engine state.
pub struct State<S: System> {
    /// The embedder.
    pub system: S,
    /// Ready list `(capacity, pointer)` captured at connect time.
    pub ready_list: (u32, u32),
    /// Enable set: one flag per known portal ID.
    pub portals: Vec<bool>,
    /// Channel IDs that can be reclaimed.
    pub drop_channels: Vec<u32>,
    /// Next channel ID.
    pub next_channel: u32,
    /// Connected channels, indexed by channel ID.  Channel 0 is reserved for
    /// the connector and never appears here; a channel's portal never changes
    /// while the channel stays bound.
    pub conn_channels: Vec<Option<Portal>>,
}

impl<S: System> State<S> {
    /// The state a guest observes.
    pub open spec fn model(self) -> StateModel {
        StateModel {
            ready_list: self.ready_list,
            portals: self.portals@,
            drop_channels: self.drop_channels@,
            next_channel: self.next_channel,
            conn_channels: self.conn_channels@,
        }
    }

    /// Well-formedness: the channel table invariants.
    pub open spec fn wf(self) -> bool {
        self.model().wf()
    }

    /// Fresh per-guest state: no channel bound, every portal disabled, and an
    /// empty ready list at pointer 0.
    pub fn new(system: S) -> (r: State<S>)
        ensures
            r.system == system,
            r.wf(),
            r.ready_list == (0u32, 0u32),
            r.next_channel == 1,
            r.model().drop_channels.len() == 0,
            r.model().conn_channels.len() == 0,
            forall|k: int| 0 <= k < PORTAL_COUNT ==> !r.model().portals[k],
    {
        let mut portals: Vec<bool> = Vec::new();
        while portals.len() < PORTAL_COUNT
            invariant
                portals@.len() <= PORTAL_COUNT,
                forall|k: int| 0 <= k < portals@.len() ==> !portals@[k],
            decreases PORTAL_COUNT - portals@.len(),
        {
            portals.push(false);
        }
        State {
            system,
            ready_list: (0, 0),
            portals,
            drop_channels: Vec::new(),
            next_channel: 1,
            conn_channels: Vec::new(),
        }
    }

    /// Allocate a channel: pop the free-list if non-empty, otherwise take the
    /// next fresh channel ID.
    fn channel(&mut self) -> (r: Result<u32, Trap>)
        requires
            old(self).wf(),
        ensures
            final(self).system == old(self).system,
            final(self).wf(),
            r is Ok <==> alloc_ok(old(self).model()),
            r matches Ok(id) ==> id == alloc_id(old(self).model()) && final(self).model()
                == alloc_rest(old(self).model()) && 1 <= id < final(self).next_channel,
            r is Err ==> r == Err::<u32, Trap>(Trap::ChannelExhausted) && final(self).model()
                == old(self).model(),
    {
        if let Some(id) = self.drop_channels.pop() {
            Ok(id)
        } else if self.next_channel < u32::MAX {
            let id = self.next_channel;
            self.next_channel = id + 1;
            Ok(id)
        } else {
            Err(Trap::ChannelExhausted)
        }
    }

    /// Resize the channel table up to `next_channel`, filling with unbound
    /// slots.
    fn grow_channels(&mut self)
        requires
            old(self).conn_channels@.len() <= old(self).next_channel as int,
        ensures
            final(self).system == old(self).system,
            final(self).model() == (StateModel {
                conn_channels: pad_channels(
                    old(self).model().conn_channels,
                    old(self).next_channel as int,
                ),
                ..old(self).model()
            }),
    {
        let nc = self.next_channel as usize;
        while self.conn_channels.len() < nc
            invariant
                self.system == old(self).system,
                self.ready_list == old(self).ready_list,
                self.portals@ == old(self).portals@,
                self.drop_channels@ == old(self).drop_channels@,
                self.next_channel == old(self).next_channel,
                nc == old(self).next_channel as usize,
                old(self).conn_channels@.len() <= self.conn_channels@.len(),
                self.conn_channels@.len() <= nc as int,
                forall|k: int| 0 <= k < old(self).conn_channels@.len()
                    ==> self.conn_channels@[k] == old(self).conn_channels@[k],
                forall|k: int| old(self).conn_channels@.len() <= k < self.conn_channels@.len()
                    ==> self.conn_channels@[k] is None,
            decreases nc - self.conn_channels@.len(),
        {
            self.conn_channels.push(None);
        }
        proof {
            assert(self.conn_channels@ =~= pad_channels(
                old(self).conn_channels@,
                old(self).next_channel as int,
            ));
            assert(self.model() =~= (StateModel {
                conn_channels: pad_channels(
                    old(self).model().conn_channels,
                    old(self).next_channel as int,
                ),
                ..old(self).model()
            }));
        }
    }

    /// Connect channels: install the guest's ready list, then, for each
    /// entry of the portals array, enable the requested portal, allocate and
    /// bind a channel, and overwrite the entry in guest memory with the
    /// channel ID.
    pub fn connect(&mut self, bytes: &mut Vec<u8>, connect: Connect) -> (r: Result<(), Trap>)
        requires
            old(self).wf(),
        ensures
            final(self).system == old(self).system,
            final(self).wf(),
            final(bytes)@.len() == old(bytes)@.len(),
            r matches Ok(u) ==> spec_connect(old(self).model(), old(bytes)@, connect)
                == Ok::<(StateModel, Seq<u8>), Trap>((final(self).model(), final(bytes)@)),
            r matches Err(t) ==> spec_connect(old(self).model(), old(bytes)@, connect)
                == Err::<(StateModel, Seq<u8>), Trap>(t),
    {
        self.ready_list = (connect.ready_capacity, connect.ready_data);
        proof {
            assert(self.model() =~= set_ready_list(old(self).model(), connect));
        }
        let blen = bytes.len();
        let ghost s0 = self.model();
        let ghost m0 = bytes@;
        let mut offset: usize = connect.portals_data as usize;
        let mut i: u32 = 0;
        while i < connect.portals_size
            invariant
                self.wf(),
                self.system == old(self).system,
                bytes@.len() == m0.len(),
                m0.len() == blen as int,
                i <= connect.portals_size,
                m0 == old(bytes)@,
                s0 == set_ready_list(old(self).model(), connect),
                offset == connect.portals_data + 4 * i,
                spec_connect_entries(
                    s0,
                    m0,
                    connect.portals_data as int,
                    connect.portals_size as nat,
                ) == spec_connect_entries(
                    self.model(),
                    bytes@,
                    offset as int,
                    (connect.portals_size - i) as nat,
                ),
            decreases connect.portals_size - i,
        {
            let ghost s_i = self.model();
            let ghost m_i = bytes@;
            let mut reader = Reader::new(offset);
            let pv = match reader.u32(bytes) {
                Ok(v) => v,
                Err(t) => {
                    return Err(t);
                },
            };
            let p = match portal_of(pv) {
                Some(p) => p,
                None => {
                    return Err(Trap::InvalidPortal);
                },
            };
            let slot = portal_slot(p);
            self.portals[slot] = true;
            proof {
                assert(self.model() =~= enable_portal(s_i, p));
            }
            let id = match self.channel() {
                Ok(id) => id,
                Err(t) => {
                    return Err(t);
                },
            };
            self.grow_channels();
            let idx = id as usize;
            self.conn_channels[idx] = Some(p);
            proof {
                assert(self.model() =~= bind_channel(alloc_rest(enable_portal(s_i, p)), id, p));
            }
            let mut w = Writer::new(offset);
            let res = w.u32(bytes, id);
            proof {
                assert(res is Ok);
                assert(bytes@ == store32(m_i, offset as int, id));
            }
            offset = offset + 4;
            i = i + 1;
        }
        Ok(())
    }

    /// Look up the portal a channel is bound to.  A channel ID that is out
    /// of range or unbound is a host trap.
    pub fn lookup(&self, id: u32) -> (r: Result<Portal, Trap>)
        ensures
            r matches Ok(p) ==> id < self.conn_channels@.len() && self.conn_channels@[id as int]
                == Some(p),
            r is Err ==> r == Err::<Portal, Trap>(Trap::InvalidChannel) && (id
                >= self.conn_channels@.len() || self.conn_channels@[id as int] is None),
    {
        let idx = id as usize;
        if idx >= self.conn_channels.len() {
            return Err(Trap::InvalidChannel);
        }
        match self.conn_channels[idx] {
            Some(p) => Ok(p),
            None => Err(Trap::InvalidChannel),
        }
    }

    /// Execute a command from an asynchronous request.
    ///
    /// Returns the synchronous-completion flag: `true` exactly when no
    /// asynchronous continuation was registered for this command.
    pub fn execute(&mut self, bytes: &mut Vec<u8>, command: Command) -> (r: Result<bool, Trap>)
        requires
            old(self).wf(),
        ensures
            final(self).wf(),
            final(bytes)@.len() == old(bytes)@.len(),
            match spec_step(
                old(self).model(),
                old(bytes)@,
                old(self).system.calls(),
                command,
            ) {
                Ok((s2, m2, c2, sync)) => r == Ok::<bool, Trap>(sync) && final(self).model()
                    == s2 && final(bytes)@ == m2 && final(self).system.calls() == c2,
                Err((t, c2)) => r == Err::<bool, Trap>(t) && final(self).system.calls() == c2,
            },
    {
        if command.channel == 0 {
            if command.size != 16 {
                return Err(Trap::CommandSize);
            }
            let mut rd = Reader::new(command.data as usize);
            let portals_size = match rd.u32(bytes) {
                Ok(v) => v,
                Err(t) => {
                    return Err(t);
                },
            };
            let portals_data = match rd.u32(bytes) {
                Ok(v) => v,
                Err(t) => {
                    return Err(t);
                },
            };
            let ready_capacity = match rd.u32(bytes) {
                Ok(v) => v,
                Err(t) => {
                    return Err(t);
                },
            };
            let ready_data = match rd.u32(bytes) {
                Ok(v) => v,
                Err(t) => {
                    return Err(t);
                },
            };
            let c = Connect { portals_size, portals_data, ready_capacity, ready_data };
            match self.connect(bytes, c) {
                Ok(()) => Ok(true),
                Err(t) => Err(t),
            }
        } else {
            let p = match self.lookup(command.channel) {
                Ok(p) => p,
                Err(t) => {
                    return Err(t);
                },
            };
            let slot = portal_slot(p);
            if !self.portals[slot] {
                return Err(Trap::DisabledPortal);
            }
            match p {
                Portal::Log => log(
                    &mut self.system,
                    command.ready,
                    bytes,
                    command.size,
                    command.data,
                ),
                Portal::Prompt => prompt(
                    &mut self.system,
                    command.ready,
                    bytes,
                    command.size,
                    command.data,
                ),
                _ => Ok(
                    fixme(&mut self.system, command.ready, bytes, command.size, command.data),
                ),
            }
        }
    }

    /// Asynchronous request: the entry point the guest imports as `ar`.
    ///
    /// Reads `size` 16-byte commands starting at `data` and dispatches each
    /// in array order.  If every command completed synchronously, fills the
    /// ready list with the sentinel and returns 0; otherwise sleeps in the
    /// embedder, which populates the ready list and reports how many
    /// completions it wrote.
    pub fn ar(&mut self, bytes: &mut Vec<u8>, size: u32, data: u32) -> (r: Result<u32, Trap>)
        requires
            old(self).wf(),
        ensures
            final(self).wf(),
            final(bytes)@.len() == old(bytes)@.len(),
            match spec_run(
                old(self).model(),
                old(bytes)@,
                old(self).system.calls(),
                data as int,
                size as nat,
                true,
            ) {
                Ok((s2, m2, c2, nw)) => {
                    let cap = s2.ready_list.0;
                    let ptr = s2.ready_list.1;
                    final(self).model() == s2 && (if nw {
                        if ptr + 4 * cap <= m2.len() {
                            r == Ok::<u32, Trap>(0u32) && final(self).system.calls() == c2
                                && final(bytes)@ == spec_fill_ready(m2, ptr as int, cap as nat)
                        } else {
                            r == Err::<u32, Trap>(Trap::OutOfBounds)
                                && final(self).system.calls() == c2 && final(bytes)@ == m2
                        }
                    } else {
                        final(self).system.calls() == c2.push(
                            Call::Sleep { capacity: cap, data: ptr },
                        ) && (r matches Ok(n) && n <= cap && (cap > 0 ==> 1 <= n))
                    })
                },
                Err((t, c2)) => r == Err::<u32, Trap>(t) && final(self).system.calls() == c2,
            },
    {
        let ghost s0 = self.model();
        let ghost m0 = bytes@;
        let ghost c0 = self.system.calls();
        let mut offset: usize = data as usize;
        let mut none_waiting = true;
        let mut i: u32 = 0;
        while i < size
            invariant
                self.wf(),
                bytes@.len() == m0.len(),
                m0 == old(bytes)@,
                s0 == old(self).model(),
                c0 == old(self).system.calls(),
                i <= size,
                offset == data + 16 * i,
                spec_run(s0, m0, c0, data as int, size as nat, true) == spec_run(
                    self.model(),
                    bytes@,
                    self.system.calls(),
                    offset as int,
                    (size - i) as nat,
                    none_waiting,
                ),
            decreases size - i,
        {
            let mut rd = Reader::new(offset);
            let csize = match rd.u32(bytes) {
                Ok(v) => v,
                Err(t) => {
                    return Err(t);
                },
            };
            let cdata = match rd.u32(bytes) {
                Ok(v) => v,
                Err(t) => {
                    return Err(t);
                },
            };
            let cchannel = match rd.u32(bytes) {
                Ok(v) => v,
                Err(t) => {
                    return Err(t);
                },
            };
            let cready = match rd.u32(bytes) {
                Ok(v) => v,
                Err(t) => {
                    return Err(t);
                },
            };
            let command = Command { size: csize, data: cdata, channel: cchannel, ready: cready };
            let done = match self.execute(bytes, command) {
                Ok(b) => b,
                Err(t) => {
                    return Err(t);
                },
            };
            none_waiting = none_waiting && done;
            offset = offset + 16;
            i = i + 1;
        }
        let cap = self.ready_list.0;
        let ptr = self.ready_list.1;
        if !none_waiting {
            let count = self.system.sleep(bytes, cap, ptr);
            Ok(count)
        } else {
            if (ptr as u64) + 4 * (cap as u64) > bytes.len() as u64 {
                return Err(Trap::OutOfBounds);
            }
            let ghost m_mid = bytes@;
            let mut w = Writer::new(ptr as usize);
            let mut j: u32 = 0;
            while j < cap
                invariant
                    bytes@.len() == m_mid.len(),
                    j <= cap,
                    w.pos == ptr + 4 * j,
                    ptr + 4 * cap <= bytes@.len(),
                    spec_fill_ready(m_mid, ptr as int, cap as nat) == spec_fill_ready(
                        bytes@,
                        w.pos as int,
                        (cap - j) as nat,
                    ),
                decreases cap - j,
            {
                let res = w.u32(bytes, u32::MAX);
                proof {
                    assert(res is Ok);
                }
                j = j + 1;
            }
            Ok(0)
        }
    }
}

/// The outcome of a debug trace: the embedder call it produces, or the trap
/// that stops the guest.  The `size` bytes at `text` must be valid UTF-8;
/// they are forwarded at trace severity under the fixed `daku-dbg` target.
pub open spec fn spec_dbg(calls: Seq<Call>, m: Seq<u8>, size: u32, text: u32) -> Result<
    Seq<Call>,
    (Trap, Seq<Call>),
> {
    if text + size > m.len() {
        Err((Trap::OutOfBounds, calls))
    } else if !valid_utf8(m.subrange(text as int, text + size)) {
        Err((Trap::InvalidUtf8, calls))
    } else {
        Ok(
            calls.push(
                Call::Log {
                    text: m.subrange(text as int, text + size),
                    level: Level::Trace,
                    target: encode_utf8("daku-dbg"@),
                },
            ),
        )
    }
}

/// Debug trace: the entry point the guest imports as `dbg`.  Reads `size`
/// bytes of UTF-8 at `text` and forwards them to the embedder's logger at
/// trace severity with a fixed target identifier.
pub fn dbg<S: System>(system: &mut S, bytes: &Vec<u8>, size: u32, text: u32) -> (r: Result<
    (),
    Trap,
>)
    ensures
        match spec_dbg(old(system).calls(), bytes@, size, text) {
            Ok(c2) => r is Ok && final(system).calls() == c2,
            Err((t, c2)) => r == Err::<(), Trap>(t) && final(system).calls() == c2,
        },
{
    let mut rd = Reader::new(text as usize);
    let s = match rd.str(bytes, size as usize) {
        Ok(s) => s,
        Err(t) => {
            return Err(t);
        },
    };
    system.log(s.as_str(), Level::Trace, "daku-dbg");
    Ok(())
}

} // verus!
