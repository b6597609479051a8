use ardaku::engine::Trap;
use ardaku::system::{Level, System};
use ardaku::{Command, State};

/// An embedder that records every syscall it observes.
struct MockSystem {
    logs: Vec<(String, Level, String)>,
    reads: Vec<(u32, u32, u32)>,
    sleeps: Vec<(u32, u32)>,
}

impl MockSystem {
    fn new() -> MockSystem {
        MockSystem { logs: Vec::new(), reads: Vec::new(), sleeps: Vec::new() }
    }
}

impl System for MockSystem {
    // The ghost call record has no runtime content.
    fn calls(&self) -> ardaku::system::Calls {
        unreachable!()
    }

    fn sleep(&mut self, _bytes: &mut Vec<u8>, size: u32, data: u32) -> u32 {
        self.sleeps.push((size, data));
        if size > 0 {
            1
        } else {
            0
        }
    }

    fn log(&mut self, text: &str, level: Level, target: &str) {
        self.logs.push((text.to_string(), level, target.to_string()));
    }

    fn read_line(&mut self, ready: u32, data: u32, size: u32) {
        self.reads.push((ready, data, size));
    }
}

fn le32(v: u32) -> [u8; 4] {
    v.to_le_bytes()
}

fn put32(mem: &mut Vec<u8>, at: usize, v: u32) {
    mem[at..at + 4].copy_from_slice(&le32(v));
}

fn get32(mem: &[u8], at: usize) -> u32 {
    u32::from_le_bytes([mem[at], mem[at + 1], mem[at + 2], mem[at + 3]])
}

/// Scenario: connect a single Log portal, with a 4-slot ready list.
#[test]
fn connect_log_only() {
    let mut state = State::new(MockSystem::new());
    let mut mem = vec![0u8; 0x1000];
    // Connect payload at 0x100: 1 portal entry at 0x120, ready list cap 4 at 0x140.
    put32(&mut mem, 0x100, 1);
    put32(&mut mem, 0x104, 0x120);
    put32(&mut mem, 0x108, 4);
    put32(&mut mem, 0x10C, 0x140);
    // Portal entry: request Log (0).
    put32(&mut mem, 0x120, 0);
    // Command at 0x200: size 16, data 0x100, channel 0, ready 0xAAAAAAAA.
    put32(&mut mem, 0x200, 16);
    put32(&mut mem, 0x204, 0x100);
    put32(&mut mem, 0x208, 0);
    put32(&mut mem, 0x20C, 0xAAAA_AAAA);
    let r = state.ar(&mut mem, 1, 0x200);
    assert_eq!(r, Ok(0));
    // The entry was overwritten with a channel ID >= 1.
    let channel = get32(&mem, 0x120);
    assert!(channel >= 1);
    // The ready list is sentinel-filled.
    for slot in 0..4 {
        assert_eq!(get32(&mem, 0x140 + 4 * slot), 0xFFFF_FFFF);
    }
    assert!(state.system.logs.is_empty());
}

/// Scenario: connect the Log portal, then log an Info message through it.
#[test]
fn log_a_message() {
    let mut state = State::new(MockSystem::new());
    let mut mem = vec![0u8; 0x1000];
    put32(&mut mem, 0x100, 1);
    put32(&mut mem, 0x104, 0x120);
    put32(&mut mem, 0x108, 4);
    put32(&mut mem, 0x10C, 0x140);
    put32(&mut mem, 0x120, 0);
    put32(&mut mem, 0x200, 16);
    put32(&mut mem, 0x204, 0x100);
    put32(&mut mem, 0x208, 0);
    put32(&mut mem, 0x20C, 0xAAAA_AAAA);
    assert_eq!(state.ar(&mut mem, 1, 0x200), Ok(0));
    let channel = get32(&mem, 0x120);
    // Log payload at 0x300: target_size 6, level 3 (Info), target at 0x400,
    // message of 5 bytes at 0x410.
    mem[0x300..0x302].copy_from_slice(&6u16.to_le_bytes());
    mem[0x302..0x304].copy_from_slice(&3u16.to_le_bytes());
    put32(&mut mem, 0x304, 0x400);
    put32(&mut mem, 0x308, 5);
    put32(&mut mem, 0x30C, 0x410);
    mem[0x400..0x406].copy_from_slice(b"ardaku");
    mem[0x410..0x415].copy_from_slice(b"hello");
    // Command at 0x500 dispatching on the connected channel.
    put32(&mut mem, 0x500, 16);
    put32(&mut mem, 0x504, 0x300);
    put32(&mut mem, 0x508, channel);
    put32(&mut mem, 0x50C, 1);
    assert_eq!(state.ar(&mut mem, 1, 0x500), Ok(0));
    assert_eq!(state.system.logs.len(), 1);
    assert_eq!(
        state.system.logs[0],
        ("hello".to_string(), Level::Info, "ardaku".to_string())
    );
}

/// Prepare a state with the Log portal connected; returns its channel ID.
fn connect_log(state: &mut State<MockSystem>, mem: &mut Vec<u8>) -> u32 {
    put32(mem, 0x100, 1);
    put32(mem, 0x104, 0x120);
    put32(mem, 0x108, 4);
    put32(mem, 0x10C, 0x140);
    put32(mem, 0x120, 0);
    put32(mem, 0x200, 16);
    put32(mem, 0x204, 0x100);
    put32(mem, 0x208, 0);
    put32(mem, 0x20C, 0);
    assert_eq!(state.ar(mem, 1, 0x200), Ok(0));
    get32(mem, 0x120)
}

/// Write a 16-byte log payload at 0x300 and a command for it at 0x500.
fn log_command(mem: &mut Vec<u8>, channel: u32, target_size: u16, level: u16) {
    mem[0x300..0x302].copy_from_slice(&target_size.to_le_bytes());
    mem[0x302..0x304].copy_from_slice(&level.to_le_bytes());
    put32(mem, 0x304, 0x400);
    put32(mem, 0x308, 4);
    put32(mem, 0x30C, 0x410);
    mem[0x400..0x403].copy_from_slice(b"dev");
    mem[0x410..0x414].copy_from_slice(b"boom");
    put32(mem, 0x500, 16);
    put32(mem, 0x504, 0x300);
    put32(mem, 0x508, channel);
    put32(mem, 0x50C, 1);
}

/// Scenario: a log at the fatal level forwards the message at `Error`
/// severity and then traps.
#[test]
fn log_fatal_forwards_then_traps() {
    let mut state = State::new(MockSystem::new());
    let mut mem = vec![0u8; 0x1000];
    let channel = connect_log(&mut state, &mut mem);
    log_command(&mut mem, channel, 3, 0);
    let r = state.ar(&mut mem, 1, 0x500);
    assert_eq!(r, Err(Trap::Fatal));
    assert_eq!(state.system.logs.len(), 1);
    assert_eq!(
        state.system.logs[0],
        ("boom".to_string(), Level::Error, "dev".to_string())
    );
}

/// A log level above 5 traps without reaching the embedder.
#[test]
fn log_invalid_level_traps() {
    let mut state = State::new(MockSystem::new());
    let mut mem = vec![0u8; 0x1000];
    let channel = connect_log(&mut state, &mut mem);
    log_command(&mut mem, channel, 3, 6);
    assert_eq!(state.ar(&mut mem, 1, 0x500), Err(Trap::InvalidLogLevel));
    assert!(state.system.logs.is_empty());
}

/// A log command whose payload is not 16 bytes traps.
#[test]
fn log_wrong_payload_size_traps() {
    let mut state = State::new(MockSystem::new());
    let mut mem = vec![0u8; 0x1000];
    let channel = connect_log(&mut state, &mut mem);
    log_command(&mut mem, channel, 3, 3);
    put32(&mut mem, 0x500, 8); // wrong size
    assert_eq!(state.ar(&mut mem, 1, 0x500), Err(Trap::CommandSize));
    assert!(state.system.logs.is_empty());
}

/// Invalid UTF-8 in the message traps without reaching the embedder.
#[test]
fn log_invalid_utf8_traps() {
    let mut state = State::new(MockSystem::new());
    let mut mem = vec![0u8; 0x1000];
    let channel = connect_log(&mut state, &mut mem);
    log_command(&mut mem, channel, 3, 3);
    mem[0x410] = 0xFF;
    assert_eq!(state.ar(&mut mem, 1, 0x500), Err(Trap::InvalidUtf8));
    assert!(state.system.logs.is_empty());
}

/// A target longer than 255 bytes is truncated to 255.
#[test]
fn log_target_truncated() {
    let mut state = State::new(MockSystem::new());
    let mut mem = vec![0u8; 0x1000];
    let channel = connect_log(&mut state, &mut mem);
    log_command(&mut mem, channel, 300, 3);
    put32(&mut mem, 0x304, 0x600); // target at 0x600, clear of the command
    for b in mem[0x600..0x600 + 300].iter_mut() {
        *b = b'a';
    }
    assert_eq!(state.ar(&mut mem, 1, 0x500), Ok(0));
    assert_eq!(state.system.logs.len(), 1);
    assert_eq!(state.system.logs[0].2.len(), 255);
    assert_eq!(state.system.logs[0].2, "a".repeat(255));
}

/// A command on an unbound channel traps.
#[test]
fn invalid_channel_traps() {
    let mut state = State::new(MockSystem::new());
    let mut mem = vec![0u8; 0x1000];
    let r = state.execute(
        &mut mem,
        Command { size: 16, data: 0x300, channel: 7, ready: 0 },
    );
    assert_eq!(r, Err(Trap::InvalidChannel));
}

/// A command on a channel whose portal is not enabled traps.  Connect
/// enables every portal it binds, so this state only arises through direct
/// construction, reserved for future split-install scenarios.
#[test]
fn disabled_portal_traps() {
    let mut state = State {
        system: MockSystem::new(),
        ready_list: (0, 0),
        portals: vec![false; 12],
        drop_channels: Vec::new(),
        next_channel: 2,
        conn_channels: vec![None, Some(ardaku::Portal::Log)],
    };
    let mut mem = vec![0u8; 0x1000];
    let r = state.execute(
        &mut mem,
        Command { size: 16, data: 0x300, channel: 1, ready: 0 },
    );
    assert_eq!(r, Err(Trap::DisabledPortal));
}

/// A command record that reaches past the end of guest memory traps.
#[test]
fn command_out_of_bounds_traps() {
    let mut state = State::new(MockSystem::new());
    let mut mem = vec![0u8; 0x20];
    assert_eq!(state.ar(&mut mem, 1, 0x18), Err(Trap::OutOfBounds));
}

/// When the channel counter cannot grow any further, connect traps.
#[test]
fn channel_exhausted_traps() {
    let mut state = State {
        system: MockSystem::new(),
        ready_list: (0, 0),
        portals: vec![false; 12],
        drop_channels: Vec::new(),
        next_channel: u32::MAX,
        conn_channels: Vec::new(),
    };
    let mut mem = vec![0u8; 0x1000];
    put32(&mut mem, 0x100, 1);
    put32(&mut mem, 0x104, 0x120);
    put32(&mut mem, 0x108, 0);
    put32(&mut mem, 0x10C, 0);
    put32(&mut mem, 0x120, 0);
    let r = state.execute(
        &mut mem,
        Command { size: 16, data: 0x100, channel: 0, ready: 0 },
    );
    assert_eq!(r, Err(Trap::ChannelExhausted));
}

/// Connecting several portals at once yields pairwise distinct channel IDs,
/// and dispatching on each reaches the portal it was bound to.
#[test]
fn connect_many_distinct_channels() {
    let mut state = State::new(MockSystem::new());
    let mut mem = vec![0u8; 0x1000];
    put32(&mut mem, 0x100, 3);
    put32(&mut mem, 0x104, 0x120);
    put32(&mut mem, 0x108, 4);
    put32(&mut mem, 0x10C, 0x140);
    put32(&mut mem, 0x120, 0); // Log
    put32(&mut mem, 0x124, 1); // Prompt
    put32(&mut mem, 0x128, 2); // Account
    put32(&mut mem, 0x200, 16);
    put32(&mut mem, 0x204, 0x100);
    put32(&mut mem, 0x208, 0);
    put32(&mut mem, 0x20C, 0);
    assert_eq!(state.ar(&mut mem, 1, 0x200), Ok(0));
    let c0 = get32(&mem, 0x120);
    let c1 = get32(&mem, 0x124);
    let c2 = get32(&mem, 0x128);
    assert!(c0 >= 1 && c1 >= 1 && c2 >= 1);
    assert!(c0 != c1 && c1 != c2 && c0 != c2);
    // Lookups keep yielding the same portals the connect bound.
    assert_eq!(state.lookup(c0), Ok(ardaku::Portal::Log));
    assert_eq!(state.lookup(c1), Ok(ardaku::Portal::Prompt));
    assert_eq!(state.lookup(c2), Ok(ardaku::Portal::Account));
    assert_eq!(state.lookup(c2 + 100), Err(Trap::InvalidChannel));
    // Dispatching a log command on the Log channel reaches the embedder.
    log_command(&mut mem, c0, 3, 3);
    assert_eq!(state.ar(&mut mem, 1, 0x500), Ok(0));
    assert_eq!(state.system.logs.len(), 1);
    // Dispatching a prompt command on the Prompt channel registers a read.
    put32(&mut mem, 0x300, 0x600);
    put32(&mut mem, 0x304, 0x610);
    put32(&mut mem, 0x500, 8);
    put32(&mut mem, 0x504, 0x300);
    put32(&mut mem, 0x508, c1);
    put32(&mut mem, 0x50C, 9);
    assert_eq!(state.ar(&mut mem, 1, 0x500), Ok(1));
    assert_eq!(state.system.reads, vec![(9, 0x610, 0x600)]);
    // A command on the Account channel completes synchronously.
    put32(&mut mem, 0x508, c2);
    assert_eq!(state.ar(&mut mem, 1, 0x500), Ok(0));
}

/// The debug import forwards the guest string at trace severity under the
/// fixed `daku-dbg` target.
#[test]
fn dbg_forwards_trace() {
    let mut system = MockSystem::new();
    let mut mem = vec![0u8; 0x40];
    mem[0x10..0x15].copy_from_slice(b"trace");
    assert_eq!(ardaku::dbg(&mut system, &mem, 5, 0x10), Ok(()));
    assert_eq!(
        system.logs,
        vec![("trace".to_string(), Level::Trace, "daku-dbg".to_string())]
    );
    mem[0x10] = 0xC0; // a lone continuation start is not valid UTF-8
    assert_eq!(ardaku::dbg(&mut system, &mem, 5, 0x10), Err(Trap::InvalidUtf8));
}

/// An empty batch completes synchronously: before any connect the ready
/// list is `(0, 0)`, so nothing is written and `ar` returns 0.
#[test]
fn empty_batch_returns_zero() {
    let mut state = State::new(MockSystem::new());
    let mut mem = vec![0u8; 0x10];
    assert_eq!(state.ar(&mut mem, 0, 0), Ok(0));
    assert_eq!(mem, vec![0u8; 0x10]);
    assert!(state.system.sleeps.is_empty());
}

/// Scenario: a connect requesting portal 99 traps.
#[test]
fn invalid_portal_traps() {
    let mut state = State::new(MockSystem::new());
    let mut mem = vec![0u8; 0x1000];
    put32(&mut mem, 0x100, 1);
    put32(&mut mem, 0x104, 0x120);
    put32(&mut mem, 0x108, 4);
    put32(&mut mem, 0x10C, 0x140);
    put32(&mut mem, 0x120, 99);
    let r = state.execute(
        &mut mem,
        Command { size: 16, data: 0x100, channel: 0, ready: 0 },
    );
    assert_eq!(r, Err(Trap::InvalidPortal));
}
