use ardaku::system::{Level, System};
use ardaku::State;

/// An embedder whose `sleep` completes one pending read-line request,
/// honouring the guest's capacity contract.
struct PromptSystem {
    line: Vec<u8>,
    pending: Vec<(u32, u32, u32)>,
}

impl PromptSystem {
    fn new(line: &[u8]) -> PromptSystem {
        PromptSystem { line: line.to_vec(), pending: Vec::new() }
    }
}

fn put32(mem: &mut [u8], at: usize, v: u32) {
    mem[at..at + 4].copy_from_slice(&v.to_le_bytes());
}

fn get32(mem: &[u8], at: usize) -> u32 {
    u32::from_le_bytes([mem[at], mem[at + 1], mem[at + 2], mem[at + 3]])
}

impl System for PromptSystem {
    // The ghost call record has no runtime content.
    fn calls(&self) -> ardaku::system::Calls {
        unreachable!()
    }

    fn sleep(&mut self, bytes: &mut Vec<u8>, _size: u32, data: u32) -> u32 {
        let (ready, text_ref, capacity_ref) = self.pending.remove(0);
        let cap = get32(bytes, capacity_ref as usize);
        let n = self.line.len() as u32;
        if n <= cap {
            let buf_ptr = get32(bytes, text_ref as usize + 4);
            put32(bytes, text_ref as usize, n);
            bytes[buf_ptr as usize..buf_ptr as usize + n as usize]
                .copy_from_slice(&self.line);
        } else {
            // Capacity too small: report the required size, leave the buffer
            // untouched, and still complete so the guest can resize and retry.
            put32(bytes, capacity_ref as usize, n);
        }
        put32(bytes, data as usize, ready);
        1
    }

    fn log(&mut self, _text: &str, _level: Level, _target: &str) {}

    fn read_line(&mut self, ready: u32, data: u32, size: u32) {
        self.pending.push((ready, data, size));
    }
}

/// Connect the Prompt portal and return its channel ID.
fn connect_prompt(state: &mut State<PromptSystem>, mem: &mut Vec<u8>) -> u32 {
    // Connect payload at 0x100: one entry at 0x120, ready list cap 4 at 0x140.
    put32(mem, 0x100, 1);
    put32(mem, 0x104, 0x120);
    put32(mem, 0x108, 4);
    put32(mem, 0x10C, 0x140);
    put32(mem, 0x120, 1); // request Prompt
    put32(mem, 0x200, 16);
    put32(mem, 0x204, 0x100);
    put32(mem, 0x208, 0);
    put32(mem, 0x20C, 0);
    assert_eq!(state.ar(mem, 1, 0x200), Ok(0));
    get32(mem, 0x120)
}

/// Issue one prompt command on `channel` with the given ready identifier.
/// The capacity cell sits at 0x600, the `(size, reference)` pair at 0x610,
/// and the text buffer at 0x700.
fn prompt_once(
    state: &mut State<PromptSystem>,
    mem: &mut Vec<u8>,
    channel: u32,
    ready: u32,
) -> Result<u32, ardaku::engine::Trap> {
    // Prompt payload at 0x300: capacity_ref 0x600, text_ref 0x610.
    put32(mem, 0x300, 0x600);
    put32(mem, 0x304, 0x610);
    put32(mem, 0x610 + 4, 0x700);
    put32(mem, 0x500, 8);
    put32(mem, 0x504, 0x300);
    put32(mem, 0x508, channel);
    put32(mem, 0x50C, ready);
    state.ar(mem, 1, 0x500)
}

/// Scenario: a prompt defers, `ar` sleeps, and the captured line lands in
/// the guest buffer with its size and ready identifier recorded.
#[test]
fn prompt_deferred() {
    let mut state = State::new(PromptSystem::new(b"hi"));
    let mut mem = vec![0u8; 0x1000];
    let channel = connect_prompt(&mut state, &mut mem);
    put32(&mut mem, 0x600, 16); // capacity 16
    let r = prompt_once(&mut state, &mut mem, channel, 0x77);
    assert_eq!(r, Ok(1));
    assert_eq!(get32(&mem, 0x610), 2); // size slot overwritten with 2
    assert_eq!(&mem[0x700..0x702], b"hi");
    assert_eq!(get32(&mem, 0x140), 0x77); // ready list slot 0
}

/// Scenario: the capacity is too small, so the embedder reports the
/// required size, leaves the buffer untouched, and a retry with enough
/// capacity succeeds.
#[test]
fn prompt_capacity_too_small() {
    let mut state = State::new(PromptSystem::new(b"hello"));
    let mut mem = vec![0u8; 0x1000];
    let channel = connect_prompt(&mut state, &mut mem);
    put32(&mut mem, 0x600, 1); // capacity 1: too small for "hello"
    let r = prompt_once(&mut state, &mut mem, channel, 0x42);
    assert_eq!(r, Ok(1));
    assert_eq!(get32(&mem, 0x600), 5); // required size written back
    assert_eq!(&mem[0x700..0x705], &[0u8; 5]); // buffer untouched
    assert_eq!(get32(&mem, 0x140), 0x42); // still completed
    // The guest resizes and retries.
    put32(&mut mem, 0x600, 16);
    let r = prompt_once(&mut state, &mut mem, channel, 0x43);
    assert_eq!(r, Ok(1));
    assert_eq!(get32(&mem, 0x610), 5);
    assert_eq!(&mem[0x700..0x705], b"hello");
    assert_eq!(get32(&mem, 0x140), 0x43);
}
