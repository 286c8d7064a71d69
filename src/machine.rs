use vstd::prelude::*;

verus! {

/// Number of addressable memory cells (0x000 to 0xFFF).
pub const MEMORY_SIZE: usize = 4096;

/// Address at which programs are loaded and execution starts.
pub const PROGRAM_START_ADDRESS: usize = 0x200;

/// Address at which the built-in font is stored.
pub const FONT_START_ADDRESS: usize = 0x050;

/// Index of the register that arithmetic and drawing use as a flag.
pub const REGISTER_INDEX_FLAG: usize = 0xF;

/// Number of general-purpose registers.
pub const REGISTER_COUNT: usize = 16;

pub const SCREEN_WIDTH: u8 = 64;

pub const SCREEN_HEIGHT: u8 = 32;

/// Bytes of the packed one-bit-per-pixel framebuffer (64 x 32 / 8).
pub const VIDEO_MEMORY_SIZE: usize = 64 * 32 / 8;

pub const PIXEL_ON: u8 = 0x01;

pub const PIXEL_OFF: u8 = 0x00;

/// Largest program that fits between the program start and the end of memory.
pub const MAX_PROGRAM_SIZE: usize = MEMORY_SIZE - PROGRAM_START_ADDRESS;

/// Sentinel returned by the key query when no key is held.
pub const NO_KEY: u8 = 0xFF;

/// The sixteen hexadecimal digit glyphs, five bytes each.
pub open spec fn font_spec() -> Seq<u8> {
    seq![
        0xF0u8, 0x90, 0x90, 0x90, 0xF0,
        0x20, 0x60, 0x20, 0x20, 0x70,
        0xF0, 0x10, 0xF0, 0x80, 0xF0,
        0xF0, 0x10, 0xF0, 0x10, 0xF0,
        0x90, 0x90, 0xF0, 0x10, 0x10,
        0xF0, 0x80, 0xF0, 0x10, 0xF0,
        0xF0, 0x80, 0xF0, 0x90, 0xF0,
        0xF0, 0x10, 0x20, 0x40, 0x40,
        0xF0, 0x90, 0xF0, 0x90, 0xF0,
        0xF0, 0x90, 0xF0, 0x10, 0xF0,
        0xF0, 0x90, 0xF0, 0x90, 0x90,
        0xE0, 0x90, 0xE0, 0x90, 0xE0,
        0xF0, 0x80, 0x80, 0x80, 0xF0,
        0xE0, 0x90, 0x90, 0x90, 0xE0,
        0xF0, 0x80, 0xF0, 0x80, 0xF0,
        0xF0, 0x80, 0xF0, 0x80, 0x80,
    ]
}

fn font() -> (r: Vec<u8>)
    ensures
        r@ == font_spec(),
{
    let r: Vec<u8> = vec![
        0xF0u8, 0x90, 0x90, 0x90, 0xF0,
        0x20, 0x60, 0x20, 0x20, 0x70,
        0xF0, 0x10, 0xF0, 0x80, 0xF0,
        0xF0, 0x10, 0xF0, 0x10, 0xF0,
        0x90, 0x90, 0xF0, 0x10, 0x10,
        0xF0, 0x80, 0xF0, 0x10, 0xF0,
        0xF0, 0x80, 0xF0, 0x90, 0xF0,
        0xF0, 0x10, 0x20, 0x40, 0x40,
        0xF0, 0x90, 0xF0, 0x90, 0xF0,
        0xF0, 0x90, 0xF0, 0x10, 0xF0,
        0xF0, 0x90, 0xF0, 0x90, 0x90,
        0xE0, 0x90, 0xE0, 0x90, 0xE0,
        0xF0, 0x80, 0x80, 0x80, 0xF0,
        0xE0, 0x90, 0x90, 0x90, 0xE0,
        0xF0, 0x80, 0xF0, 0x80, 0xF0,
        0xF0, 0x80, 0xF0, 0x80, 0x80,
    ];
    assert(r@ =~= font_spec());
    r
}

/// The whole machine: memory, registers, call stack, timer and framebuffer.
pub struct Chip8 {
    pub memory: Vec<u8>,
    pub pc: usize,
    pub i: usize,
    pub stack: Vec<usize>,
    pub timer: u8,
    pub v: Vec<u8>,
    pub video_memory: Vec<u8>,
}

/// Mathematical view of a [`Chip8`].
pub struct MachineState {
    pub memory: Seq<u8>,
    pub pc: usize,
    pub i: usize,
    pub stack: Seq<usize>,
    pub timer: u8,
    pub v: Seq<u8>,
    pub screen: Seq<u8>,
}

impl MachineState {
    /// Sizes are fixed and both address registers lie inside memory.
    pub open spec fn wf(self) -> bool {
        &&& self.memory.len() == MEMORY_SIZE
        &&& self.v.len() == REGISTER_COUNT
        &&& self.screen.len() == VIDEO_MEMORY_SIZE
        &&& self.pc < MEMORY_SIZE
        &&& self.i < MEMORY_SIZE
    }
}

impl View for Chip8 {
    type V = MachineState;

    open spec fn view(&self) -> MachineState {
        MachineState {
            memory: self.memory@,
            pc: self.pc,
            i: self.i,
            stack: self.stack@,
            timer: self.timer,
            v: self.v@,
            screen: self.video_memory@,
        }
    }
}

/// The big-endian instruction word at `address`; the low byte is read at the
/// next address, wrapping at the end of memory.
pub open spec fn instruction_at(memory: Seq<u8>, address: int) -> u16 {
    ((memory[address] as int) * 256 + (memory[(address + 1) % (MEMORY_SIZE as int)] as int)) as u16
}

/// Why a program could not be loaded.
#[derive(Debug, Clone, Copy, PartialEq, Eq, Structural)]
pub enum LoadError {
    /// The program is larger than the memory above the program start.
    TooLarge,
}

/// What the machine hands to a display and input peripheral after a draw.
pub struct PeripheralState {
    pub sound: bool,
    pub keys: u16,
    pub screen: Vec<u8>,
    pub screen_width: u8,
    pub screen_height: u8,
}

impl Chip8 {
    pub open spec fn wf(&self) -> bool {
        self@.wf()
    }

    /// A fresh machine: zeroed memory holding the font at its address,
    /// zeroed registers, timer and screen, an empty stack, and the program
    /// counter at the program start.
    pub fn new() -> (r: Chip8)
        ensures
            r.wf(),
            r@.pc == PROGRAM_START_ADDRESS,
            r@.i == 0,
            r@.timer == 0,
            r@.stack.len() == 0,
            forall|k: int| 0 <= k < REGISTER_COUNT ==> #[trigger] r@.v[k] == 0,
            forall|k: int| 0 <= k < VIDEO_MEMORY_SIZE ==> #[trigger] r@.screen[k] == 0,
            forall|a: int|
                0 <= a < MEMORY_SIZE ==> #[trigger] r@.memory[a] == if FONT_START_ADDRESS <= a
                    < FONT_START_ADDRESS + 80 {
                    font_spec()[a - FONT_START_ADDRESS]
                } else {
                    0u8
                },
    {
        let mut memory: Vec<u8> = Vec::new();
        let glyphs = font();
        let mut a: usize = 0;
        while a < MEMORY_SIZE
            invariant
                a <= MEMORY_SIZE,
                glyphs@ == font_spec(),
                memory@.len() == a,
                forall|b: int|
                    0 <= b < a ==> #[trigger] memory@[b] == if FONT_START_ADDRESS <= b
                        < FONT_START_ADDRESS + 80 {
                        font_spec()[b - FONT_START_ADDRESS]
                    } else {
                        0u8
                    },
            decreases MEMORY_SIZE - a,
        {
            if FONT_START_ADDRESS <= a && a < FONT_START_ADDRESS + 80 {
                memory.push(glyphs[a - FONT_START_ADDRESS]);
            } else {
                memory.push(0);
            }
            a = a + 1;
        }
        let v = zeroes(REGISTER_COUNT);
        let video_memory = zeroes(VIDEO_MEMORY_SIZE);
        Chip8 { memory, pc: PROGRAM_START_ADDRESS, i: 0, stack: Vec::new(), timer: 0, v, video_memory }
    }

    /// Copies `program` into memory from the program start; a program larger
    /// than the space above the program start is rejected and nothing changes.
    pub fn load_rom(&mut self, program: &[u8]) -> (r: Result<(), LoadError>)
        requires
            old(self).wf(),
        ensures
            final(self).wf(),
            r is Err <==> program@.len() > MAX_PROGRAM_SIZE,
            r is Err ==> *final(self) == *old(self),
            r is Ok ==> final(self)@ == (MachineState {
                memory: old(self)@.memory.subrange(0, PROGRAM_START_ADDRESS as int) + program@
                    + old(self)@.memory.subrange(
                    PROGRAM_START_ADDRESS + program@.len(),
                    MEMORY_SIZE as int,
                ),
                ..old(self)@
            }),
    {
        if program.len() > MAX_PROGRAM_SIZE {
            return Err(LoadError::TooLarge);
        }
        let ghost before = self.memory@;
        let mut k: usize = 0;
        while k < program.len()
            invariant
                program@.len() <= MAX_PROGRAM_SIZE,
                k <= program@.len(),
                self.memory@.len() == MEMORY_SIZE,
                self.pc == old(self).pc,
                self.i == old(self).i,
                self.stack@ == old(self).stack@,
                self.timer == old(self).timer,
                self.v@ == old(self).v@,
                self.video_memory@ == old(self).video_memory@,
                before == old(self).memory@,
                old(self).wf(),
                forall|a: int|
                    0 <= a < MEMORY_SIZE ==> #[trigger] self.memory@[a] == if PROGRAM_START_ADDRESS
                        <= a < PROGRAM_START_ADDRESS + k {
                        program@[a - PROGRAM_START_ADDRESS]
                    } else {
                        before[a]
                    },
            decreases program@.len() - k,
        {
            self.memory.set(PROGRAM_START_ADDRESS + k, program[k]);
            k = k + 1;
        }
        assert(self.memory@ =~= before.subrange(0, PROGRAM_START_ADDRESS as int) + program@
            + before.subrange(PROGRAM_START_ADDRESS + program@.len(), MEMORY_SIZE as int));
        Ok(())
    }

    /// The instruction word at `address`: the byte there is the high byte
    /// and the byte after it (wrapping at the end of memory) the low byte.
    pub fn read_instruction(memory: &Vec<u8>, address: usize) -> (r: u16)
        requires
            memory@.len() == MEMORY_SIZE,
            address < MEMORY_SIZE,
        ensures
            r == instruction_at(memory@, address as int),
    {
        let high = memory[address] as u16;
        let low = memory[(address + 1) % MEMORY_SIZE] as u16;
        high * 256 + low
    }

    /// Whether the key with code `key_code` is held; no input source is
    /// attached, so no key is ever held.
    pub fn is_key_pressed(&self, key_code: u8) -> (r: bool)
        ensures
            r == key_held(key_code),
    {
        false
    }

    /// The code of the key being held, or `NO_KEY`; no input source is
    /// attached, so it is always `NO_KEY`.
    pub fn get_pressed_key(&self) -> (r: u8)
        ensures
            r == held_key(),
    {
        NO_KEY
    }

    /// The message for the display peripheral: no sound, no keys, a copy of
    /// the framebuffer and the screen's dimensions.
    pub fn peripheral_state(&self) -> (r: PeripheralState)
        ensures
            r.sound == false,
            r.keys == 0,
            r.screen@ == self.video_memory@,
            r.screen_width == SCREEN_WIDTH,
            r.screen_height == SCREEN_HEIGHT,
    {
        PeripheralState {
            sound: false,
            keys: 0,
            screen: self.video_memory.clone(),
            screen_width: SCREEN_WIDTH,
            screen_height: SCREEN_HEIGHT,
        }
    }
}

/// Whether a key is held: no input source is attached.
pub open spec fn key_held(key_code: u8) -> bool {
    false
}

/// The key that is held: always the no-key sentinel.
pub open spec fn held_key() -> u8 {
    NO_KEY
}

fn zeroes(n: usize) -> (r: Vec<u8>)
    ensures
        r@.len() == n,
        forall|k: int| 0 <= k < n ==> #[trigger] r@[k] == 0,
{
    let mut r: Vec<u8> = Vec::new();
    let mut k: usize = 0;
    while k < n
        invariant
            k <= n,
            r@.len() == k,
            forall|j: int| 0 <= j < k ==> #[trigger] r@[j] == 0,
        decreases n - k,
    {
        r.push(0);
        k = k + 1;
    }
    r
}

} // verus!
