//! The fetch-decode-execute engine and its machine state: sixteen 8-bit
//! registers, a 16-bit index register and program counter, 4096 bytes of
//! memory preloaded with the hexadecimal font, a sixteen-slot call stack,
//! two countdown timers, and a 64x32 monochrome framebuffer. One `cycle`
//! advances the machine by exactly one instruction and reports what
//! happened; a decode failure or an out-of-range access aborts the cycle
//! and leaves the state untouched.

use vstd::prelude::*;

verus! {

/// What one engine cycle reports: the opcode that ran, or an audio beep
/// while the sound timer counts down.
#[derive(Debug, Clone, Copy, PartialEq, Eq, Structural)]
pub enum InterpreterEvent {
    Audio,
    Opcode(u16),
}

/// Why a cycle was aborted. An aborted cycle leaves the machine exactly
/// as it was.
#[derive(Debug, Clone, Copy, PartialEq, Eq, Structural)]
pub enum CycleError {
    /// The program counter does not leave room for a two-byte fetch.
    PcOutOfBounds,
    /// The fetched opcode matches no recognized instruction.
    InvalidOpcode(u16),
    /// A call was made with all sixteen stack slots in use.
    StackOverflow,
    /// A return was made with no call outstanding.
    StackUnderflow,
    /// A memory-indexed instruction reaches past the end of memory.
    MemoryOutOfBounds,
    /// Adding to the index register would not fit in sixteen bits.
    IndexOverflow,
}

/// The mathematical value of the whole machine state.
#[verifier::ext_equal]
pub ghost struct MState {
    pub pc: u16,
    pub index: u16,
    pub sp: u8,
    pub delay_timer: u8,
    pub sound_timer: u8,
    pub v: Seq<u8>,
    pub stack: Seq<u16>,
    pub memory: Seq<u8>,
    pub screen: Seq<u8>,
}

impl MState {
    /// Well-formedness: the sizes are fixed, the stack pointer stays in
    /// range, every stacked return address leaves room for a fetch, and
    /// every framebuffer cell is zero or one.
    pub open spec fn wf(self) -> bool {
        &&& self.v.len() == 16
        &&& self.stack.len() == 16
        &&& self.memory.len() == 4096
        &&& self.screen.len() == 2048
        &&& self.sp <= 16
        &&& (forall|i: int| 0 <= i < self.sp ==> #[trigger] self.stack[i] <= 4094)
        &&& (forall|c: int| 0 <= c < 2048 ==> #[trigger] self.screen[c] <= 1)
    }
}

/// The fixed font table: sixteen glyphs of five bytes each, one for every
/// hexadecimal digit, stored at the bottom of memory.
pub open spec fn spec_font() -> Seq<u8> {
    seq![
        0xF0u8, 0x90, 0x90, 0x90, 0xF0,
        0x20, 0x60, 0x20, 0x20, 0x70,
        0xF0, 0x10, 0xF0, 0x80, 0xF0,
        0xF0, 0x10, 0xF0, 0x10, 0xF0,
        0x90, 0x90, 0xF0, 0x10, 0x10,
        0xF0, 0x80, 0xF0, 0x10, 0xF0,
        0xF0, 0x80, 0xF0, 0x90, 0xF0,
        0xF0, 0x10, 0x20, 0x40, 0x40,
        0xF0, 0x90, 0xF0, 0x90, 0xF0,
        0xF0, 0x90, 0xF0, 0x10, 0xF0,
        0xF0, 0x90, 0xF0, 0x90, 0x90,
        0xE0, 0x90, 0xE0, 0x90, 0xE0,
        0xF0, 0x80, 0x80, 0x80, 0xF0,
        0xE0, 0x90, 0x90, 0x90, 0xE0,
        0xF0, 0x80, 0xF0, 0x80, 0xF0,
        0xF0, 0x80, 0xF0, 0x80, 0x80,
    ]
}

/// The machine state of a freshly reset interpreter: everything zero but
/// for the program counter and index register at `0x200` and the font at
/// the bottom of memory.
pub open spec fn spec_initial() -> MState {
    MState {
        pc: 0x200,
        index: 0x200,
        sp: 0,
        delay_timer: 0,
        sound_timer: 0,
        v: Seq::new(16, |i: int| 0u8),
        stack: Seq::new(16, |i: int| 0u16),
        memory: Seq::new(4096, |a: int| if 0 <= a < 80 { spec_font()[a] } else { 0u8 }),
        screen: Seq::new(2048, |c: int| 0u8),
    }
}

/// A freshly reset machine with `p` copied in at `0x200`.
pub open spec fn spec_loaded(p: Seq<u8>) -> MState {
    MState {
        pc: 0x200,
        index: 0x200,
        sp: 0,
        delay_timer: 0,
        sound_timer: 0,
        v: Seq::new(16, |i: int| 0u8),
        stack: Seq::new(16, |i: int| 0u16),
        memory: Seq::new(
            4096,
            |a: int|
                if 0x200 <= a < 0x200 + p.len() {
                    p[a - 0x200]
                } else if 0 <= a < 80 {
                    spec_font()[a]
                } else {
                    0u8
                },
        ),
        screen: Seq::new(2048, |c: int| 0u8),
    }
}

/// The machine: all mutable simulation data, exclusively owned by its
/// caller.
#[derive(Debug)]
pub struct Interpreter {
    pc: u16,
    index: u16,
    sp: u8,
    delay_timer: u8,
    sound_timer: u8,
    v: Vec<u8>,
    stack: Vec<u16>,
    memory: Vec<u8>,
    screen_buffer: Vec<u8>,
}

impl View for Interpreter {
    type V = MState;

    closed spec fn view(&self) -> MState {
        MState {
            pc: self.pc,
            index: self.index,
            sp: self.sp,
            delay_timer: self.delay_timer,
            sound_timer: self.sound_timer,
            v: self.v@,
            stack: self.stack@,
            memory: self.memory@,
            screen: self.screen_buffer@,
        }
    }
}

fn zero_bytes(n: usize) -> (r: Vec<u8>)
    ensures
        r@ == Seq::new(n as nat, |i: int| 0u8),
{
    let mut r: Vec<u8> = Vec::new();
    let mut i: usize = 0;
    while i < n
        invariant
            i <= n,
            r@ == Seq::new(i as nat, |k: int| 0u8),
        decreases n - i,
    {
        r.push(0);
        proof {
            assert(r@ =~= Seq::new((i + 1) as nat, |k: int| 0u8));
        }
        i = i + 1;
    }
    r
}

fn zero_words(n: usize) -> (r: Vec<u16>)
    ensures
        r@ == Seq::new(n as nat, |i: int| 0u16),
{
    let mut r: Vec<u16> = Vec::new();
    let mut i: usize = 0;
    while i < n
        invariant
            i <= n,
            r@ == Seq::new(i as nat, |k: int| 0u16),
        decreases n - i,
    {
        r.push(0);
        proof {
            assert(r@ =~= Seq::new((i + 1) as nat, |k: int| 0u16));
        }
        i = i + 1;
    }
    r
}

/// The font table as bytes, in glyph order.
fn font_data() -> (r: Vec<u8>)
    ensures
        r@ == spec_font(),
{
    let mut f: Vec<u8> = Vec::new();
    f.push(0xF0);
    f.push(0x90);
    f.push(0x90);
    f.push(0x90);
    f.push(0xF0);
    f.push(0x20);
    f.push(0x60);
    f.push(0x20);
    f.push(0x20);
    f.push(0x70);
    f.push(0xF0);
    f.push(0x10);
    f.push(0xF0);
    f.push(0x80);
    f.push(0xF0);
    f.push(0xF0);
    f.push(0x10);
    f.push(0xF0);
    f.push(0x10);
    f.push(0xF0);
    f.push(0x90);
    f.push(0x90);
    f.push(0xF0);
    f.push(0x10);
    f.push(0x10);
    f.push(0xF0);
    f.push(0x80);
    f.push(0xF0);
    f.push(0x10);
    f.push(0xF0);
    f.push(0xF0);
    f.push(0x80);
    f.push(0xF0);
    f.push(0x90);
    f.push(0xF0);
    f.push(0xF0);
    f.push(0x10);
    f.push(0x20);
    f.push(0x40);
    f.push(0x40);
    f.push(0xF0);
    f.push(0x90);
    f.push(0xF0);
    f.push(0x90);
    f.push(0xF0);
    f.push(0xF0);
    f.push(0x90);
    f.push(0xF0);
    f.push(0x10);
    f.push(0xF0);
    f.push(0xF0);
    f.push(0x90);
    f.push(0xF0);
    f.push(0x90);
    f.push(0x90);
    f.push(0xE0);
    f.push(0x90);
    f.push(0xE0);
    f.push(0x90);
    f.push(0xE0);
    f.push(0xF0);
    f.push(0x80);
    f.push(0x80);
    f.push(0x80);
    f.push(0xF0);
    f.push(0xE0);
    f.push(0x90);
    f.push(0x90);
    f.push(0x90);
    f.push(0xE0);
    f.push(0xF0);
    f.push(0x80);
    f.push(0xF0);
    f.push(0x80);
    f.push(0xF0);
    f.push(0xF0);
    f.push(0x80);
    f.push(0xF0);
    f.push(0x80);
    f.push(0x80);
    proof {
        assert(f@ =~= spec_font());
    }
    f
}

impl Default for Interpreter {
    /// A fresh machine: everything reset and the font in place.
    fn default() -> (r: Self)
        ensures
            r@ == spec_initial(),
            r@.wf(),
    {
        let mut memory = zero_bytes(4096);
        let font = font_data();
        let mut i: usize = 0;
        while i < 80
            invariant
                i <= 80,
                font@ == spec_font(),
                memory@.len() == 4096,
                forall|a: int| 0 <= a < i ==> memory@[a] == spec_font()[a],
                forall|a: int| i <= a < 4096 ==> memory@[a] == 0,
            decreases 80 - i,
        {
            memory.set(i, font[i]);
            i = i + 1;
        }
        let r = Interpreter {
            pc: 0x200,
            index: 0x200,
            sp: 0,
            delay_timer: 0,
            sound_timer: 0,
            v: zero_bytes(16),
            stack: zero_words(16),
            memory,
            screen_buffer: zero_bytes(2048),
        };
        proof {
            assert(r@ =~= spec_initial());
        }
        r
    }
}

impl Interpreter {
    /// (Re)initializes the whole machine, then copies `program` into
    /// memory starting at `0x200`. Everything the previous program did is
    /// discarded: registers, stack pointer, timers and framebuffer are
    /// zero afterwards.
    pub fn load(&mut self, program: &[u8])
        requires
            program@.len() <= 4096 - 0x200,
        ensures
            final(self)@ == spec_loaded(program@),
            final(self)@.wf(),
    {
        *self = Interpreter::default();
        let mut k: usize = 0;
        while k < program.len()
            invariant
                program@.len() <= 4096 - 0x200,
                k <= program@.len(),
                self@.memory.len() == 4096,
                self@.pc == 0x200,
                self@.index == 0x200,
                self@.sp == 0,
                self@.delay_timer == 0,
                self@.sound_timer == 0,
                self@.v == spec_initial().v,
                self@.stack == spec_initial().stack,
                self@.screen == spec_initial().screen,
                forall|a: int|
                    0x200 <= a < 0x200 + k ==> #[trigger] self@.memory[a] == program@[a - 0x200],
                forall|a: int|
                    0 <= a < 4096 && !(0x200 <= a < 0x200 + k) ==> #[trigger] self@.memory[a]
                        == spec_initial().memory[a],
            decreases program@.len() - k,
        {
            self.memory.set(0x200 + k, program[k]);
            k = k + 1;
        }
        proof {
            assert(self@ =~= spec_loaded(program@));
        }
    }

    pub fn pc(&self) -> (r: u16)
        ensures
            r == self@.pc,
    {
        self.pc
    }

    pub fn index(&self) -> (r: u16)
        ensures
            r == self@.index,
    {
        self.index
    }

    pub fn sp(&self) -> (r: u8)
        ensures
            r == self@.sp,
    {
        self.sp
    }

    pub fn delay_timer(&self) -> (r: u8)
        ensures
            r == self@.delay_timer,
    {
        self.delay_timer
    }

    pub fn sound_timer(&self) -> (r: u8)
        ensures
            r == self@.sound_timer,
    {
        self.sound_timer
    }

    pub fn v(&self, i: usize) -> (r: u8)
        requires
            self@.wf(),
            i < 16,
        ensures
            r == self@.v[i as int],
    {
        self.v[i]
    }

    pub fn stack_at(&self, i: usize) -> (r: u16)
        requires
            self@.wf(),
            i < 16,
        ensures
            r == self@.stack[i as int],
    {
        self.stack[i]
    }

    pub fn mem(&self, addr: usize) -> (r: u8)
        requires
            self@.wf(),
            addr < 4096,
        ensures
            r == self@.memory[addr as int],
    {
        self.memory[addr]
    }

    pub fn screen_at(&self, cell: usize) -> (r: u8)
        requires
            self@.wf(),
            cell < 2048,
        ensures
            r == self@.screen[cell as int],
    {
        self.screen_buffer[cell]
    }

    /// Writes one general-purpose register.
    pub fn set_v(&mut self, i: usize, value: u8)
        requires
            old(self)@.wf(),
            i < 16,
        ensures
            final(self)@ == (MState { v: old(self)@.v.update(i as int, value), ..old(self)@ }),
            final(self)@.wf(),
    {
        self.v.set(i, value);
    }

    /// Writes the index register.
    pub fn set_index(&mut self, value: u16)
        requires
            old(self)@.wf(),
        ensures
            final(self)@ == (MState { index: value, ..old(self)@ }),
            final(self)@.wf(),
    {
        self.index = value;
    }
}

} // verus!

verus! {

/// One decoded instruction: the raw nibble fields of a recognized opcode.
#[derive(Debug, Clone, Copy, PartialEq, Eq, Structural)]
pub enum Op {
    Cls,
    Ret,
    Jmp(u16),
    Call(u16),
    SeVal(u8, u8),
    SneVal(u8, u8),
    SeReg(u8, u8),
    MovVal(u8, u8),
    AddVal(u8, u8),
    MovReg(u8, u8),
    Or(u8, u8),
    And(u8, u8),
    Xor(u8, u8),
    AddReg(u8, u8),
    SubReg(u8, u8),
    Shr(u8),
    SubnReg(u8, u8),
    Shl(u8),
    SneReg(u8, u8),
    LdIndex(u16),
    JmpV0(u16),
    Rand(u8, u8),
    Draw(u8, u8, u8),
    SkipKey(u8),
    SkipNoKey(u8),
    GetDelay(u8),
    WaitKey(u8),
    SetDelay(u8),
    SetSound(u8),
    AddIndex(u8),
    SpriteAddr(u8),
    StoreBcd(u8),
    RegDump(u8),
    RegLoad(u8),
}

/// The `x` register field: the second nibble.
pub open spec fn op_x(op: u16) -> u8 {
    ((op >> 8) & 0xF) as u8
}

/// The `y` register field: the third nibble.
pub open spec fn op_y(op: u16) -> u8 {
    ((op >> 4) & 0xF) as u8
}

/// The low nibble.
pub open spec fn op_n(op: u16) -> u8 {
    (op & 0xF) as u8
}

/// The low byte.
pub open spec fn op_nn(op: u16) -> u8 {
    (op & 0xFF) as u8
}

/// The 12-bit address tail.
pub open spec fn op_nnn(op: u16) -> u16 {
    op & 0xFFF
}

pub proof fn lemma_nibbles(op: u16)
    ensures
        op_x(op) < 16,
        op_y(op) < 16,
        op_n(op) < 16,
        op_nn(op) < 256,
        op_nnn(op) < 4096,
        ((op >> 8) & 0xF) < 16,
        ((op >> 4) & 0xF) < 16,
        (op & 0xF) < 16,
        (op & 0xFF) < 256,
        (op & 0xFFF) < 4096,
{
    assert(((op >> 8) & 0xF) < 16 && ((op >> 4) & 0xF) < 16 && (op & 0xF) < 16 && (op & 0xFF)
        < 256 && (op & 0xFFF) < 4096) by (bit_vector);
}

/// Classifies an opcode by the same nibble layout the encoder uses:
/// operation class in the high nibble, disambiguated by the low nibble or
/// low byte for some classes. An opcode matching nothing decodes to
/// `None`, a fatal failure.
pub open spec fn spec_decode(op: u16) -> Option<Op> {
    if op == 0x00E0 {
        Some(Op::Cls)
    } else if op == 0x00EE {
        Some(Op::Ret)
    } else {
        let class = op >> 12;
        if class == 0x1 {
            Some(Op::Jmp(op_nnn(op)))
        } else if class == 0x2 {
            Some(Op::Call(op_nnn(op)))
        } else if class == 0x3 {
            Some(Op::SeVal(op_x(op), op_nn(op)))
        } else if class == 0x4 {
            Some(Op::SneVal(op_x(op), op_nn(op)))
        } else if class == 0x5 {
            if op_n(op) == 0 {
                Some(Op::SeReg(op_x(op), op_y(op)))
            } else {
                None
            }
        } else if class == 0x6 {
            Some(Op::MovVal(op_x(op), op_nn(op)))
        } else if class == 0x7 {
            Some(Op::AddVal(op_x(op), op_nn(op)))
        } else if class == 0x8 {
            if op_n(op) == 0x0 {
                Some(Op::MovReg(op_x(op), op_y(op)))
            } else if op_n(op) == 0x1 {
                Some(Op::Or(op_x(op), op_y(op)))
            } else if op_n(op) == 0x2 {
                Some(Op::And(op_x(op), op_y(op)))
            } else if op_n(op) == 0x3 {
                Some(Op::Xor(op_x(op), op_y(op)))
            } else if op_n(op) == 0x4 {
                Some(Op::AddReg(op_x(op), op_y(op)))
            } else if op_n(op) == 0x5 {
                Some(Op::SubReg(op_x(op), op_y(op)))
            } else if op_n(op) == 0x6 {
                Some(Op::Shr(op_x(op)))
            } else if op_n(op) == 0x7 {
                Some(Op::SubnReg(op_x(op), op_y(op)))
            } else if op_n(op) == 0xE {
                Some(Op::Shl(op_x(op)))
            } else {
                None
            }
        } else if class == 0x9 {
            if op_n(op) == 0 {
                Some(Op::SneReg(op_x(op), op_y(op)))
            } else {
                None
            }
        } else if class == 0xA {
            Some(Op::LdIndex(op_nnn(op)))
        } else if class == 0xB {
            Some(Op::JmpV0(op_nnn(op)))
        } else if class == 0xC {
            Some(Op::Rand(op_x(op), op_nn(op)))
        } else if class == 0xD {
            Some(Op::Draw(op_x(op), op_y(op), op_n(op)))
        } else if class == 0xE {
            if op_nn(op) == 0x9E {
                Some(Op::SkipKey(op_x(op)))
            } else if op_nn(op) == 0xA1 {
                Some(Op::SkipNoKey(op_x(op)))
            } else {
                None
            }
        } else if class == 0xF {
            if op_nn(op) == 0x07 {
                Some(Op::GetDelay(op_x(op)))
            } else if op_nn(op) == 0x0A {
                Some(Op::WaitKey(op_x(op)))
            } else if op_nn(op) == 0x15 {
                Some(Op::SetDelay(op_x(op)))
            } else if op_nn(op) == 0x18 {
                Some(Op::SetSound(op_x(op)))
            } else if op_nn(op) == 0x1E {
                Some(Op::AddIndex(op_x(op)))
            } else if op_nn(op) == 0x29 {
                Some(Op::SpriteAddr(op_x(op)))
            } else if op_nn(op) == 0x33 {
                Some(Op::StoreBcd(op_x(op)))
            } else if op_nn(op) == 0x55 {
                Some(Op::RegDump(op_x(op)))
            } else if op_nn(op) == 0x65 {
                Some(Op::RegLoad(op_x(op)))
            } else {
                None
            }
        } else {
            None
        }
    }
}

/// Decodes one opcode.
pub fn decode(op: u16) -> (r: Option<Op>)
    ensures
        r == spec_decode(op),
{
    if op == 0x00E0 {
        Some(Op::Cls)
    } else if op == 0x00EE {
        Some(Op::Ret)
    } else {
        let class = op >> 12;
        let x = ((op >> 8) & 0xF) as u8;
        let y = ((op >> 4) & 0xF) as u8;
        let n = (op & 0xF) as u8;
        let nn = (op & 0xFF) as u8;
        let nnn = op & 0xFFF;
        if class == 0x1 {
            Some(Op::Jmp(nnn))
        } else if class == 0x2 {
            Some(Op::Call(nnn))
        } else if class == 0x3 {
            Some(Op::SeVal(x, nn))
        } else if class == 0x4 {
            Some(Op::SneVal(x, nn))
        } else if class == 0x5 {
            if n == 0 {
                Some(Op::SeReg(x, y))
            } else {
                None
            }
        } else if class == 0x6 {
            Some(Op::MovVal(x, nn))
        } else if class == 0x7 {
            Some(Op::AddVal(x, nn))
        } else if class == 0x8 {
            if n == 0x0 {
                Some(Op::MovReg(x, y))
            } else if n == 0x1 {
                Some(Op::Or(x, y))
            } else if n == 0x2 {
                Some(Op::And(x, y))
            } else if n == 0x3 {
                Some(Op::Xor(x, y))
            } else if n == 0x4 {
                Some(Op::AddReg(x, y))
            } else if n == 0x5 {
                Some(Op::SubReg(x, y))
            } else if n == 0x6 {
                Some(Op::Shr(x))
            } else if n == 0x7 {
                Some(Op::SubnReg(x, y))
            } else if n == 0xE {
                Some(Op::Shl(x))
            } else {
                None
            }
        } else if class == 0x9 {
            if n == 0 {
                Some(Op::SneReg(x, y))
            } else {
                None
            }
        } else if class == 0xA {
            Some(Op::LdIndex(nnn))
        } else if class == 0xB {
            Some(Op::JmpV0(nnn))
        } else if class == 0xC {
            Some(Op::Rand(x, nn))
        } else if class == 0xD {
            Some(Op::Draw(x, y, n))
        } else if class == 0xE {
            if nn == 0x9E {
                Some(Op::SkipKey(x))
            } else if nn == 0xA1 {
                Some(Op::SkipNoKey(x))
            } else {
                None
            }
        } else if class == 0xF {
            if nn == 0x07 {
                Some(Op::GetDelay(x))
            } else if nn == 0x0A {
                Some(Op::WaitKey(x))
            } else if nn == 0x15 {
                Some(Op::SetDelay(x))
            } else if nn == 0x18 {
                Some(Op::SetSound(x))
            } else if nn == 0x1E {
                Some(Op::AddIndex(x))
            } else if nn == 0x29 {
                Some(Op::SpriteAddr(x))
            } else if nn == 0x33 {
                Some(Op::StoreBcd(x))
            } else if nn == 0x55 {
                Some(Op::RegDump(x))
            } else if nn == 0x65 {
                Some(Op::RegLoad(x))
            } else {
                None
            }
        } else {
            None
        }
    }
}

/// The two bytes at the program counter, read as one big-endian opcode.
pub open spec fn spec_fetch(m: MState) -> u16 {
    ((m.memory[m.pc as int] as u16) << 8) | (m.memory[m.pc + 1] as u16)
}

/// The framebuffer cell a sprite row and bit land on; coordinates wrap.
pub open spec fn cell_of(vx: int, vy: int, row: int, col: int) -> int {
    ((vy + row) % 32) * 64 + (vx + col) % 64
}

/// Whether bit `col` (most significant first) of sprite row `row` is set.
pub open spec fn sprite_bit(mem: Seq<u8>, base: int, row: int, col: int) -> bool {
    mem[base + row] & (1u8 << ((7 - col) as u8)) != 0
}

/// Whether the sprite pair `(r0, c0)` comes before `(row, col)` in the
/// order the draw walks: row by row, bit by bit.
pub open spec fn pair_before(r0: int, c0: int, row: int, col: int) -> bool {
    r0 < row || (r0 == row && c0 < col)
}

/// Whether some sprite bit processed before `(row, col)` toggles `cell`.
pub open spec fn toggles_upto(
    mem: Seq<u8>,
    base: int,
    vx: int,
    vy: int,
    row: int,
    col: int,
    cell: int,
) -> bool {
    exists|r0: int, c0: int|
        0 <= r0 && 0 <= c0 < 8 && pair_before(r0, c0, row, col) && sprite_bit(mem, base, r0, c0)
            && cell == cell_of(vx, vy, r0, c0)
}

/// Whether some sprite bit processed before `(row, col)` lands on a cell
/// that was already lit in `screen0`.
pub open spec fn collision_upto(
    screen0: Seq<u8>,
    mem: Seq<u8>,
    base: int,
    vx: int,
    vy: int,
    row: int,
    col: int,
) -> bool {
    exists|r0: int, c0: int|
        0 <= r0 && 0 <= c0 < 8 && pair_before(r0, c0, row, col) && sprite_bit(mem, base, r0, c0)
            && screen0[cell_of(vx, vy, r0, c0)] & 1 == 1
}

/// Whether the whole `n`-row sprite toggles `cell`.
pub open spec fn spec_draw_toggles(
    mem: Seq<u8>,
    base: int,
    vx: int,
    vy: int,
    n: int,
    cell: int,
) -> bool {
    toggles_upto(mem, base, vx, vy, n, 0, cell)
}

/// Whether the whole `n`-row sprite lands on any cell already lit.
pub open spec fn spec_draw_collision(
    screen0: Seq<u8>,
    mem: Seq<u8>,
    base: int,
    vx: int,
    vy: int,
    n: int,
) -> bool {
    collision_upto(screen0, mem, base, vx, vy, n, 0)
}

/// The framebuffer after an `n`-row sprite draw: each cell a set sprite
/// bit lands on is toggled; every other cell keeps its value.
pub open spec fn spec_draw_screen(
    screen0: Seq<u8>,
    mem: Seq<u8>,
    base: int,
    vx: int,
    vy: int,
    n: int,
) -> Seq<u8> {
    Seq::new(
        screen0.len(),
        |cell: int|
            if spec_draw_toggles(mem, base, vx, vy, n, cell) {
                screen0[cell] ^ 1
            } else {
                screen0[cell]
            },
    )
}

/// The collision flag of an `n`-row sprite draw.
pub open spec fn spec_draw_flag(
    screen0: Seq<u8>,
    mem: Seq<u8>,
    base: int,
    vx: int,
    vy: int,
    n: int,
) -> u8 {
    if spec_draw_collision(screen0, mem, base, vx, vy, n) {
        1
    } else {
        0
    }
}

/// The state after executing one decoded instruction (without the
/// sound-timer epilogue), or why the cycle must abort. `r` is the byte
/// the random-and-mask instruction draws; no other instruction reads it.
#[verifier::opaque]
pub open spec fn spec_exec_op(pre: MState, o: Op, r: u8) -> Result<MState, CycleError> {
    match o {
        Op::Cls => Ok(
            MState { screen: Seq::new(2048, |c: int| 0u8), pc: (pre.pc + 2) as u16, ..pre },
        ),
        Op::Ret => if pre.sp == 0 {
            Err(CycleError::StackUnderflow)
        } else {
            Ok(
                MState {
                    sp: (pre.sp - 1) as u8,
                    pc: (pre.stack[pre.sp - 1] + 2) as u16,
                    ..pre
                },
            )
        },
        Op::Jmp(nnn) => Ok(MState { pc: nnn, ..pre }),
        Op::Call(nnn) => if pre.sp >= 16 {
            Err(CycleError::StackOverflow)
        } else {
            Ok(
                MState {
                    stack: pre.stack.update(pre.sp as int, pre.pc),
                    sp: (pre.sp + 1) as u8,
                    pc: nnn,
                    ..pre
                },
            )
        },
        Op::SeVal(x, nn) => Ok(
            MState {
                pc: if pre.v[x as int] == nn {
                    (pre.pc + 4) as u16
                } else {
                    (pre.pc + 2) as u16
                },
                ..pre
            },
        ),
        Op::SneVal(x, nn) => Ok(
            MState {
                pc: if pre.v[x as int] != nn {
                    (pre.pc + 4) as u16
                } else {
                    (pre.pc + 2) as u16
                },
                ..pre
            },
        ),
        Op::SeReg(x, y) => Ok(
            MState {
                pc: if pre.v[x as int] == pre.v[y as int] {
                    (pre.pc + 4) as u16
                } else {
                    (pre.pc + 2) as u16
                },
                ..pre
            },
        ),
        Op::SneReg(x, y) => Ok(
            MState {
                pc: if pre.v[x as int] != pre.v[y as int] {
                    (pre.pc + 4) as u16
                } else {
                    (pre.pc + 2) as u16
                },
                ..pre
            },
        ),
        Op::MovVal(x, nn) => Ok(
            MState { v: pre.v.update(x as int, nn), pc: (pre.pc + 2) as u16, ..pre },
        ),
        Op::AddVal(x, nn) => Ok(
            MState {
                v: pre.v.update(x as int, ((pre.v[x as int] + nn) % 256) as u8),
                pc: (pre.pc + 2) as u16,
                ..pre
            },
        ),
        Op::MovReg(x, y) => Ok(
            MState { v: pre.v.update(x as int, pre.v[y as int]), pc: (pre.pc + 2) as u16, ..pre },
        ),
        Op::Or(x, y) => Ok(
            MState {
                v: pre.v.update(x as int, pre.v[x as int] | pre.v[y as int]),
                pc: (pre.pc + 2) as u16,
                ..pre
            },
        ),
        Op::And(x, y) => Ok(
            MState {
                v: pre.v.update(x as int, pre.v[x as int] & pre.v[y as int]),
                pc: (pre.pc + 2) as u16,
                ..pre
            },
        ),
        Op::Xor(x, y) => Ok(
            MState {
                v: pre.v.update(x as int, pre.v[x as int] ^ pre.v[y as int]),
                pc: (pre.pc + 2) as u16,
                ..pre
            },
        ),
        Op::AddReg(x, y) => Ok(
            MState {
                v: pre.v.update(
                    15,
                    if pre.v[x as int] + pre.v[y as int] > 255 {
                        1u8
                    } else {
                        0u8
                    },
                ).update(x as int, ((pre.v[x as int] + pre.v[y as int]) % 256) as u8),
                pc: (pre.pc + 2) as u16,
                ..pre
            },
        ),
        Op::SubReg(x, y) => Ok(
            MState {
                v: pre.v.update(
                    15,
                    if pre.v[x as int] < pre.v[y as int] {
                        1u8
                    } else {
                        0u8
                    },
                ).update(x as int, ((pre.v[x as int] - pre.v[y as int]) % 256) as u8),
                pc: (pre.pc + 2) as u16,
                ..pre
            },
        ),
        Op::SubnReg(x, y) => Ok(
            MState {
                v: pre.v.update(
                    15,
                    if pre.v[y as int] < pre.v[x as int] {
                        1u8
                    } else {
                        0u8
                    },
                ).update(x as int, ((pre.v[y as int] - pre.v[x as int]) % 256) as u8),
                pc: (pre.pc + 2) as u16,
                ..pre
            },
        ),
        Op::Shr(x) => Ok(
            MState {
                v: pre.v.update(15, pre.v[x as int] & 1).update(
                    x as int,
                    pre.v.update(15, pre.v[x as int] & 1)[x as int] >> 1,
                ),
                pc: (pre.pc + 2) as u16,
                ..pre
            },
        ),
        Op::Shl(x) => Ok(
            MState {
                v: pre.v.update(15, (pre.v[x as int] & 0x80) >> 7).update(
                    x as int,
                    pre.v.update(15, (pre.v[x as int] & 0x80) >> 7)[x as int] << 1,
                ),
                pc: (pre.pc + 2) as u16,
                ..pre
            },
        ),
        Op::LdIndex(nnn) => Ok(MState { index: nnn, pc: (pre.pc + 2) as u16, ..pre }),
        Op::JmpV0(nnn) => Ok(MState { pc: (nnn + pre.v[0]) as u16, ..pre }),
        Op::Rand(x, nn) => Ok(
            MState { v: pre.v.update(x as int, nn & r), pc: (pre.pc + 2) as u16, ..pre },
        ),
        Op::Draw(x, y, n) => if n > 0 && pre.index + n > 4096 {
            Err(CycleError::MemoryOutOfBounds)
        } else {
            Ok(
                MState {
                    screen: spec_draw_screen(
                        pre.screen,
                        pre.memory,
                        pre.index as int,
                        pre.v[x as int] as int,
                        pre.v[y as int] as int,
                        n as int,
                    ),
                    v: pre.v.update(
                        15,
                        spec_draw_flag(
                            pre.screen,
                            pre.memory,
                            pre.index as int,
                            pre.v[x as int] as int,
                            pre.v[y as int] as int,
                            n as int,
                        ),
                    ),
                    pc: (pre.pc + 2) as u16,
                    ..pre
                },
            )
        },
        Op::SkipKey(_x) => Ok(MState { pc: (pre.pc + 2) as u16, ..pre }),
        Op::SkipNoKey(_x) => Ok(MState { pc: (pre.pc + 2) as u16, ..pre }),
        Op::GetDelay(x) => Ok(
            MState { v: pre.v.update(x as int, pre.delay_timer), pc: (pre.pc + 2) as u16, ..pre },
        ),
        Op::WaitKey(_x) => Ok(MState { pc: (pre.pc + 2) as u16, ..pre }),
        Op::SetDelay(x) => Ok(
            MState { delay_timer: pre.v[x as int], pc: (pre.pc + 2) as u16, ..pre },
        ),
        Op::SetSound(x) => Ok(
            MState { sound_timer: pre.v[x as int], pc: (pre.pc + 2) as u16, ..pre },
        ),
        Op::AddIndex(x) => if pre.index + pre.v[x as int] > 0xFFFF {
            Err(CycleError::IndexOverflow)
        } else {
            Ok(
                MState {
                    index: (pre.index + pre.v[x as int]) as u16,
                    pc: (pre.pc + 2) as u16,
                    ..pre
                },
            )
        },
        Op::SpriteAddr(x) => Ok(
            MState { index: (pre.v[x as int] * 5) as u16, pc: (pre.pc + 2) as u16, ..pre },
        ),
        Op::StoreBcd(x) => if pre.index + 3 > 4096 {
            Err(CycleError::MemoryOutOfBounds)
        } else {
            Ok(
                MState {
                    memory: pre.memory.update(pre.index as int, pre.v[x as int] / 100).update(
                        pre.index + 1,
                        (pre.v[x as int] / 10) % 10,
                    ).update(pre.index + 2, pre.v[x as int] % 10),
                    pc: (pre.pc + 2) as u16,
                    ..pre
                },
            )
        },
        Op::RegDump(x) => if pre.index + x + 1 > 4096 {
            Err(CycleError::MemoryOutOfBounds)
        } else {
            Ok(
                MState {
                    memory: Seq::new(
                        4096,
                        |a: int|
                            if pre.index <= a <= pre.index + x {
                                pre.v[a - pre.index]
                            } else {
                                pre.memory[a]
                            },
                    ),
                    pc: (pre.pc + 2) as u16,
                    ..pre
                },
            )
        },
        Op::RegLoad(x) => if pre.index + x + 1 > 4096 {
            Err(CycleError::MemoryOutOfBounds)
        } else {
            Ok(
                MState {
                    v: Seq::new(
                        16,
                        |i: int|
                            if 0 <= i <= x {
                                pre.memory[pre.index + i]
                            } else {
                                pre.v[i]
                            },
                    ),
                    pc: (pre.pc + 2) as u16,
                    ..pre
                },
            )
        },
    }
}

/// The sound-timer epilogue: when the sound timer is positive after the
/// instruction ran, it counts down by one and the cycle reports an audio
/// event instead of the opcode.
pub open spec fn spec_epilogue(m: MState, op: u16) -> (MState, InterpreterEvent) {
    if m.sound_timer > 0 {
        (
            MState { sound_timer: (m.sound_timer - 1) as u8, ..m },
            InterpreterEvent::Audio,
        )
    } else {
        (m, InterpreterEvent::Opcode(op))
    }
}

/// Two nonnegative values with equal remainders and less than `m` apart
/// are equal.
proof fn lemma_mod_eq_close(a: int, b: int, m: int)
    requires
        m > 0,
        0 <= a,
        0 <= b,
        a % m == b % m,
        -m < a - b < m,
    ensures
        a == b,
{
    vstd::arithmetic::div_mod::lemma_fundamental_div_mod(a, m);
    vstd::arithmetic::div_mod::lemma_fundamental_div_mod(b, m);
    assert(a - b == m * (a / m - b / m)) by (nonlinear_arith)
        requires
            a == m * (a / m) + a % m,
            b == m * (b / m) + b % m,
            a % m == b % m,
    ;
    assert(a / m == b / m) by (nonlinear_arith)
        requires
            m > 0,
            -m < m * (a / m - b / m) < m,
    ;
}

/// Distinct sprite bits land on distinct framebuffer cells: the row
/// offsets stay under the 32-row wrap and the bit offsets under the
/// 64-column wrap.
proof fn lemma_cell_injective(vx: int, vy: int, r0: int, c0: int, r1: int, c1: int)
    requires
        0 <= vx,
        0 <= vy,
        0 <= r0 < 32,
        0 <= r1 < 32,
        0 <= c0 < 64,
        0 <= c1 < 64,
        !(r0 == r1 && c0 == c1),
    ensures
        cell_of(vx, vy, r0, c0) != cell_of(vx, vy, r1, c1),
{
    let a0 = (vy + r0) % 32;
    let a1 = (vy + r1) % 32;
    let b0 = (vx + c0) % 64;
    let b1 = (vx + c1) % 64;
    if cell_of(vx, vy, r0, c0) == cell_of(vx, vy, r1, c1) {
        assert(a0 == a1 && b0 == b1);
        lemma_mod_eq_close(vy + r0, vy + r1, 32);
        lemma_mod_eq_close(vx + c0, vx + c1, 64);
    }
}

/// Advancing the draw order by one bit admits exactly the pair that was
/// just processed.
proof fn lemma_toggles_step(
    mem: Seq<u8>,
    base: int,
    vx: int,
    vy: int,
    row: int,
    col: int,
    cell: int,
)
    requires
        0 <= row,
        0 <= col < 8,
    ensures
        toggles_upto(mem, base, vx, vy, row, col + 1, cell) == (toggles_upto(
            mem,
            base,
            vx,
            vy,
            row,
            col,
            cell,
        ) || (sprite_bit(mem, base, row, col) && cell == cell_of(vx, vy, row, col))),
{
    if toggles_upto(mem, base, vx, vy, row, col + 1, cell) {
        let (r0, c0) = choose|r0: int, c0: int|
            0 <= r0 && 0 <= c0 < 8 && pair_before(r0, c0, row, col + 1) && sprite_bit(
                mem,
                base,
                r0,
                c0,
            ) && cell == cell_of(vx, vy, r0, c0);
        if pair_before(r0, c0, row, col) {
            assert(toggles_upto(mem, base, vx, vy, row, col, cell));
        } else {
            assert(r0 == row && c0 == col);
        }
    }
    if toggles_upto(mem, base, vx, vy, row, col, cell) {
        let (r0, c0) = choose|r0: int, c0: int|
            0 <= r0 && 0 <= c0 < 8 && pair_before(r0, c0, row, col) && sprite_bit(
                mem,
                base,
                r0,
                c0,
            ) && cell == cell_of(vx, vy, r0, c0);
        assert(pair_before(r0, c0, row, col + 1));
        assert(toggles_upto(mem, base, vx, vy, row, col + 1, cell));
    }
    if sprite_bit(mem, base, row, col) && cell == cell_of(vx, vy, row, col) {
        assert(pair_before(row, col, row, col + 1));
        assert(toggles_upto(mem, base, vx, vy, row, col + 1, cell));
    }
}

/// The same, for the collision record.
proof fn lemma_collision_step(
    screen0: Seq<u8>,
    mem: Seq<u8>,
    base: int,
    vx: int,
    vy: int,
    row: int,
    col: int,
)
    requires
        0 <= row,
        0 <= col < 8,
    ensures
        collision_upto(screen0, mem, base, vx, vy, row, col + 1) == (collision_upto(
            screen0,
            mem,
            base,
            vx,
            vy,
            row,
            col,
        ) || (sprite_bit(mem, base, row, col) && screen0[cell_of(vx, vy, row, col)] & 1 == 1)),
{
    if collision_upto(screen0, mem, base, vx, vy, row, col + 1) {
        let (r0, c0) = choose|r0: int, c0: int|
            0 <= r0 && 0 <= c0 < 8 && pair_before(r0, c0, row, col + 1) && sprite_bit(
                mem,
                base,
                r0,
                c0,
            ) && screen0[cell_of(vx, vy, r0, c0)] & 1 == 1;
        if pair_before(r0, c0, row, col) {
            assert(collision_upto(screen0, mem, base, vx, vy, row, col));
        } else {
            assert(r0 == row && c0 == col);
        }
    }
    if collision_upto(screen0, mem, base, vx, vy, row, col) {
        let (r0, c0) = choose|r0: int, c0: int|
            0 <= r0 && 0 <= c0 < 8 && pair_before(r0, c0, row, col) && sprite_bit(
                mem,
                base,
                r0,
                c0,
            ) && screen0[cell_of(vx, vy, r0, c0)] & 1 == 1;
        assert(pair_before(r0, c0, row, col + 1));
        assert(collision_upto(screen0, mem, base, vx, vy, row, col + 1));
    }
    if sprite_bit(mem, base, row, col) && screen0[cell_of(vx, vy, row, col)] & 1 == 1 {
        assert(pair_before(row, col, row, col + 1));
        assert(collision_upto(screen0, mem, base, vx, vy, row, col + 1));
    }
}

/// Finishing one row is the same point in the draw order as starting the
/// next.
proof fn lemma_row_step(
    screen0: Seq<u8>,
    mem: Seq<u8>,
    base: int,
    vx: int,
    vy: int,
    row: int,
    cell: int,
)
    requires
        0 <= row,
    ensures
        toggles_upto(mem, base, vx, vy, row, 8, cell) == toggles_upto(
            mem,
            base,
            vx,
            vy,
            row + 1,
            0,
            cell,
        ),
        collision_upto(screen0, mem, base, vx, vy, row, 8) == collision_upto(
            screen0,
            mem,
            base,
            vx,
            vy,
            row + 1,
            0,
        ),
{
    assert forall|r0: int, c0: int| 0 <= r0 && 0 <= c0 < 8 implies (pair_before(r0, c0, row, 8)
        == pair_before(r0, c0, row + 1, 0)) by {}
    if toggles_upto(mem, base, vx, vy, row, 8, cell) {
        let (r0, c0) = choose|r0: int, c0: int|
            0 <= r0 && 0 <= c0 < 8 && pair_before(r0, c0, row, 8) && sprite_bit(mem, base, r0, c0)
                && cell == cell_of(vx, vy, r0, c0);
        assert(pair_before(r0, c0, row + 1, 0));
        assert(toggles_upto(mem, base, vx, vy, row + 1, 0, cell));
    }
    if toggles_upto(mem, base, vx, vy, row + 1, 0, cell) {
        let (r0, c0) = choose|r0: int, c0: int|
            0 <= r0 && 0 <= c0 < 8 && pair_before(r0, c0, row + 1, 0) && sprite_bit(
                mem,
                base,
                r0,
                c0,
            ) && cell == cell_of(vx, vy, r0, c0);
        assert(pair_before(r0, c0, row, 8));
        assert(toggles_upto(mem, base, vx, vy, row, 8, cell));
    }
    if collision_upto(screen0, mem, base, vx, vy, row, 8) {
        let (r0, c0) = choose|r0: int, c0: int|
            0 <= r0 && 0 <= c0 < 8 && pair_before(r0, c0, row, 8) && sprite_bit(mem, base, r0, c0)
                && screen0[cell_of(vx, vy, r0, c0)] & 1 == 1;
        assert(pair_before(r0, c0, row + 1, 0));
        assert(collision_upto(screen0, mem, base, vx, vy, row + 1, 0));
    }
    if collision_upto(screen0, mem, base, vx, vy, row + 1, 0) {
        let (r0, c0) = choose|r0: int, c0: int|
            0 <= r0 && 0 <= c0 < 8 && pair_before(r0, c0, row + 1, 0) && sprite_bit(
                mem,
                base,
                r0,
                c0,
            ) && screen0[cell_of(vx, vy, r0, c0)] & 1 == 1;
        assert(pair_before(r0, c0, row, 8));
        assert(collision_upto(screen0, mem, base, vx, vy, row, 8));
    }
}

/// One whole engine cycle over machine values: fetch, decode, execute,
/// then the sound-timer epilogue. `r` is the byte the random-and-mask
/// instruction draws.
pub open spec fn spec_cycle(pre: MState, r: u8) -> Result<(MState, InterpreterEvent), CycleError> {
    if pre.pc + 1 >= 4096 {
        Err(CycleError::PcOutOfBounds)
    } else {
        let op = spec_fetch(pre);
        match spec_decode(op) {
            None => Err(CycleError::InvalidOpcode(op)),
            Some(o) => match spec_exec_op(pre, o, r) {
                Err(e) => Err(e),
                Ok(m1) => Ok(spec_epilogue(m1, op)),
            },
        }
    }
}

} // verus!

verus! {

impl Interpreter {
    /// Draws the `n`-row sprite stored at the index register, at the
    /// coordinates held by registers `x` and `y`: every set sprite bit
    /// toggles its framebuffer cell, with wrap-around, and the flag
    /// register records whether any toggle hit a lit cell.
    fn exec_draw(&mut self, x: usize, y: usize, n: usize)
        requires
            old(self)@.wf(),
            x < 16,
            y < 16,
            n < 16,
            n > 0 ==> old(self)@.index + n <= 4096,
        ensures
            final(self)@.wf(),
            final(self)@ == (MState {
                screen: spec_draw_screen(
                    old(self)@.screen,
                    old(self)@.memory,
                    old(self)@.index as int,
                    old(self)@.v[x as int] as int,
                    old(self)@.v[y as int] as int,
                    n as int,
                ),
                v: old(self)@.v.update(
                    15,
                    spec_draw_flag(
                        old(self)@.screen,
                        old(self)@.memory,
                        old(self)@.index as int,
                        old(self)@.v[x as int] as int,
                        old(self)@.v[y as int] as int,
                        n as int,
                    ),
                ),
                ..old(self)@
            }),
    {
        let ghost pre = old(self)@;
        let ghost s0 = pre.screen;
        let ghost mem0 = pre.memory;
        let vx = self.v[x] as usize;
        let vy = self.v[y] as usize;
        let base = self.index as usize;
        self.v.set(15, 0);
        proof {
            assert(self@.v =~= pre.v.update(
                15,
                (if collision_upto(s0, mem0, base as int, vx as int, vy as int, 0, 0) {
                    1u8
                } else {
                    0u8
                }),
            ));
        }
        let mut row: usize = 0;
        while row < n
            invariant
                pre.wf(),
                pre == old(self)@,
                x < 16,
                y < 16,
                n < 16,
                vx == pre.v[x as int],
                vy == pre.v[y as int],
                base == pre.index,
                n > 0 ==> base + n <= 4096,
                row <= n,
                s0 == pre.screen,
                mem0 == pre.memory,
                self@.pc == pre.pc,
                self@.index == pre.index,
                self@.sp == pre.sp,
                self@.delay_timer == pre.delay_timer,
                self@.sound_timer == pre.sound_timer,
                self@.stack == pre.stack,
                self@.memory == pre.memory,
                self@.screen.len() == 2048,
                forall|cell: int|
                    0 <= cell < 2048 ==> self@.screen[cell] == (if toggles_upto(
                        mem0,
                        base as int,
                        vx as int,
                        vy as int,
                        row as int,
                        0,
                        cell,
                    ) {
                        s0[cell] ^ 1
                    } else {
                        s0[cell]
                    }),
                self@.v == pre.v.update(
                    15,
                    (if collision_upto(
                        s0,
                        mem0,
                        base as int,
                        vx as int,
                        vy as int,
                        row as int,
                        0,
                    ) {
                        1u8
                    } else {
                        0u8
                    }),
                ),
            decreases n - row,
        {
            let sprite = self.memory[base + row];
            let mut col: usize = 0;
            while col < 8
                invariant
                    pre.wf(),
                    pre == old(self)@,
                    x < 16,
                    y < 16,
                    n < 16,
                    vx == pre.v[x as int],
                    vy == pre.v[y as int],
                    base == pre.index,
                    n > 0 ==> base + n <= 4096,
                    row < n,
                    col <= 8,
                    s0 == pre.screen,
                    mem0 == pre.memory,
                    sprite == mem0[base + row],
                    self@.pc == pre.pc,
                    self@.index == pre.index,
                    self@.sp == pre.sp,
                    self@.delay_timer == pre.delay_timer,
                    self@.sound_timer == pre.sound_timer,
                    self@.stack == pre.stack,
                    self@.memory == pre.memory,
                    self@.screen.len() == 2048,
                    forall|cell: int|
                        0 <= cell < 2048 ==> self@.screen[cell] == (if toggles_upto(
                            mem0,
                            base as int,
                            vx as int,
                            vy as int,
                            row as int,
                            col as int,
                            cell,
                        ) {
                            s0[cell] ^ 1
                        } else {
                            s0[cell]
                        }),
                    self@.v == pre.v.update(
                        15,
                        (if collision_upto(
                            s0,
                            mem0,
                            base as int,
                            vx as int,
                            vy as int,
                            row as int,
                            col as int,
                        ) {
                            1u8
                        } else {
                            0u8
                        }),
                    ),
                decreases 8 - col,
            {
                let ghost colv = collision_upto(
                    s0,
                    mem0,
                    base as int,
                    vx as int,
                    vy as int,
                    row as int,
                    col as int,
                );
                if sprite & (1u8 << ((7 - col) as u8)) != 0 {
                    proof {
                        assert(sprite_bit(mem0, base as int, row as int, col as int));
                    }
                    let cell = ((vy + row) % 32) * 64 + (vx + col) % 64;
                    proof {
                        assert(cell == cell_of(vx as int, vy as int, row as int, col as int));
                        assert(cell < 2048);
                        assert(!toggles_upto(
                            mem0,
                            base as int,
                            vx as int,
                            vy as int,
                            row as int,
                            col as int,
                            cell as int,
                        )) by {
                            if toggles_upto(
                                mem0,
                                base as int,
                                vx as int,
                                vy as int,
                                row as int,
                                col as int,
                                cell as int,
                            ) {
                                let (r0, c0) = choose|r0: int, c0: int|
                                    0 <= r0 && 0 <= c0 < 8 && pair_before(
                                        r0,
                                        c0,
                                        row as int,
                                        col as int,
                                    ) && sprite_bit(mem0, base as int, r0, c0) && cell as int
                                        == cell_of(vx as int, vy as int, r0, c0);
                                lemma_cell_injective(
                                    vx as int,
                                    vy as int,
                                    r0,
                                    c0,
                                    row as int,
                                    col as int,
                                );
                            }
                        }
                    }
                    let pix = self.screen_buffer[cell];
                    let flag = self.v[15];
                    proof {
                        assert(pix == s0[cell as int]);
                        assert(flag == (if colv {
                            1u8
                        } else {
                            0u8
                        }));
                    }
                    self.v.set(15, flag | (pix & 1));
                    self.screen_buffer.set(cell, pix ^ 1);
                    proof {
                        lemma_collision_step(
                            s0,
                            mem0,
                            base as int,
                            vx as int,
                            vy as int,
                            row as int,
                            col as int,
                        );
                        assert(pix & 1 == 0 || pix & 1 == 1) by (bit_vector);
                        assert((0u8 | 0u8) == 0u8 && (0u8 | 1u8) == 1u8 && (1u8 | 0u8) == 1u8 && (
                        1u8 | 1u8) == 1u8) by (bit_vector);
                        assert(self@.v =~= pre.v.update(
                            15,
                            (if collision_upto(
                                s0,
                                mem0,
                                base as int,
                                vx as int,
                                vy as int,
                                row as int,
                                col + 1,
                            ) {
                                1u8
                            } else {
                                0u8
                            }),
                        ));
                        assert forall|c: int| 0 <= c < 2048 implies self@.screen[c] == (
                        if toggles_upto(
                            mem0,
                            base as int,
                            vx as int,
                            vy as int,
                            row as int,
                            col + 1,
                            c,
                        ) {
                            s0[c] ^ 1
                        } else {
                            s0[c]
                        }) by {
                            lemma_toggles_step(
                                mem0,
                                base as int,
                                vx as int,
                                vy as int,
                                row as int,
                                col as int,
                                c,
                            );
                            if c != cell as int && toggles_upto(
                                mem0,
                                base as int,
                                vx as int,
                                vy as int,
                                row as int,
                                col + 1,
                                c,
                            ) {
                                assert(toggles_upto(
                                    mem0,
                                    base as int,
                                    vx as int,
                                    vy as int,
                                    row as int,
                                    col as int,
                                    c,
                                ));
                            }
                        }
                    }
                } else {
                    proof {
                        assert(!sprite_bit(mem0, base as int, row as int, col as int));
                        lemma_collision_step(
                            s0,
                            mem0,
                            base as int,
                            vx as int,
                            vy as int,
                            row as int,
                            col as int,
                        );
                        assert forall|c: int| 0 <= c < 2048 implies self@.screen[c] == (
                        if toggles_upto(
                            mem0,
                            base as int,
                            vx as int,
                            vy as int,
                            row as int,
                            col + 1,
                            c,
                        ) {
                            s0[c] ^ 1
                        } else {
                            s0[c]
                        }) by {
                            lemma_toggles_step(
                                mem0,
                                base as int,
                                vx as int,
                                vy as int,
                                row as int,
                                col as int,
                                c,
                            );
                        }
                    }
                }
                col = col + 1;
            }
            proof {
                assert forall|c: int| 0 <= c < 2048 implies self@.screen[c] == (if toggles_upto(
                    mem0,
                    base as int,
                    vx as int,
                    vy as int,
                    row + 1,
                    0,
                    c,
                ) {
                    s0[c] ^ 1
                } else {
                    s0[c]
                }) by {
                    lemma_row_step(s0, mem0, base as int, vx as int, vy as int, row as int, c);
                }
                lemma_row_step(s0, mem0, base as int, vx as int, vy as int, row as int, 0);
            }
            row = row + 1;
        }
        proof {
            assert(self@.screen =~= spec_draw_screen(
                s0,
                mem0,
                base as int,
                vx as int,
                vy as int,
                n as int,
            ));
            assert(self@ =~= (MState {
                screen: spec_draw_screen(
                    pre.screen,
                    pre.memory,
                    pre.index as int,
                    pre.v[x as int] as int,
                    pre.v[y as int] as int,
                    n as int,
                ),
                v: pre.v.update(
                    15,
                    spec_draw_flag(
                        pre.screen,
                        pre.memory,
                        pre.index as int,
                        pre.v[x as int] as int,
                        pre.v[y as int] as int,
                        n as int,
                    ),
                ),
                ..pre
            }));
            assert forall|c: int| 0 <= c < 2048 implies #[trigger] self@.screen[c] <= 1 by {
                let b = s0[c];
                assert(b <= 1 ==> (b ^ 1) <= 1) by (bit_vector);
            }
        }
    }
}

} // verus!


verus! {

/// Relies on rand::random: draws one byte from the thread-local random
/// generator. Nothing is assumed of its value.
#[verifier::external_body]
fn random_byte() -> u8 {
    rand::random::<u8>()
}

/// Field bounds every decoded instruction satisfies: register indices
/// and row counts are nibbles, addresses are twelve bits.
pub open spec fn op_wf(o: Op) -> bool {
    match o {
        Op::Cls => true,
        Op::Ret => true,
        Op::Jmp(nnn) => nnn < 4096,
        Op::Call(nnn) => nnn < 4096,
        Op::LdIndex(nnn) => nnn < 4096,
        Op::JmpV0(nnn) => nnn < 4096,
        Op::SeVal(x, _) => x < 16,
        Op::SneVal(x, _) => x < 16,
        Op::MovVal(x, _) => x < 16,
        Op::AddVal(x, _) => x < 16,
        Op::Rand(x, _) => x < 16,
        Op::SeReg(x, y) => x < 16 && y < 16,
        Op::SneReg(x, y) => x < 16 && y < 16,
        Op::MovReg(x, y) => x < 16 && y < 16,
        Op::Or(x, y) => x < 16 && y < 16,
        Op::And(x, y) => x < 16 && y < 16,
        Op::Xor(x, y) => x < 16 && y < 16,
        Op::AddReg(x, y) => x < 16 && y < 16,
        Op::SubReg(x, y) => x < 16 && y < 16,
        Op::SubnReg(x, y) => x < 16 && y < 16,
        Op::Shr(x) => x < 16,
        Op::Shl(x) => x < 16,
        Op::SkipKey(x) => x < 16,
        Op::SkipNoKey(x) => x < 16,
        Op::GetDelay(x) => x < 16,
        Op::WaitKey(x) => x < 16,
        Op::SetDelay(x) => x < 16,
        Op::SetSound(x) => x < 16,
        Op::AddIndex(x) => x < 16,
        Op::SpriteAddr(x) => x < 16,
        Op::StoreBcd(x) => x < 16,
        Op::RegDump(x) => x < 16,
        Op::RegLoad(x) => x < 16,
        Op::Draw(x, y, n) => x < 16 && y < 16 && n < 16,
    }
}

/// Whatever an opcode decodes to satisfies the field bounds.
pub proof fn lemma_decode_wf(op: u16)
    ensures
        spec_decode(op) matches Some(o) ==> op_wf(o),
{
    lemma_nibbles(op);
}

impl Interpreter {
    /// Executes one control-flow instruction: clear, return, jump, call,
    /// a conditional skip, or a key-skip stub.
    fn exec_flow(&mut self, o: Op) -> (r: Result<u8, CycleError>)
        requires
            old(self)@.wf(),
            old(self)@.pc <= 4094,
            op_wf(o),
            o is Cls || o is Ret || o is Jmp || o is Call || o is SeVal || o is SneVal || o is SeReg || o is SneReg || o is JmpV0 || o is SkipKey || o is SkipNoKey,
        ensures
            match r {
                Ok(rb) => final(self)@.wf() && spec_exec_op(old(self)@, o, rb) == Ok::<
                    MState,
                    CycleError,
                >(final(self)@),
                Err(e) => final(self)@ == old(self)@ && forall|rr: u8|
                    spec_exec_op(old(self)@, o, rr) == Err::<MState, CycleError>(e),
            },
    {
        let ghost pre = old(self)@;
        match o {
            Op::Cls => {
                self.screen_buffer = zero_bytes(2048);
                self.pc = self.pc + 2;
                proof {
                    assert(spec_exec_op(pre, o, 0u8) == Ok::<MState, CycleError>(self@)) by {
                        reveal(spec_exec_op);
                        assert(spec_exec_op(pre, o, 0u8) matches Ok(m) ==> m =~= self@);
                    }
                    assert(self@.wf());
                }
                Ok(0u8)
            },
            Op::Ret => {
                if self.sp == 0 {
                    proof {
                        assert forall|rr: u8|
                            spec_exec_op(pre, o, rr) == Err::<MState, CycleError>(
                                CycleError::StackUnderflow,
                            ) by {
                            reveal(spec_exec_op);
                        }
                    }
                    return Err(CycleError::StackUnderflow);
                }
                self.sp = self.sp - 1;
                self.pc = self.stack[self.sp as usize];
                self.pc = self.pc + 2;
                proof {
                    assert(spec_exec_op(pre, o, 0u8) == Ok::<MState, CycleError>(self@)) by {
                        reveal(spec_exec_op);
                        assert(spec_exec_op(pre, o, 0u8) matches Ok(m) ==> m =~= self@);
                    }
                    assert(self@.wf());
                }
                Ok(0u8)
            },
            Op::Jmp(nnnf) => {
                let nnn = nnnf;
                self.pc = nnn;
                proof {
                    assert(spec_exec_op(pre, o, 0u8) == Ok::<MState, CycleError>(self@)) by {
                        reveal(spec_exec_op);
                        assert(spec_exec_op(pre, o, 0u8) matches Ok(m) ==> m =~= self@);
                    }
                    assert(self@.wf());
                }
                Ok(0u8)
            },
            Op::Call(nnnf) => {
                let nnn = nnnf;
                if self.sp >= 16 {
                    proof {
                        assert forall|rr: u8|
                            spec_exec_op(pre, o, rr) == Err::<MState, CycleError>(
                                CycleError::StackOverflow,
                            ) by {
                            reveal(spec_exec_op);
                        }
                    }
                    return Err(CycleError::StackOverflow);
                }
                self.stack.set(self.sp as usize, self.pc);
                self.sp = self.sp + 1;
                self.pc = nnn;
                proof {
                    assert(spec_exec_op(pre, o, 0u8) == Ok::<MState, CycleError>(self@)) by {
                        reveal(spec_exec_op);
                        assert(spec_exec_op(pre, o, 0u8) matches Ok(m) ==> m =~= self@);
                    }
                    assert(self@.wf());
                }
                Ok(0u8)
            },
            Op::SeVal(xf, nnf) => {
                let x = xf as usize;
                let nn = nnf;
                self.pc = if self.v[x] == nn {
                    self.pc + 4
                } else {
                    self.pc + 2
                };
                proof {
                    assert(spec_exec_op(pre, o, 0u8) == Ok::<MState, CycleError>(self@)) by {
                        reveal(spec_exec_op);
                        assert(spec_exec_op(pre, o, 0u8) matches Ok(m) ==> m =~= self@);
                    }
                    assert(self@.wf());
                }
                Ok(0u8)
            },
            Op::SneVal(xf, nnf) => {
                let x = xf as usize;
                let nn = nnf;
                self.pc = if self.v[x] != nn {
                    self.pc + 4
                } else {
                    self.pc + 2
                };
                proof {
                    assert(spec_exec_op(pre, o, 0u8) == Ok::<MState, CycleError>(self@)) by {
                        reveal(spec_exec_op);
                        assert(spec_exec_op(pre, o, 0u8) matches Ok(m) ==> m =~= self@);
                    }
                    assert(self@.wf());
                }
                Ok(0u8)
            },
            Op::SeReg(xf, yf) => {
                let x = xf as usize;
                let y = yf as usize;
                self.pc = if self.v[x] == self.v[y] {
                    self.pc + 4
                } else {
                    self.pc + 2
                };
                proof {
                    assert(spec_exec_op(pre, o, 0u8) == Ok::<MState, CycleError>(self@)) by {
                        reveal(spec_exec_op);
                        assert(spec_exec_op(pre, o, 0u8) matches Ok(m) ==> m =~= self@);
                    }
                    assert(self@.wf());
                }
                Ok(0u8)
            },
            Op::SneReg(xf, yf) => {
                let x = xf as usize;
                let y = yf as usize;
                self.pc = if self.v[x] != self.v[y] {
                    self.pc + 4
                } else {
                    self.pc + 2
                };
                proof {
                    assert(spec_exec_op(pre, o, 0u8) == Ok::<MState, CycleError>(self@)) by {
                        reveal(spec_exec_op);
                        assert(spec_exec_op(pre, o, 0u8) matches Ok(m) ==> m =~= self@);
                    }
                    assert(self@.wf());
                }
                Ok(0u8)
            },
            Op::JmpV0(nnnf) => {
                let nnn = nnnf;
                self.pc = nnn + self.v[0] as u16;
                proof {
                    assert(spec_exec_op(pre, o, 0u8) == Ok::<MState, CycleError>(self@)) by {
                        reveal(spec_exec_op);
                        assert(spec_exec_op(pre, o, 0u8) matches Ok(m) ==> m =~= self@);
                    }
                    assert(self@.wf());
                }
                Ok(0u8)
            },
            Op::SkipKey(_) => {
                self.pc = self.pc + 2;
                proof {
                    assert(spec_exec_op(pre, o, 0u8) == Ok::<MState, CycleError>(self@)) by {
                        reveal(spec_exec_op);
                        assert(spec_exec_op(pre, o, 0u8) matches Ok(m) ==> m =~= self@);
                    }
                    assert(self@.wf());
                }
                Ok(0u8)
            },
            Op::SkipNoKey(_) => {
                self.pc = self.pc + 2;
                proof {
                    assert(spec_exec_op(pre, o, 0u8) == Ok::<MState, CycleError>(self@)) by {
                        reveal(spec_exec_op);
                        assert(spec_exec_op(pre, o, 0u8) matches Ok(m) ==> m =~= self@);
                    }
                    assert(self@.wf());
                }
                Ok(0u8)
            },
            _ => {
                proof {
                    assert(false);
                }
                Err(CycleError::PcOutOfBounds)
            },
        }
    }

    /// Executes one register move, immediate load or add, or bitwise
    /// or/and/xor.
    #[verifier::rlimit(100)]
    #[verifier::spinoff_prover]
    fn exec_alu(&mut self, o: Op) -> (r: Result<u8, CycleError>)
        requires
            old(self)@.wf(),
            old(self)@.pc <= 4094,
            op_wf(o),
            o is MovVal || o is AddVal || o is MovReg || o is Or || o is And || o is Xor,
        ensures
            match r {
                Ok(rb) => final(self)@.wf() && spec_exec_op(old(self)@, o, rb) == Ok::<
                    MState,
                    CycleError,
                >(final(self)@),
                Err(e) => final(self)@ == old(self)@ && forall|rr: u8|
                    spec_exec_op(old(self)@, o, rr) == Err::<MState, CycleError>(e),
            },
    {
        let ghost pre = old(self)@;
        match o {
            Op::MovVal(xf, nnf) => {
                let x = xf as usize;
                let nn = nnf;
                self.v.set(x, nn);
                self.pc = self.pc + 2;
                proof {
                    assert(spec_exec_op(pre, o, 0u8) == Ok::<MState, CycleError>(self@)) by {
                        reveal(spec_exec_op);
                        assert(spec_exec_op(pre, o, 0u8) matches Ok(m) ==> m =~= self@);
                    }
                    assert(self@.wf());
                }
                Ok(0u8)
            },
            Op::AddVal(xf, nnf) => {
                let x = xf as usize;
                let nn = nnf;
                let sum = self.v[x].wrapping_add(nn);
                self.v.set(x, sum);
                self.pc = self.pc + 2;
                proof {
                    assert(spec_exec_op(pre, o, 0u8) == Ok::<MState, CycleError>(self@)) by {
                        reveal(spec_exec_op);
                        assert(spec_exec_op(pre, o, 0u8) matches Ok(m) ==> m =~= self@);
                    }
                    assert(self@.wf());
                }
                Ok(0u8)
            },
            Op::MovReg(xf, yf) => {
                let x = xf as usize;
                let y = yf as usize;
                let val = self.v[y];
                self.v.set(x, val);
                self.pc = self.pc + 2;
                proof {
                    assert(spec_exec_op(pre, o, 0u8) == Ok::<MState, CycleError>(self@)) by {
                        reveal(spec_exec_op);
                        assert(spec_exec_op(pre, o, 0u8) matches Ok(m) ==> m =~= self@);
                    }
                    assert(self@.wf());
                }
                Ok(0u8)
            },
            Op::Or(xf, yf) => {
                let x = xf as usize;
                let y = yf as usize;
                let val = self.v[x] | self.v[y];
                self.v.set(x, val);
                self.pc = self.pc + 2;
                proof {
                    assert(spec_exec_op(pre, o, 0u8) == Ok::<MState, CycleError>(self@)) by {
                        reveal(spec_exec_op);
                        assert(spec_exec_op(pre, o, 0u8) matches Ok(m) ==> m =~= self@);
                    }
                    assert(self@.wf());
                }
                Ok(0u8)
            },
            Op::And(xf, yf) => {
                let x = xf as usize;
                let y = yf as usize;
                let val = self.v[x] & self.v[y];
                self.v.set(x, val);
                self.pc = self.pc + 2;
                proof {
                    assert(spec_exec_op(pre, o, 0u8) == Ok::<MState, CycleError>(self@)) by {
                        reveal(spec_exec_op);
                        assert(spec_exec_op(pre, o, 0u8) matches Ok(m) ==> m =~= self@);
                    }
                    assert(self@.wf());
                }
                Ok(0u8)
            },
            Op::Xor(xf, yf) => {
                let x = xf as usize;
                let y = yf as usize;
                let val = self.v[x] ^ self.v[y];
                self.v.set(x, val);
                self.pc = self.pc + 2;
                proof {
                    assert(spec_exec_op(pre, o, 0u8) == Ok::<MState, CycleError>(self@)) by {
                        reveal(spec_exec_op);
                        assert(spec_exec_op(pre, o, 0u8) matches Ok(m) ==> m =~= self@);
                    }
                    assert(self@.wf());
                }
                Ok(0u8)
            },
            _ => {
                proof {
                    assert(false);
                }
                Err(CycleError::PcOutOfBounds)
            },
        }
    }

    /// Executes an add-with-carry or one of the two
    /// subtract-with-borrow orderings.
    #[verifier::rlimit(100)]
    #[verifier::spinoff_prover]
    fn exec_arith(&mut self, o: Op) -> (r: Result<u8, CycleError>)
        requires
            old(self)@.wf(),
            old(self)@.pc <= 4094,
            op_wf(o),
            o is AddReg || o is SubReg || o is SubnReg,
        ensures
            match r {
                Ok(rb) => final(self)@.wf() && spec_exec_op(old(self)@, o, rb) == Ok::<
                    MState,
                    CycleError,
                >(final(self)@),
                Err(e) => final(self)@ == old(self)@ && forall|rr: u8|
                    spec_exec_op(old(self)@, o, rr) == Err::<MState, CycleError>(e),
            },
    {
        let ghost pre = old(self)@;
        match o {
            Op::AddReg(xf, yf) => {
                let x = xf as usize;
                let y = yf as usize;
                let a = self.v[x];
                let b = self.v[y];
                let flag: u8 = if a as u16 + b as u16 > 255 {
                    1
                } else {
                    0
                };
                self.v.set(15, flag);
                self.v.set(x, a.wrapping_add(b));
                self.pc = self.pc + 2;
                proof {
                    assert(spec_exec_op(pre, o, 0u8) == Ok::<MState, CycleError>(self@)) by {
                        reveal(spec_exec_op);
                        assert(spec_exec_op(pre, o, 0u8) matches Ok(m) ==> m =~= self@);
                    }
                    assert(self@.wf());
                }
                Ok(0u8)
            },
            Op::SubReg(xf, yf) => {
                let x = xf as usize;
                let y = yf as usize;
                let a = self.v[x];
                let b = self.v[y];
                let flag: u8 = if a < b {
                    1
                } else {
                    0
                };
                self.v.set(15, flag);
                self.v.set(x, a.wrapping_sub(b));
                self.pc = self.pc + 2;
                proof {
                    assert(spec_exec_op(pre, o, 0u8) == Ok::<MState, CycleError>(self@)) by {
                        reveal(spec_exec_op);
                        assert(spec_exec_op(pre, o, 0u8) matches Ok(m) ==> m =~= self@);
                    }
                    assert(self@.wf());
                }
                Ok(0u8)
            },
            Op::SubnReg(xf, yf) => {
                let x = xf as usize;
                let y = yf as usize;
                let a = self.v[x];
                let b = self.v[y];
                let flag: u8 = if b < a {
                    1
                } else {
                    0
                };
                self.v.set(15, flag);
                self.v.set(x, b.wrapping_sub(a));
                self.pc = self.pc + 2;
                proof {
                    assert(spec_exec_op(pre, o, 0u8) == Ok::<MState, CycleError>(self@)) by {
                        reveal(spec_exec_op);
                        assert(spec_exec_op(pre, o, 0u8) matches Ok(m) ==> m =~= self@);
                    }
                    assert(self@.wf());
                }
                Ok(0u8)
            },
            _ => {
                proof {
                    assert(false);
                }
                Err(CycleError::PcOutOfBounds)
            },
        }
    }

    /// Executes a shift, recording the shifted-out bit in the flag
    /// register.
    #[verifier::rlimit(100)]
    #[verifier::spinoff_prover]
    fn exec_shift(&mut self, o: Op) -> (r: Result<u8, CycleError>)
        requires
            old(self)@.wf(),
            old(self)@.pc <= 4094,
            op_wf(o),
            o is Shr || o is Shl,
        ensures
            match r {
                Ok(rb) => final(self)@.wf() && spec_exec_op(old(self)@, o, rb) == Ok::<
                    MState,
                    CycleError,
                >(final(self)@),
                Err(e) => final(self)@ == old(self)@ && forall|rr: u8|
                    spec_exec_op(old(self)@, o, rr) == Err::<MState, CycleError>(e),
            },
    {
        let ghost pre = old(self)@;
        match o {
            Op::Shr(xf) => {
                let x = xf as usize;
                let flag = self.v[x] & 1;
                self.v.set(15, flag);
                let val = self.v[x] >> 1u8;
                self.v.set(x, val);
                self.pc = self.pc + 2;
                proof {
                    assert(spec_exec_op(pre, o, 0u8) == Ok::<MState, CycleError>(self@)) by {
                        reveal(spec_exec_op);
                        assert(spec_exec_op(pre, o, 0u8) matches Ok(m) ==> m =~= self@);
                    }
                    assert(self@.wf());
                }
                Ok(0u8)
            },
            Op::Shl(xf) => {
                let x = xf as usize;
                let flag = (self.v[x] & 0x80) >> 7u8;
                self.v.set(15, flag);
                let val = self.v[x] << 1u8;
                self.v.set(x, val);
                self.pc = self.pc + 2;
                proof {
                    assert(spec_exec_op(pre, o, 0u8) == Ok::<MState, CycleError>(self@)) by {
                        reveal(spec_exec_op);
                        assert(spec_exec_op(pre, o, 0u8) matches Ok(m) ==> m =~= self@);
                    }
                    assert(self@.wf());
                }
                Ok(0u8)
            },
            _ => {
                proof {
                    assert(false);
                }
                Err(CycleError::PcOutOfBounds)
            },
        }
    }

    /// Executes an index-register or memory-indexed instruction: index
    /// loads and adds, glyph lookup, BCD store, register dump and load.
    fn exec_mem(&mut self, o: Op) -> (r: Result<u8, CycleError>)
        requires
            old(self)@.wf(),
            old(self)@.pc <= 4094,
            op_wf(o),
            o is LdIndex || o is AddIndex || o is SpriteAddr || o is StoreBcd || o is RegDump || o is RegLoad,
        ensures
            match r {
                Ok(rb) => final(self)@.wf() && spec_exec_op(old(self)@, o, rb) == Ok::<
                    MState,
                    CycleError,
                >(final(self)@),
                Err(e) => final(self)@ == old(self)@ && forall|rr: u8|
                    spec_exec_op(old(self)@, o, rr) == Err::<MState, CycleError>(e),
            },
    {
        let ghost pre = old(self)@;
        match o {
            Op::LdIndex(nnnf) => {
                let nnn = nnnf;
                self.index = nnn;
                self.pc = self.pc + 2;
                proof {
                    assert(spec_exec_op(pre, o, 0u8) == Ok::<MState, CycleError>(self@)) by {
                        reveal(spec_exec_op);
                        assert(spec_exec_op(pre, o, 0u8) matches Ok(m) ==> m =~= self@);
                    }
                    assert(self@.wf());
                }
                Ok(0u8)
            },
            Op::AddIndex(xf) => {
                let x = xf as usize;
                let add = self.v[x] as u16;
                if self.index > 0xFFFF - add {
                    proof {
                        assert forall|rr: u8|
                            spec_exec_op(pre, o, rr) == Err::<MState, CycleError>(
                                CycleError::IndexOverflow,
                            ) by {
                            reveal(spec_exec_op);
                        }
                    }
                    return Err(CycleError::IndexOverflow);
                }
                self.index = self.index + add;
                self.pc = self.pc + 2;
                proof {
                    assert(spec_exec_op(pre, o, 0u8) == Ok::<MState, CycleError>(self@)) by {
                        reveal(spec_exec_op);
                        assert(spec_exec_op(pre, o, 0u8) matches Ok(m) ==> m =~= self@);
                    }
                    assert(self@.wf());
                }
                Ok(0u8)
            },
            Op::SpriteAddr(xf) => {
                let x = xf as usize;
                self.index = self.v[x] as u16 * 5;
                self.pc = self.pc + 2;
                proof {
                    assert(spec_exec_op(pre, o, 0u8) == Ok::<MState, CycleError>(self@)) by {
                        reveal(spec_exec_op);
                        assert(spec_exec_op(pre, o, 0u8) matches Ok(m) ==> m =~= self@);
                    }
                    assert(self@.wf());
                }
                Ok(0u8)
            },
            Op::StoreBcd(xf) => {
                let x = xf as usize;
                let idx = self.index as usize;
                if idx + 3 > 4096 {
                    proof {
                        assert forall|rr: u8|
                            spec_exec_op(pre, o, rr) == Err::<MState, CycleError>(
                                CycleError::MemoryOutOfBounds,
                            ) by {
                            reveal(spec_exec_op);
                        }
                    }
                    return Err(CycleError::MemoryOutOfBounds);
                }
                let val = self.v[x];
                self.memory.set(idx, val / 100);
                self.memory.set(idx + 1, (val / 10) % 10);
                self.memory.set(idx + 2, val % 10);
                self.pc = self.pc + 2;
                proof {
                    assert(spec_exec_op(pre, o, 0u8) == Ok::<MState, CycleError>(self@)) by {
                        reveal(spec_exec_op);
                        assert(spec_exec_op(pre, o, 0u8) matches Ok(m) ==> m =~= self@);
                    }
                    assert(self@.wf());
                }
                Ok(0u8)
            },
            Op::RegDump(xf) => {
                let x = xf as usize;
                let idx = self.index as usize;
                if idx + x + 1 > 4096 {
                    proof {
                        assert forall|rr: u8|
                            spec_exec_op(pre, o, rr) == Err::<MState, CycleError>(
                                CycleError::MemoryOutOfBounds,
                            ) by {
                            reveal(spec_exec_op);
                        }
                    }
                    return Err(CycleError::MemoryOutOfBounds);
                }
                let mut k: usize = 0;
                while k <= x
                    invariant
                        pre.wf(),
                        x < 16,
                        k <= x + 1,
                        idx == pre.index,
                        idx + x + 1 <= 4096,
                        self@.pc == pre.pc,
                        self@.index == pre.index,
                        self@.sp == pre.sp,
                        self@.delay_timer == pre.delay_timer,
                        self@.sound_timer == pre.sound_timer,
                        self@.v == pre.v,
                        self@.stack == pre.stack,
                        self@.screen == pre.screen,
                        self@.memory.len() == 4096,
                        forall|a: int|
                            0 <= a < 4096 ==> self@.memory[a] == (if idx <= a < idx + k {
                                pre.v[a - idx]
                            } else {
                                pre.memory[a]
                            }),
                    decreases x + 1 - k,
                {
                    let val = self.v[k];
                    self.memory.set(idx + k, val);
                    k = k + 1;
                }
                self.pc = self.pc + 2;
                proof {
                    assert(spec_exec_op(pre, o, 0u8) == Ok::<MState, CycleError>(self@)) by {
                        reveal(spec_exec_op);
                        assert(spec_exec_op(pre, o, 0u8) matches Ok(m) ==> m =~= self@);
                    }
                    assert(self@.wf());
                }
                Ok(0u8)
            },
            Op::RegLoad(xf) => {
                let x = xf as usize;
                let idx = self.index as usize;
                if idx + x + 1 > 4096 {
                    proof {
                        assert forall|rr: u8|
                            spec_exec_op(pre, o, rr) == Err::<MState, CycleError>(
                                CycleError::MemoryOutOfBounds,
                            ) by {
                            reveal(spec_exec_op);
                        }
                    }
                    return Err(CycleError::MemoryOutOfBounds);
                }
                let mut k: usize = 0;
                while k <= x
                    invariant
                        pre.wf(),
                        x < 16,
                        k <= x + 1,
                        idx == pre.index,
                        idx + x + 1 <= 4096,
                        self@.pc == pre.pc,
                        self@.index == pre.index,
                        self@.sp == pre.sp,
                        self@.delay_timer == pre.delay_timer,
                        self@.sound_timer == pre.sound_timer,
                        self@.memory == pre.memory,
                        self@.stack == pre.stack,
                        self@.screen == pre.screen,
                        self@.v.len() == 16,
                        forall|i: int|
                            0 <= i < 16 ==> self@.v[i] == (if 0 <= i < k {
                                pre.memory[idx + i]
                            } else {
                                pre.v[i]
                            }),
                    decreases x + 1 - k,
                {
                    let val = self.memory[idx + k];
                    self.v.set(k, val);
                    k = k + 1;
                }
                self.pc = self.pc + 2;
                proof {
                    assert(spec_exec_op(pre, o, 0u8) == Ok::<MState, CycleError>(self@)) by {
                        reveal(spec_exec_op);
                        assert(spec_exec_op(pre, o, 0u8) matches Ok(m) ==> m =~= self@);
                    }
                    assert(self@.wf());
                }
                Ok(0u8)
            },
            _ => {
                proof {
                    assert(false);
                }
                Err(CycleError::PcOutOfBounds)
            },
        }
    }

    /// Executes random-and-mask, sprite draw, a timer access, or the
    /// wait-for-key stub. The returned byte is the one the random
    /// instruction drew, and zero elsewhere.
    fn exec_misc(&mut self, o: Op) -> (r: Result<u8, CycleError>)
        requires
            old(self)@.wf(),
            old(self)@.pc <= 4094,
            op_wf(o),
            o is Rand || o is Draw || o is GetDelay || o is WaitKey || o is SetDelay || o is SetSound,
        ensures
            match r {
                Ok(rb) => final(self)@.wf() && spec_exec_op(old(self)@, o, rb) == Ok::<
                    MState,
                    CycleError,
                >(final(self)@),
                Err(e) => final(self)@ == old(self)@ && forall|rr: u8|
                    spec_exec_op(old(self)@, o, rr) == Err::<MState, CycleError>(e),
            },
    {
        let ghost pre = old(self)@;
        match o {
            Op::Rand(xf, nnf) => {
                let x = xf as usize;
                let nn = nnf;
                let rb = random_byte();
                self.v.set(x, nn & rb);
                self.pc = self.pc + 2;
                proof {
                    assert(spec_exec_op(pre, o, rb) == Ok::<MState, CycleError>(self@)) by {
                        reveal(spec_exec_op);
                        assert(spec_exec_op(pre, o, rb) matches Ok(m) ==> m =~= self@);
                    }
                    assert(self@.wf());
                }
                Ok(rb)
            },
            Op::Draw(xf, yf, nf) => {
                let x = xf as usize;
                let y = yf as usize;
                let n = nf as usize;
                if n > 0 && self.index as usize + n > 4096 {
                    proof {
                        assert forall|rr: u8|
                            spec_exec_op(pre, o, rr) == Err::<MState, CycleError>(
                                CycleError::MemoryOutOfBounds,
                            ) by {
                            reveal(spec_exec_op);
                        }
                    }
                    return Err(CycleError::MemoryOutOfBounds);
                }
                self.exec_draw(x, y, n);
                self.pc = self.pc + 2;
                proof {
                    assert(spec_exec_op(pre, o, 0u8) == Ok::<MState, CycleError>(self@)) by {
                        reveal(spec_exec_op);
                        assert(spec_exec_op(pre, o, 0u8) matches Ok(m) ==> m =~= self@);
                    }
                    assert(self@.wf());
                }
                Ok(0u8)
            },
            Op::GetDelay(xf) => {
                let x = xf as usize;
                let val = self.delay_timer;
                self.v.set(x, val);
                self.pc = self.pc + 2;
                proof {
                    assert(spec_exec_op(pre, o, 0u8) == Ok::<MState, CycleError>(self@)) by {
                        reveal(spec_exec_op);
                        assert(spec_exec_op(pre, o, 0u8) matches Ok(m) ==> m =~= self@);
                    }
                    assert(self@.wf());
                }
                Ok(0u8)
            },
            Op::WaitKey(_) => {
                self.pc = self.pc + 2;
                proof {
                    assert(spec_exec_op(pre, o, 0u8) == Ok::<MState, CycleError>(self@)) by {
                        reveal(spec_exec_op);
                        assert(spec_exec_op(pre, o, 0u8) matches Ok(m) ==> m =~= self@);
                    }
                    assert(self@.wf());
                }
                Ok(0u8)
            },
            Op::SetDelay(xf) => {
                let x = xf as usize;
                self.delay_timer = self.v[x];
                self.pc = self.pc + 2;
                proof {
                    assert(spec_exec_op(pre, o, 0u8) == Ok::<MState, CycleError>(self@)) by {
                        reveal(spec_exec_op);
                        assert(spec_exec_op(pre, o, 0u8) matches Ok(m) ==> m =~= self@);
                    }
                    assert(self@.wf());
                }
                Ok(0u8)
            },
            Op::SetSound(xf) => {
                let x = xf as usize;
                self.sound_timer = self.v[x];
                self.pc = self.pc + 2;
                proof {
                    assert(spec_exec_op(pre, o, 0u8) == Ok::<MState, CycleError>(self@)) by {
                        reveal(spec_exec_op);
                        assert(spec_exec_op(pre, o, 0u8) matches Ok(m) ==> m =~= self@);
                    }
                    assert(self@.wf());
                }
                Ok(0u8)
            },
            _ => {
                proof {
                    assert(false);
                }
                Err(CycleError::PcOutOfBounds)
            },
        }
    }

    /// Runs exactly one fetch-decode-execute cycle and reports what
    /// happened. A well-formed machine stays well-formed; an aborted
    /// cycle leaves the machine exactly as it was, and a completed one
    /// took the transition `spec_cycle` describes for some drawn random
    /// byte.
    pub fn cycle(&mut self) -> (res: Result<InterpreterEvent, CycleError>)
        requires
            old(self)@.wf(),
        ensures
            final(self)@.wf(),
            match res {
                Ok(ev) => exists|r: u8|
                    spec_cycle(old(self)@, r) == Ok::<(MState, InterpreterEvent), CycleError>(
                        (final(self)@, ev),
                    ),
                Err(e) => final(self)@ == old(self)@ && forall|r: u8|
                    spec_cycle(old(self)@, r) == Err::<(MState, InterpreterEvent), CycleError>(e),
            },
    {
        let ghost pre = old(self)@;
        if self.pc >= 4095 {
            return Err(CycleError::PcOutOfBounds);
        }
        let hi = self.memory[self.pc as usize];
        let lo = self.memory[(self.pc + 1) as usize];
        let op = ((hi as u16) << 8) | (lo as u16);
        proof {
            assert(op == spec_fetch(pre));
            lemma_nibbles(op);
            lemma_decode_wf(op);
        }
        let o = match decode(op) {
            Some(o) => o,
            None => {
                return Err(CycleError::InvalidOpcode(op));
            },
        };
        let stepped = match o {
            Op::Cls | Op::Ret | Op::Jmp(_) | Op::Call(_) | Op::SeVal(_, _) | Op::SneVal(_, _)
                | Op::SeReg(_, _) | Op::SneReg(_, _) | Op::JmpV0(_) | Op::SkipKey(_)
                | Op::SkipNoKey(_) => self.exec_flow(o),
            Op::MovVal(_, _) | Op::AddVal(_, _) | Op::MovReg(_, _) | Op::Or(_, _) | Op::And(
                _,
                _,
            ) | Op::Xor(_, _) => self.exec_alu(o),
            Op::AddReg(_, _) | Op::SubReg(_, _) | Op::SubnReg(_, _) => self.exec_arith(o),
            Op::Shr(_) | Op::Shl(_) => self.exec_shift(o),
            Op::LdIndex(_) | Op::AddIndex(_) | Op::SpriteAddr(_) | Op::StoreBcd(_) | Op::RegDump(
                _,
            ) | Op::RegLoad(_) => self.exec_mem(o),
            Op::Rand(_, _) | Op::Draw(_, _, _) | Op::GetDelay(_) | Op::WaitKey(_) | Op::SetDelay(
                _,
            ) | Op::SetSound(_) => self.exec_misc(o),
        };
        let rb = match stepped {
            Ok(rb) => rb,
            Err(e) => {
                return Err(e);
            },
        };
        let ghost m1 = self@;
        let ev = if self.sound_timer > 0 {
            self.sound_timer = self.sound_timer - 1;
            InterpreterEvent::Audio
        } else {
            InterpreterEvent::Opcode(op)
        };
        proof {
            assert(self@ =~= spec_epilogue(m1, op).0);
            assert(spec_cycle(pre, rb) == Ok::<(MState, InterpreterEvent), CycleError>(
                (self@, ev),
            ));
        }
        Ok(ev)
    }
}

} // verus!

verus! {

/// Law: the skip-if-equal-immediate instruction advances the program
/// counter by four exactly when the register equals the immediate, and
/// by two otherwise.
pub proof fn lemma_skip_eq_immediate(pre: MState, r: u8, x: u8, nn: u8)
    requires
        pre.wf(),
        pre.pc + 1 < 4096,
        spec_decode(spec_fetch(pre)) == Some(Op::SeVal(x, nn)),
    ensures
        spec_cycle(pre, r) is Ok,
        (spec_cycle(pre, r)->Ok_0).0.pc == (if pre.v[x as int] == nn {
            pre.pc + 4
        } else {
            pre.pc + 2
        }),
{
    reveal(spec_exec_op);
    lemma_decode_wf(spec_fetch(pre));
}

/// Law: the skip-if-unequal-immediate instruction advances the program
/// counter by four exactly when the register differs from the immediate,
/// and by two otherwise.
pub proof fn lemma_skip_ne_immediate(pre: MState, r: u8, x: u8, nn: u8)
    requires
        pre.wf(),
        pre.pc + 1 < 4096,
        spec_decode(spec_fetch(pre)) == Some(Op::SneVal(x, nn)),
    ensures
        spec_cycle(pre, r) is Ok,
        (spec_cycle(pre, r)->Ok_0).0.pc == (if pre.v[x as int] != nn {
            pre.pc + 4
        } else {
            pre.pc + 2
        }),
{
    reveal(spec_exec_op);
    lemma_decode_wf(spec_fetch(pre));
}

/// Law: add-with-carry leaves in the flag register exactly the carry bit
/// of the wrapping 8-bit addition, and the wrapped sum in the target.
/// The one excluded target is the flag register itself: there the sum
/// overwrites the flag.
pub proof fn lemma_add_carry_flag(pre: MState, r: u8, x: u8, y: u8)
    requires
        pre.wf(),
        pre.pc + 1 < 4096,
        spec_decode(spec_fetch(pre)) == Some(Op::AddReg(x, y)),
        x != 15,
    ensures
        spec_cycle(pre, r) is Ok,
        (spec_cycle(pre, r)->Ok_0).0.v[15] == (if pre.v[x as int] + pre.v[y as int] > 255 {
            1u8
        } else {
            0u8
        }),
        (spec_cycle(pre, r)->Ok_0).0.v[x as int] == (pre.v[x as int] + pre.v[y as int]) % 256,
{
    reveal(spec_exec_op);
    lemma_decode_wf(spec_fetch(pre));
}

/// Law: subtract-with-borrow (`vx - vy`) leaves in the flag register
/// exactly the borrow bit — one iff the subtraction underflowed — and the
/// wrapped difference in the target, for every target but the flag
/// register itself.
pub proof fn lemma_sub_borrow_flag(pre: MState, r: u8, x: u8, y: u8)
    requires
        pre.wf(),
        pre.pc + 1 < 4096,
        spec_decode(spec_fetch(pre)) == Some(Op::SubReg(x, y)),
        x != 15,
    ensures
        spec_cycle(pre, r) is Ok,
        (spec_cycle(pre, r)->Ok_0).0.v[15] == (if pre.v[x as int] < pre.v[y as int] {
            1u8
        } else {
            0u8
        }),
        (spec_cycle(pre, r)->Ok_0).0.v[x as int] == (pre.v[x as int] - pre.v[y as int]) % 256,
{
    reveal(spec_exec_op);
    lemma_decode_wf(spec_fetch(pre));
}

/// Law: the reversed subtract-with-borrow (`vy - vx`) leaves in the flag
/// register exactly the borrow bit of that ordering, and the wrapped
/// difference in the target, for every target but the flag register
/// itself.
pub proof fn lemma_subn_borrow_flag(pre: MState, r: u8, x: u8, y: u8)
    requires
        pre.wf(),
        pre.pc + 1 < 4096,
        spec_decode(spec_fetch(pre)) == Some(Op::SubnReg(x, y)),
        x != 15,
    ensures
        spec_cycle(pre, r) is Ok,
        (spec_cycle(pre, r)->Ok_0).0.v[15] == (if pre.v[y as int] < pre.v[x as int] {
            1u8
        } else {
            0u8
        }),
        (spec_cycle(pre, r)->Ok_0).0.v[x as int] == (pre.v[y as int] - pre.v[x as int]) % 256,
{
    reveal(spec_exec_op);
    lemma_decode_wf(spec_fetch(pre));
}

/// Law: drawing the same sprite twice at the same position restores the
/// framebuffer exactly: the second draw clears every pixel the first one
/// set and relights every pixel the first one cleared.
pub proof fn lemma_draw_involution(
    screen: Seq<u8>,
    mem: Seq<u8>,
    base: int,
    vx: int,
    vy: int,
    n: int,
)
    ensures
        spec_draw_screen(
            spec_draw_screen(screen, mem, base, vx, vy, n),
            mem,
            base,
            vx,
            vy,
            n,
        ) == screen,
{
    let s1 = spec_draw_screen(screen, mem, base, vx, vy, n);
    let s2 = spec_draw_screen(s1, mem, base, vx, vy, n);
    assert forall|c: int| 0 <= c < screen.len() implies s2[c] == screen[c] by {
        if spec_draw_toggles(mem, base, vx, vy, n, c) {
            let b = screen[c];
            assert((b ^ 1) ^ 1 == b) by (bit_vector);
        }
    }
    assert(s2 =~= screen);
}

/// Law: when a draw reports no collision and the sprite has at least one
/// set bit, drawing the same sprite again at the same position reports a
/// collision: the second draw overlaps the pixels the first one set.
pub proof fn lemma_draw_self_collision(
    screen: Seq<u8>,
    mem: Seq<u8>,
    base: int,
    vx: int,
    vy: int,
    n: int,
)
    requires
        screen.len() == 2048,
        forall|c: int| 0 <= c < 2048 ==> #[trigger] screen[c] <= 1,
        0 <= vx,
        0 <= vy,
        spec_draw_flag(screen, mem, base, vx, vy, n) == 0,
        exists|row: int, col: int|
            0 <= row < n && 0 <= col < 8 && sprite_bit(mem, base, row, col),
    ensures
        spec_draw_flag(spec_draw_screen(screen, mem, base, vx, vy, n), mem, base, vx, vy, n) == 1,
{
    let (row, col) = choose|row: int, col: int|
        0 <= row < n && 0 <= col < 8 && sprite_bit(mem, base, row, col);
    let cell = cell_of(vx, vy, row, col);
    assert(0 <= (vy + row) % 32 < 32 && 0 <= (vx + col) % 64 < 64);
    assert(0 <= cell < 2048);
    let s1 = spec_draw_screen(screen, mem, base, vx, vy, n);
    assert(pair_before(row, col, n, 0));
    assert(!collision_upto(screen, mem, base, vx, vy, n, 0));
    assert(!(screen[cell] & 1 == 1));
    let b = screen[cell];
    assert(b <= 1 && b & 1 != 1 ==> b == 0 && (b ^ 1) & 1 == 1) by (bit_vector);
    assert(spec_draw_toggles(mem, base, vx, vy, n, cell));
    assert(s1[cell] == screen[cell] ^ 1);
    assert(s1[cell] & 1 == 1);
    assert(collision_upto(s1, mem, base, vx, vy, n, 0));
}

} // verus!
