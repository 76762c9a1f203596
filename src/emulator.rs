use vstd::prelude::*;

use crate::constants::{
    FONTSET, FONT_SIZE, NUM_KEYS, NUM_REGS, RAM_SIZE, SCREEN_SIZE, STACK_SIZE, START_ADDR,
};
use crate::instruction::{decode, decoded, Instruction};
use crate::model::{
    advanced, any_key, boot_state, drawn, drawn_screen, executed, is_lowest_key, loaded_ram,
    next_opcode, pixel_of, popped, pushed, runnable, sprite_bit, sprite_collides, sprite_covers,
    stack_top, tick_runnable, ticked, timers_ticked, EmuState,
};

verus! {

/// Relies on rand::random::<u8>: one byte from the thread-local generator.
/// Nothing is known of its value.
#[verifier::external_body]
fn random_byte() -> (r: u8) {
    rand::random::<u8>()
}

/// Whether cell `(r2, c2)` of a sprite comes before cell `(r, c)` in drawing order.
spec fn drawn_before(r2: int, c2: int, r: int, c: int) -> bool {
    r2 < r || (r2 == r && c2 < c)
}

/// Whether a set bit drawn before cell `(r, c)` lands on pixel `p`.
spec fn covered_so_far(s: EmuState, vx: int, vy: int, r: int, c: int, p: int) -> bool {
    exists|r2: int, c2: int|
        0 <= r2 && 0 <= c2 < 8 && drawn_before(r2, c2, r, c) && #[trigger] sprite_bit(s, r2, c2)
            && pixel_of(vx, vy, r2, c2) == p
}

/// Whether a set bit drawn before cell `(r, c)` lands on a pixel that was on.
spec fn collided_so_far(s: EmuState, vx: int, vy: int, r: int, c: int) -> bool {
    exists|r2: int, c2: int|
        0 <= r2 && 0 <= c2 < 8 && drawn_before(r2, c2, r, c) && #[trigger] sprite_bit(s, r2, c2)
            && s.screen[pixel_of(vx, vy, r2, c2)]
}

/// Distinct cells of a sprite of at most 16 rows land on distinct pixels.
proof fn lemma_pixel_of_injective(vx: u32, vy: u32, r1: u32, c1: u32, r2: u32, c2: u32)
    requires
        vx < 256,
        vy < 256,
        r1 < 16,
        r2 < 16,
        c1 < 8,
        c2 < 8,
        (vx + c1) % 64 + 64 * ((vy + r1) % 32) == (vx + c2) % 64 + 64 * ((vy + r2) % 32),
    ensures
        r1 == r2 && c1 == c2,
{
    assert(r1 == r2 && c1 == c2) by (bit_vector)
        requires
            vx < 256,
            vy < 256,
            r1 < 16,
            r2 < 16,
            c1 < 8,
            c2 < 8,
            (vx + c1) % 64 + 64 * ((vy + r1) % 32) == (vx + c2) % 64 + 64 * ((vy + r2) % 32),
    ;
}

/// A CHIP-8 machine: memory, registers, call stack, timers, keypad and framebuffer.
pub struct Emulator {
    pc: u16,
    ram: [u8; RAM_SIZE],
    screen: [bool; SCREEN_SIZE],
    v: [u8; NUM_REGS],
    index_reg: u16,
    stack: [u16; STACK_SIZE],
    stack_ptr: u16,
    sound_timer: u8,
    delay_timer: u8,
    keys: [bool; NUM_KEYS],
}

impl View for Emulator {
    type V = EmuState;

    closed spec fn view(&self) -> EmuState {
        EmuState {
            pc: self.pc,
            ram: self.ram@,
            screen: self.screen@,
            v: self.v@,
            index: self.index_reg,
            stack: self.stack@,
            sp: self.stack_ptr,
            sound: self.sound_timer,
            delay: self.delay_timer,
            keys: self.keys@,
        }
    }
}

impl Emulator {
    /// The framebuffer, row-major: pixel `(x, y)` is at `x + 64 * y`.
    pub fn get_display(&self) -> (r: &[bool])
        ensures
            r@ == self@.screen,
    {
        &self.screen
    }

    /// The value of register `V[x]`.
    pub fn get_register(&self, x: usize) -> (r: u8)
        requires
            x < 16,
        ensures
            r == self@.v[x as int],
    {
        self.v[x]
    }

    /// The program counter.
    pub fn get_pc(&self) -> (r: u16)
        ensures
            r == self@.pc,
    {
        self.pc
    }

    /// The index register.
    pub fn get_index(&self) -> (r: u16)
        ensures
            r == self@.index,
    {
        self.index_reg
    }

    /// The number of return addresses on the call stack.
    pub fn get_stack_depth(&self) -> (r: u16)
        ensures
            r == self@.sp,
    {
        self.stack_ptr
    }

    /// The delay timer.
    pub fn get_delay_timer(&self) -> (r: u8)
        ensures
            r == self@.delay,
    {
        self.delay_timer
    }

    /// The sound timer.
    pub fn get_sound_timer(&self) -> (r: u8)
        ensures
            r == self@.sound,
    {
        self.sound_timer
    }

    /// The byte at memory address `addr`.
    pub fn get_memory(&self, addr: usize) -> (r: u8)
        requires
            addr < 4096,
        ensures
            r == self@.ram[addr as int],
    {
        self.ram[addr]
    }

    /// Records whether key `idx` is down.
    pub fn keypress(&mut self, idx: usize, pressed: bool)
        requires
            idx < 16,
        ensures
            final(self)@ == (EmuState { keys: old(self)@.keys.update(idx as int, pressed), ..old(self)@ }),
    {
        self.keys[idx] = pressed;
    }

    /// Copies a program into memory from address `0x200` on.
    pub fn load_game(&mut self, data: &[u8])
        requires
            data@.len() <= 3584,
        ensures
            final(self)@ == (EmuState { ram: loaded_ram(old(self)@.ram, data@), ..old(self)@ }),
    {
        let ghost s0 = self@;
        let start: usize = START_ADDR as usize;
        let mut i: usize = 0;
        assert(self.ram@ =~= Seq::new(
            4096,
            |j: int| if 0x200 <= j < 0x200 + i { data@[j - 0x200] } else { s0.ram[j] },
        ));
        while i < data.len()
            invariant
                i <= data@.len() <= 3584,
                start == 0x200,
                self@ == (EmuState {
                    ram: Seq::new(
                        4096,
                        |j: int| if 0x200 <= j < 0x200 + i { data@[j - 0x200] } else { s0.ram[j] },
                    ),
                    ..s0
                }),
            decreases data@.len() - i,
        {
            self.ram[start + i] = data[i];
            i = i + 1;
            assert(self.ram@ =~= Seq::new(
                4096,
                |j: int| if 0x200 <= j < 0x200 + i { data@[j - 0x200] } else { s0.ram[j] },
            ));
        }
        assert(self.ram@ =~= loaded_ram(s0.ram, data@));
    }

    /// A machine with the font set in memory, `PC` at `0x200`, and all else zero.
    pub fn new() -> (r: Self)
        ensures
            r@ == boot_state(),
            r@.wf(),
    {
        let mut e = Emulator {
            pc: START_ADDR,
            ram: [0u8; RAM_SIZE],
            screen: [false; SCREEN_SIZE],
            v: [0u8; NUM_REGS],
            index_reg: 0,
            stack: [0u16; STACK_SIZE],
            stack_ptr: 0,
            sound_timer: 0,
            delay_timer: 0,
            keys: [false; NUM_KEYS],
        };
        let mut i: usize = 0;
        while i < FONT_SIZE
            invariant
                i <= 80,
                e.pc == 0x200,
                e.index_reg == 0,
                e.stack_ptr == 0,
                e.sound_timer == 0,
                e.delay_timer == 0,
                e.screen@ == Seq::new(2048, |j: int| false),
                e.v@ == Seq::new(16, |j: int| 0u8),
                e.stack@ == Seq::new(16, |j: int| 0u16),
                e.keys@ == Seq::new(16, |j: int| false),
                e.ram@ == Seq::new(4096, |j: int| if j < i { FONTSET@[j] } else { 0u8 }),
            decreases 80 - i,
        {
            e.ram[i] = FONTSET[i];
            i = i + 1;
            assert(e.ram@ =~= Seq::new(4096, |j: int| if j < i { FONTSET@[j] } else { 0u8 }));
        }
        assert(e@.ram =~= boot_state().ram);
        e
    }

    /// Pushes a return address onto the call stack.
    pub fn push(&mut self, val: u16)
        requires
            old(self)@.wf(),
            old(self)@.sp < 16,
        ensures
            final(self)@ == pushed(old(self)@, val),
            final(self)@.wf(),
    {
        self.stack[self.stack_ptr as usize] = val;
        self.stack_ptr = self.stack_ptr + 1;
    }

    /// Pops the return address on top of the call stack.
    pub fn pop(&mut self) -> (r: u16)
        requires
            old(self)@.wf(),
            old(self)@.sp > 0,
        ensures
            r == stack_top(old(self)@),
            final(self)@ == popped(old(self)@),
            final(self)@.wf(),
    {
        self.stack_ptr = self.stack_ptr - 1;
        self.stack[self.stack_ptr as usize]
    }

    /// Reads the big-endian opcode at `PC` and moves `PC` past it.
    pub fn fetch(&mut self) -> (op: u16)
        requires
            old(self)@.pc + 1 < 4096,
        ensures
            op == next_opcode(old(self)@),
            final(self)@ == advanced(old(self)@),
    {
        let high: u16 = self.ram[self.pc as usize] as u16;
        let low: u16 = self.ram[(self.pc + 1) as usize] as u16;
        let op: u16 = (high << 8) | low;
        assert((high << 8) | low == high * 256 + low) by (bit_vector)
            requires
                high < 256,
                low < 256,
        ;
        self.pc = self.pc + 2;
        op
    }

    /// Draws the `n`-row sprite at the index register onto `(V[x], V[y])`,
    /// wrapping at the edges, and sets `VF` to whether it hit a lit pixel.
    fn draw_sprite(&mut self, x: usize, y: usize, n: usize)
        requires
            old(self)@.wf(),
            x < 16,
            y < 16,
            n < 16,
            n == 0 || old(self)@.index + n <= 4096,
        ensures
            final(self)@ == drawn(old(self)@, x as int, y as int, n as int),
    {
        let ghost s0 = self@;
        let vx: usize = self.v[x] as usize;
        let vy: usize = self.v[y] as usize;
        let base: usize = self.index_reg as usize;
        let mut hit = false;
        let mut r: usize = 0;
        while r < n
            invariant
                s0.wf(),
                x < 16,
                y < 16,
                n < 16,
                r <= n,
                n == 0 || s0.index + n <= 4096,
                base == s0.index,
                vx == s0.v[x as int],
                vy == s0.v[y as int],
                self@ == (EmuState { screen: self.screen@, ..s0 }),
                forall|p: int|
                    0 <= p < 2048 ==> #[trigger] self.screen@[p] == (s0.screen[p]
                        || covered_so_far(s0, vx as int, vy as int, r as int, 0, p)),
                hit == collided_so_far(s0, vx as int, vy as int, r as int, 0),
            decreases n - r,
        {
            let row: u8 = self.ram[base + r];
            let mut c: usize = 0;
            while c < 8
                invariant
                    s0.wf(),
                    n < 16,
                    r < n,
                    c <= 8,
                    n == 0 || s0.index + n <= 4096,
                    base == s0.index,
                    row == s0.ram[s0.index + r],
                    vx == s0.v[x as int],
                    vy == s0.v[y as int],
                    self@ == (EmuState { screen: self.screen@, ..s0 }),
                    forall|p: int|
                        0 <= p < 2048 ==> #[trigger] self.screen@[p] == (s0.screen[p]
                            || covered_so_far(s0, vx as int, vy as int, r as int, c as int, p)),
                    hit == collided_so_far(s0, vx as int, vy as int, r as int, c as int),
                decreases 8 - c,
            {
                let ghost prev = self.screen@;
                let ghost before_hit = hit;
                if row & (0x80u8 >> (c as u8)) != 0 {
                    let idx: usize = (vx + c) % 64 + 64 * ((vy + r) % 32);
                    assert(sprite_bit(s0, r as int, c as int));
                    assert(idx == pixel_of(vx as int, vy as int, r as int, c as int));
                    assert(!covered_so_far(s0, vx as int, vy as int, r as int, c as int, idx as int))
                        by {
                        if covered_so_far(s0, vx as int, vy as int, r as int, c as int, idx as int) {
                            let (r2, c2) = choose|r2: int, c2: int|
                                0 <= r2 && 0 <= c2 < 8 && drawn_before(r2, c2, r as int, c as int)
                                    && #[trigger] sprite_bit(s0, r2, c2) && pixel_of(
                                    vx as int,
                                    vy as int,
                                    r2,
                                    c2,
                                ) == idx as int;
                            lemma_pixel_of_injective(
                                vx as u32,
                                vy as u32,
                                r as u32,
                                c as u32,
                                r2 as u32,
                                c2 as u32,
                            );
                        }
                    }
                    hit = hit || self.screen[idx];
                    self.screen[idx] = true;
                    assert forall|p: int| 0 <= p < 2048 implies #[trigger] self.screen@[p] == (
                    s0.screen[p] || covered_so_far(
                        s0,
                        vx as int,
                        vy as int,
                        r as int,
                        c + 1,
                        p,
                    )) by {
                        if covered_so_far(s0, vx as int, vy as int, r as int, c + 1, p) && p
                            != idx {
                            let (r2, c2) = choose|r2: int, c2: int|
                                0 <= r2 && 0 <= c2 < 8 && drawn_before(r2, c2, r as int, c + 1)
                                    && #[trigger] sprite_bit(s0, r2, c2) && pixel_of(
                                    vx as int,
                                    vy as int,
                                    r2,
                                    c2,
                                ) == p;
                            assert(drawn_before(r2, c2, r as int, c as int));
                        }
                        if covered_so_far(s0, vx as int, vy as int, r as int, c as int, p) {
                            let (r2, c2) = choose|r2: int, c2: int|
                                0 <= r2 && 0 <= c2 < 8 && drawn_before(r2, c2, r as int, c as int)
                                    && #[trigger] sprite_bit(s0, r2, c2) && pixel_of(
                                    vx as int,
                                    vy as int,
                                    r2,
                                    c2,
                                ) == p;
                            assert(drawn_before(r2, c2, r as int, c + 1));
                        }
                    }
                    assert(hit == collided_so_far(s0, vx as int, vy as int, r as int, c + 1)) by {
                        if collided_so_far(s0, vx as int, vy as int, r as int, c + 1)
                            && !before_hit {
                            let (r2, c2) = choose|r2: int, c2: int|
                                0 <= r2 && 0 <= c2 < 8 && drawn_before(r2, c2, r as int, c + 1)
                                    && #[trigger] sprite_bit(s0, r2, c2) && s0.screen[pixel_of(
                                    vx as int,
                                    vy as int,
                                    r2,
                                    c2,
                                )];
                            if drawn_before(r2, c2, r as int, c as int) {
                            } else {
                                assert(r2 == r && c2 == c);
                            }
                        }
                        if before_hit {
                            let (r2, c2) = choose|r2: int, c2: int|
                                0 <= r2 && 0 <= c2 < 8 && drawn_before(r2, c2, r as int, c as int)
                                    && #[trigger] sprite_bit(s0, r2, c2) && s0.screen[pixel_of(
                                    vx as int,
                                    vy as int,
                                    r2,
                                    c2,
                                )];
                            assert(drawn_before(r2, c2, r as int, c + 1));
                        }
                    }
                } else {
                    assert(!sprite_bit(s0, r as int, c as int));
                    assert forall|p: int| 0 <= p < 2048 implies covered_so_far(
                        s0,
                        vx as int,
                        vy as int,
                        r as int,
                        c + 1,
                        p,
                    ) == covered_so_far(s0, vx as int, vy as int, r as int, c as int, p) by {
                        if covered_so_far(s0, vx as int, vy as int, r as int, c + 1, p) {
                            let (r2, c2) = choose|r2: int, c2: int|
                                0 <= r2 && 0 <= c2 < 8 && drawn_before(r2, c2, r as int, c + 1)
                                    && #[trigger] sprite_bit(s0, r2, c2) && pixel_of(
                                    vx as int,
                                    vy as int,
                                    r2,
                                    c2,
                                ) == p;
                            assert(drawn_before(r2, c2, r as int, c as int));
                        }
                        if covered_so_far(s0, vx as int, vy as int, r as int, c as int, p) {
                            let (r2, c2) = choose|r2: int, c2: int|
                                0 <= r2 && 0 <= c2 < 8 && drawn_before(r2, c2, r as int, c as int)
                                    && #[trigger] sprite_bit(s0, r2, c2) && pixel_of(
                                    vx as int,
                                    vy as int,
                                    r2,
                                    c2,
                                ) == p;
                            assert(drawn_before(r2, c2, r as int, c + 1));
                        }
                    }
                    assert(hit == collided_so_far(s0, vx as int, vy as int, r as int, c + 1)) by {
                        if collided_so_far(s0, vx as int, vy as int, r as int, c + 1) {
                            let (r2, c2) = choose|r2: int, c2: int|
                                0 <= r2 && 0 <= c2 < 8 && drawn_before(r2, c2, r as int, c + 1)
                                    && #[trigger] sprite_bit(s0, r2, c2) && s0.screen[pixel_of(
                                    vx as int,
                                    vy as int,
                                    r2,
                                    c2,
                                )];
                            assert(drawn_before(r2, c2, r as int, c as int));
                        }
                        if hit {
                            let (r2, c2) = choose|r2: int, c2: int|
                                0 <= r2 && 0 <= c2 < 8 && drawn_before(r2, c2, r as int, c as int)
                                    && #[trigger] sprite_bit(s0, r2, c2) && s0.screen[pixel_of(
                                    vx as int,
                                    vy as int,
                                    r2,
                                    c2,
                                )];
                            assert(drawn_before(r2, c2, r as int, c + 1));
                        }
                    }
                }
                c = c + 1;
            }
            assert forall|p: int| 0 <= p < 2048 implies covered_so_far(
                s0,
                vx as int,
                vy as int,
                r as int,
                8,
                p,
            ) == covered_so_far(s0, vx as int, vy as int, r + 1, 0, p) by {
                if covered_so_far(s0, vx as int, vy as int, r as int, 8, p) {
                    let (r2, c2) = choose|r2: int, c2: int|
                        0 <= r2 && 0 <= c2 < 8 && drawn_before(r2, c2, r as int, 8)
                            && #[trigger] sprite_bit(s0, r2, c2) && pixel_of(
                            vx as int,
                            vy as int,
                            r2,
                            c2,
                        ) == p;
                    assert(drawn_before(r2, c2, r + 1, 0));
                }
                if covered_so_far(s0, vx as int, vy as int, r + 1, 0, p) {
                    let (r2, c2) = choose|r2: int, c2: int|
                        0 <= r2 && 0 <= c2 < 8 && drawn_before(r2, c2, r + 1, 0)
                            && #[trigger] sprite_bit(s0, r2, c2) && pixel_of(
                            vx as int,
                            vy as int,
                            r2,
                            c2,
                        ) == p;
                    assert(drawn_before(r2, c2, r as int, 8));
                }
            }
            assert(collided_so_far(s0, vx as int, vy as int, r as int, 8) == collided_so_far(
                s0,
                vx as int,
                vy as int,
                r + 1,
                0,
            )) by {
                if collided_so_far(s0, vx as int, vy as int, r as int, 8) {
                    let (r2, c2) = choose|r2: int, c2: int|
                        0 <= r2 && 0 <= c2 < 8 && drawn_before(r2, c2, r as int, 8)
                            && #[trigger] sprite_bit(s0, r2, c2) && s0.screen[pixel_of(
                            vx as int,
                            vy as int,
                            r2,
                            c2,
                        )];
                    assert(drawn_before(r2, c2, r + 1, 0));
                }
                if collided_so_far(s0, vx as int, vy as int, r + 1, 0) {
                    let (r2, c2) = choose|r2: int, c2: int|
                        0 <= r2 && 0 <= c2 < 8 && drawn_before(r2, c2, r + 1, 0)
                            && #[trigger] sprite_bit(s0, r2, c2) && s0.screen[pixel_of(
                            vx as int,
                            vy as int,
                            r2,
                            c2,
                        )];
                    assert(drawn_before(r2, c2, r as int, 8));
                }
            }
            r = r + 1;
        }
        self.v[15] = if hit {
            1
        } else {
            0
        };
        assert(hit == sprite_collides(s0, vx as int, vy as int, n as int)) by {
            if hit {
                let (r2, c2) = choose|r2: int, c2: int|
                    0 <= r2 && 0 <= c2 < 8 && drawn_before(r2, c2, n as int, 0)
                        && #[trigger] sprite_bit(s0, r2, c2) && s0.screen[pixel_of(
                        vx as int,
                        vy as int,
                        r2,
                        c2,
                    )];
                assert(0 <= r2 < n);
            }
            if sprite_collides(s0, vx as int, vy as int, n as int) {
                let (r2, c2) = choose|r2: int, c2: int|
                    0 <= r2 < n && 0 <= c2 < 8 && #[trigger] sprite_bit(s0, r2, c2)
                        && s0.screen[pixel_of(vx as int, vy as int, r2, c2)];
                assert(drawn_before(r2, c2, n as int, 0));
            }
        }
        assert forall|p: int| 0 <= p < 2048 implies covered_so_far(
            s0,
            vx as int,
            vy as int,
            n as int,
            0,
            p,
        ) == sprite_covers(s0, vx as int, vy as int, n as int, p) by {
            if covered_so_far(s0, vx as int, vy as int, n as int, 0, p) {
                let (r2, c2) = choose|r2: int, c2: int|
                    0 <= r2 && 0 <= c2 < 8 && drawn_before(r2, c2, n as int, 0)
                        && #[trigger] sprite_bit(s0, r2, c2) && pixel_of(
                        vx as int,
                        vy as int,
                        r2,
                        c2,
                    ) == p;
                assert(0 <= r2 < n);
            }
            if sprite_covers(s0, vx as int, vy as int, n as int, p) {
                let (r2, c2) = choose|r2: int, c2: int|
                    0 <= r2 < n && 0 <= c2 < 8 && #[trigger] sprite_bit(s0, r2, c2) && pixel_of(
                        vx as int,
                        vy as int,
                        r2,
                        c2,
                    ) == p;
                assert(drawn_before(r2, c2, n as int, 0));
            }
        }
        assert(self.screen@ =~= drawn_screen(s0, vx as int, vy as int, n as int));
    }

    /// The lowest key that is down, if any.
    fn lowest_key(&self) -> (r: Option<usize>)
        ensures
            match r {
                Some(k) => is_lowest_key(self@.keys, k as int),
                None => !any_key(self@.keys),
            },
    {
        let mut i: usize = 0;
        while i < NUM_KEYS
            invariant
                i <= 16,
                forall|j: int| 0 <= j < i ==> !#[trigger] self@.keys[j],
            decreases 16 - i,
        {
            if self.keys[i] {
                return Some(i);
            }
            i = i + 1;
        }
        None
    }

    /// Runs a stack, jump or skip instruction.
    fn exec_control(&mut self, ins: Instruction)
        requires
            old(self)@.wf(),
            ins.wf(),
            ins.is_control(),
            runnable(old(self)@, ins),
        ensures
            final(self)@ == executed(old(self)@, ins, 0),
            final(self)@.wf(),
    {
        match ins {
            Instruction::Nop => {},
            Instruction::ClearScreen => {
                self.screen = [false; SCREEN_SIZE];
                assert(self.screen@ =~= Seq::new(2048, |i: int| false));
            },
            Instruction::Return => {
                let ret = self.pop();
                self.pc = ret;
            },
            Instruction::Jump { addr } => {
                self.pc = addr;
            },
            Instruction::Call { addr } => {
                let here = self.pc;
                self.push(here);
                self.pc = addr;
            },
            Instruction::SkipEqImm { x, nn } => {
                if self.v[x] == nn {
                    self.pc = self.pc + 2;
                }
            },
            Instruction::SkipNeImm { x, nn } => {
                if self.v[x] != nn {
                    self.pc = self.pc + 2;
                }
            },
            Instruction::SkipEqReg { x, y } => {
                if self.v[x] == self.v[y] {
                    self.pc = self.pc + 2;
                }
            },
            Instruction::SkipNeReg { x, y } => {
                if self.v[x] != self.v[y] {
                    self.pc = self.pc + 2;
                }
            },
            Instruction::JumpOffset { addr } => {
                self.pc = self.v[0] as u16 + addr;
            },
            Instruction::SkipKey { x } => {
                let k = self.v[x] as usize;
                if self.keys[k] {
                    self.pc = self.pc + 2;
                }
            },
            Instruction::SkipNotKey { x } => {
                let k = self.v[x] as usize;
                if !self.keys[k] {
                    self.pc = self.pc + 2;
                }
            },
            _ => {},
        }
    }

    /// Runs an instruction that computes a register value.
    fn exec_arith(&mut self, ins: Instruction, rnd: u8)
        requires
            old(self)@.wf(),
            ins.wf(),
            ins.is_arith(),
            runnable(old(self)@, ins),
        ensures
            final(self)@ == executed(old(self)@, ins, rnd),
            final(self)@.wf(),
    {
        match ins {
            Instruction::LoadImm { x, nn } => {
                self.v[x] = nn;
            },
            Instruction::AddImm { x, nn } => {
                self.v[x] = self.v[x].wrapping_add(nn);
            },
            Instruction::Move { x, y } => {
                self.v[x] = self.v[y];
            },
            Instruction::Or { x, y } => {
                self.v[x] = self.v[x] | self.v[y];
            },
            Instruction::AddReg { x, y } => {
                let a = self.v[x];
                let b = self.v[y];
                let carry: u8 = if a as u16 + b as u16 > 255 {
                    1
                } else {
                    0
                };
                self.v[x] = a.wrapping_add(b);
                self.v[15] = carry;
            },
            Instruction::SubReg { x, y } => {
                let a = self.v[x];
                let b = self.v[y];
                let no_borrow: u8 = if a < b {
                    0
                } else {
                    1
                };
                self.v[x] = a.wrapping_sub(b);
                self.v[15] = no_borrow;
            },
            Instruction::ShiftRight { x } => {
                let a = self.v[x];
                assert(a >> 1 == a / 2 && a & 1 == a % 2) by (bit_vector);
                self.v[x] = a >> 1;
                self.v[15] = a & 1;
            },
            Instruction::SubReverse { x, y } => {
                let a = self.v[x];
                let b = self.v[y];
                let no_borrow: u8 = if b < a {
                    0
                } else {
                    1
                };
                self.v[x] = b.wrapping_sub(a);
                self.v[15] = no_borrow;
            },
            Instruction::ShiftLeft { x } => {
                let a = self.v[x];
                assert(a << 1 == (a * 2) % 256 && (a >> 7) & 1 == a / 128) by (bit_vector);
                self.v[x] = a << 1;
                self.v[15] = (a >> 7) & 1;
            },
            Instruction::Random { x, nn } => {
                self.v[x] = rnd & nn;
            },
            _ => {},
        }
    }

    /// Runs a memory, timer, keypad or drawing instruction.
    fn exec_other(&mut self, ins: Instruction)
        requires
            old(self)@.wf(),
            ins.wf(),
            !ins.is_control() && !ins.is_arith(),
            runnable(old(self)@, ins),
        ensures
            final(self)@ == executed(old(self)@, ins, 0),
            final(self)@.wf(),
    {
        let ghost s0 = self@;
        match ins {
            Instruction::LoadIndex { addr } => {
                self.index_reg = addr;
            },
            Instruction::Draw { x, y, n } => {
                self.draw_sprite(x, y, n);
            },
            Instruction::LoadDelay { x } => {
                self.v[x] = self.delay_timer;
            },
            Instruction::WaitKey { x } => {
                match self.lowest_key() {
                    Some(k) => {
                        proof {
                            let c = choose|j: int| is_lowest_key(s0.keys, j);
                            assert(is_lowest_key(s0.keys, c));
                            assert(c == k);
                        }
                        self.v[x] = k as u8;
                    },
                    None => {
                        self.pc = self.pc + 2;
                    },
                }
            },
            Instruction::SetDelay { x } => {
                self.delay_timer = self.v[x];
            },
            Instruction::SetSound { x } => {
                self.sound_timer = self.v[x];
            },
            Instruction::AddIndex { x } => {
                self.index_reg = self.index_reg.wrapping_add(self.v[x] as u16);
            },
            Instruction::LoadFont { x } => {
                self.index_reg = (self.v[x] as u16) * 5;
            },
            _ => {},
        }
    }

    /// Executes one decoded opcode, `PC` being already past it; `rnd` is the
    /// byte that `CXNN` masks.
    pub fn execute_with_random(&mut self, opcode: u16, rnd: u8)
        requires
            old(self)@.wf(),
            runnable(old(self)@, decoded(opcode)),
        ensures
            final(self)@ == executed(old(self)@, decoded(opcode), rnd),
            final(self)@.wf(),
    {
        let ins = decode(opcode);
        match ins {
            Instruction::Nop
            | Instruction::ClearScreen
            | Instruction::Return
            | Instruction::Jump { .. }
            | Instruction::Call { .. }
            | Instruction::JumpOffset { .. }
            | Instruction::SkipEqImm { .. }
            | Instruction::SkipNeImm { .. }
            | Instruction::SkipEqReg { .. }
            | Instruction::SkipNeReg { .. }
            | Instruction::SkipKey { .. }
            | Instruction::SkipNotKey { .. } => self.exec_control(ins),
            Instruction::LoadImm { .. }
            | Instruction::AddImm { .. }
            | Instruction::Move { .. }
            | Instruction::Or { .. }
            | Instruction::AddReg { .. }
            | Instruction::SubReg { .. }
            | Instruction::ShiftRight { .. }
            | Instruction::SubReverse { .. }
            | Instruction::ShiftLeft { .. }
            | Instruction::Random { .. } => self.exec_arith(ins, rnd),
            _ => self.exec_other(ins),
        }
    }

    /// Executes one opcode, `PC` being already past it. `CXNN` draws its
    /// random byte here; every other opcode is fully determined.
    pub fn execute(&mut self, opcode: u16)
        requires
            old(self)@.wf(),
            runnable(old(self)@, decoded(opcode)),
        ensures
            exists|rnd: u8| final(self)@ == executed(old(self)@, decoded(opcode), rnd),
            !(decoded(opcode) is Random) ==> final(self)@ == executed(old(self)@, decoded(opcode), 0),
            final(self)@.wf(),
    {
        let rnd: u8 = if opcode & 0xF000 == 0xC000 {
            random_byte()
        } else {
            0
        };
        self.execute_with_random(opcode, rnd);
    }

    /// Whether the next instruction cycle can run: its opcode lies in memory,
    /// is known, and neither overflows nor underflows the stack nor reads
    /// outside memory or the keypad.
    pub fn can_tick(&self) -> (r: bool)
        requires
            self@.wf(),
        ensures
            r == tick_runnable(self@),
    {
        if self.pc >= 4095 {
            return false;
        }
        let high: u16 = self.ram[self.pc as usize] as u16;
        let low: u16 = self.ram[(self.pc + 1) as usize] as u16;
        let op: u16 = (high << 8) | low;
        assert((high << 8) | low == high * 256 + low) by (bit_vector)
            requires
                high < 256,
                low < 256,
        ;
        let after: u16 = self.pc + 2;
        match decode(op) {
            Instruction::Return => self.stack_ptr > 0,
            Instruction::Call { .. } => self.stack_ptr < 16,
            Instruction::SkipEqImm { .. }
            | Instruction::SkipNeImm { .. }
            | Instruction::SkipEqReg { .. }
            | Instruction::SkipNeReg { .. }
            | Instruction::WaitKey { .. } => after <= 0xFFFD,
            Instruction::SkipKey { x } | Instruction::SkipNotKey { x } => self.v[x] < 16 && after
                <= 0xFFFD,
            Instruction::Draw { n, .. } => n == 0 || self.index_reg as usize + n <= 4096,
            Instruction::Unknown { .. } => false,
            _ => true,
        }
    }

    /// Runs one instruction cycle: fetches the opcode at `PC`, then executes it.
    pub fn tick(&mut self)
        requires
            old(self)@.wf(),
            tick_runnable(old(self)@),
        ensures
            exists|rnd: u8| final(self)@ == ticked(old(self)@, rnd),
            !(decoded(next_opcode(old(self)@)) is Random) ==> final(self)@ == ticked(old(self)@, 0),
            final(self)@.wf(),
    {
        let ghost s0 = self@;
        let opcode = self.fetch();
        self.execute(opcode);
        proof {
            let rnd = choose|rnd: u8| self@ == executed(advanced(s0), decoded(opcode), rnd);
            assert(self@ == ticked(s0, rnd));
        }
    }

    /// Moves both timers one step closer to zero; neither goes below zero.
    pub fn tick_timers(&mut self)
        ensures
            final(self)@ == timers_ticked(old(self)@),
    {
        if self.delay_timer > 0 {
            self.delay_timer = self.delay_timer - 1;
        }
        if self.sound_timer > 0 {
            self.sound_timer = self.sound_timer - 1;
        }
    }
}

} // verus!
