use vstd::prelude::*;

use crate::instruction::{decoded, Instruction};
use crate::model::{
    drawn, next_opcode, pixel_of, popped, pushed, runnable, sprite_bit, sprite_collides, sprite_covers, stack_top,
    ticked, EmuState,
};

verus! {

/// The state after pushing each value of `vals` in turn.
pub open spec fn pushed_all(s: EmuState, vals: Seq<u16>) -> EmuState
    decreases vals.len(),
{
    if vals.len() == 0 {
        s
    } else {
        pushed(pushed_all(s, vals.drop_last()), vals.last())
    }
}

/// The call stack is last in, first out: after pushing `a` then `b`, the first
/// pop returns `b`, the second returns `a`, and the depth is back where it was.
pub proof fn lemma_stack_lifo(s: EmuState, a: u16, b: u16)
    requires
        s.wf(),
        s.sp + 2 <= 16,
    ensures
        stack_top(pushed(pushed(s, a), b)) == b,
        stack_top(popped(pushed(pushed(s, a), b))) == a,
        popped(popped(pushed(pushed(s, a), b))).sp == s.sp,
        popped(popped(pushed(pushed(s, a), b))).wf(),
{
}

/// Each push deepens the stack by one: sixteen pushes onto an empty stack fill
/// it, after which a call cannot run; and a return cannot run on an empty stack.
pub proof fn lemma_stack_bounds(s: EmuState, vals: Seq<u16>, addr: u16)
    requires
        s.wf(),
        s.sp == 0,
        vals.len() == 16,
    ensures
        pushed_all(s, vals).sp == 16,
        pushed_all(s, vals).wf(),
        !runnable(pushed_all(s, vals), Instruction::Call { addr }),
        !runnable(s, Instruction::Return),
{
    lemma_pushed_all_depth(s, vals);
}

/// Pushing `vals` onto an empty stack leaves `vals.len()` entries.
proof fn lemma_pushed_all_depth(s: EmuState, vals: Seq<u16>)
    requires
        s.wf(),
        s.sp == 0,
        vals.len() <= 16,
    ensures
        pushed_all(s, vals).sp == vals.len(),
        pushed_all(s, vals).wf(),
    decreases vals.len(),
{
    if vals.len() > 0 {
        lemma_pushed_all_depth(s, vals.drop_last());
    }
}

/// An instruction cycle on `00E0` turns every pixel off, so the display then
/// reads all-false.
pub proof fn lemma_clear_blanks_screen(s: EmuState, rnd: u8)
    requires
        s.wf(),
        next_opcode(s) == 0x00E0,
    ensures
        ticked(s, rnd).screen.len() == 2048,
        forall|p: int| 0 <= p < 2048 ==> !#[trigger] ticked(s, rnd).screen[p],
{
    assert(decoded(0x00E0) == Instruction::ClearScreen);
}

/// Drawing never turns a pixel off: drawing the same sprite at the same place
/// a second time leaves the screen as the first draw left it, and reports a
/// collision whenever the sprite has a set bit. The sprite's position must not
/// be held in `VF`, which the first draw overwrites.
pub proof fn lemma_redraw_collides(s: EmuState, x: int, y: int, n: int, r: int, c: int)
    requires
        s.wf(),
        0 <= x < 15,
        0 <= y < 15,
        0 <= r < n < 16,
        0 <= c < 8,
        s.index + n <= 4096,
        sprite_bit(s, r, c),
    ensures
        drawn(drawn(s, x, y, n), x, y, n).screen == drawn(s, x, y, n).screen,
        drawn(drawn(s, x, y, n), x, y, n).v[15] == 1,
{
    let t = drawn(s, x, y, n);
    let vx = s.v[x] as int;
    let vy = s.v[y] as int;
    assert(t.v[x] == s.v[x] && t.v[y] == s.v[y]);
    assert forall|r2: int, c2: int| #[trigger] sprite_bit(t, r2, c2) == sprite_bit(s, r2, c2) by {}
    let p = pixel_of(vx, vy, r, c);
    assert(0 <= p < 2048);
    assert(sprite_covers(s, vx, vy, n, p));
    assert(t.screen[p]);
    assert(sprite_bit(t, r, c));
    assert(sprite_collides(t, vx, vy, n));
    assert forall|q: int| 0 <= q < 2048 && #[trigger] sprite_covers(t, vx, vy, n, q) implies t.screen[q] by {
        {
            let (r2, c2) = choose|r2: int, c2: int|
                0 <= r2 < n && 0 <= c2 < 8 && #[trigger] sprite_bit(t, r2, c2) && pixel_of(
                    vx,
                    vy,
                    r2,
                    c2,
                ) == q;
            assert(sprite_bit(s, r2, c2));
            assert(sprite_covers(s, vx, vy, n, q));
        }
    }
    assert(drawn(t, x, y, n).screen =~= t.screen);
}

} // verus!
