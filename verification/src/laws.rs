//! What holds of the machine across instructions, proved over the model
//! that the interpreter's contracts are stated in.

use vstd::prelude::*;
use crate::cpu::FLAG_REGISTER;
use crate::events::KEY_COUNT;
use crate::machine::{
    counted_down, flag, lowest_pressed, lowest_pressed_from, performed, skips, step,
    stored_digits, Machine,
};
use crate::opcode::{decoded, lemma_decode_encode, lemma_encode_decode, Instruction};
use crate::screen::{
    draw_collides, drawn_screen, lemma_sprite_position, pixel_index, sprite_bit, sprite_col,
    sprite_covers, sprite_row, HEIGHT, MAX_SPRITE_HEIGHT, PIXEL_COUNT, SPRITE_WIDTH, WIDTH,
};

verus! {

/// The body of an instruction never moves the program counter: only the
/// effect it declares does, applied once, after the body.
pub proof fn lemma_body_leaves_pc(m: Machine, instruction: Instruction, random_byte: u8)
    ensures
        performed(m, instruction, random_byte).pc == m.pc,
{
}

/// A step takes a well-formed state to a well-formed state.
pub proof fn lemma_step_preserves_wf(m: Machine, opcode: u16, random_byte: u8)
    requires
        m.wf(),
    ensures
        step(m, opcode, random_byte) matches Ok(next) ==> next.wf(),
{
    lemma_encode_decode(opcode);
}

/// An instruction that runs to completion and is no jump, call or return
/// moves the program counter on by exactly 2, or by exactly 4 when it is a
/// skip whose condition holds. A wait for a key has not run to completion
/// while it leaves the machine waiting.
pub proof fn lemma_pc_advances(m: Machine, opcode: u16, random_byte: u8)
    requires
        m.wf(),
    ensures
        step(m, opcode, random_byte) matches Ok(next) ==> decoded(opcode) matches Some(i) && (
        !i.transfers_control() && !next.awaiting_key ==> next.pc == m.pc + if skips(m, i) {
            4int
        } else {
            2int
        }),
{
}

/// Whether a drawing lit a pixel: some pixel is lit in `after` that was
/// dark in `before`.
pub open spec fn lit_any(before: Seq<bool>, after: Seq<bool>) -> bool {
    exists|k: int| 0 <= k < PIXEL_COUNT && !before[k] && #[trigger] after[k]
}

/// Drawing right after clearing the screen erases nothing: whatever the
/// sprite, VF is 0 afterwards.
pub proof fn lemma_draw_after_clear(m: Machine, draw: u16, first_byte: u8, second_byte: u8)
    requires
        m.wf(),
        decoded(draw) matches Some(i) && i is Drw,
    ensures
        step(m, 0x00E0, first_byte) matches Ok(cleared) ==> (step(cleared, draw, second_byte)
            matches Ok(drawn) ==> drawn.v[FLAG_REGISTER as int] == 0),
{
    lemma_encode_decode(draw);
    lemma_decode_encode(Instruction::Cls);
}

/// Drawing the same sprite at the same place twice puts the screen back as
/// it was, and the second drawing reports a collision exactly when the
/// first lit a pixel. "The same place" asks that Vx and Vy hold at the
/// second drawing what they held at the first, which the first can only
/// disturb by writing VF.
pub proof fn lemma_draw_twice(m: Machine, draw: u16, first_byte: u8, second_byte: u8)
    requires
        m.wf(),
        decoded(draw) matches Some(i) && i is Drw,
    ensures
        step(m, draw, first_byte) matches Ok(first) ==> (step(first, draw, second_byte) matches Ok(
            second,
        ) ==> (decoded(draw) matches Some(Instruction::Drw { x, y, n }) ==> (first.reg(x) == m.reg(
            x,
        ) && first.reg(y) == m.reg(y) ==> second.screen == m.screen && second.v[FLAG_REGISTER as int]
            == flag(lit_any(m.screen, first.screen))))),
{
    lemma_encode_decode(draw);
    if let Ok(first) = step(m, draw, first_byte) {
        if let Ok(second) = step(first, draw, second_byte) {
            if let Some(Instruction::Drw { x, y, n }) = decoded(draw) {
                if first.reg(x) == m.reg(x) && first.reg(y) == m.reg(y) {
                    let i = m.i as int;
                    let vx = m.reg(x) as int;
                    let vy = m.reg(y) as int;
                    assert(first.screen == drawn_screen(m.screen, m.ram, i, n as int, vx, vy));
                    assert(second.screen == drawn_screen(
                        first.screen,
                        m.ram,
                        i,
                        n as int,
                        vx,
                        vy,
                    ));
                    assert(second.screen =~= m.screen);
                    let again = draw_collides(first.screen, m.ram, i, n as int, vx, vy);
                    if again {
                        let k = choose|k: int|
                            0 <= k < PIXEL_COUNT && first.screen[k] && #[trigger] sprite_covers(
                                m.ram,
                                i,
                                n as int,
                                vx,
                                vy,
                                k,
                            );
                        assert(!m.screen[k] && first.screen[k]);
                    }
                    if lit_any(m.screen, first.screen) {
                        let k = choose|k: int|
                            0 <= k < PIXEL_COUNT && !m.screen[k] && #[trigger] first.screen[k];
                        assert(sprite_covers(m.ram, i, n as int, vx, vy, k));
                    }
                }
            }
        }
    }
}

/// Drawing XORs bit `col` of sprite row `row` into the pixel at column
/// (`vx` + `col`) mod 64 of row (`vy` + `row`) mod 32.
pub proof fn lemma_drawn_pixel(
    screen: Seq<bool>,
    ram: Seq<u8>,
    i: int,
    n: int,
    vx: int,
    vy: int,
    row: int,
    col: int,
)
    requires
        screen.len() == PIXEL_COUNT,
        0 <= vx < 256,
        0 <= vy < 256,
        0 <= row < n <= MAX_SPRITE_HEIGHT,
        0 <= col < SPRITE_WIDTH,
    ensures
        ({
            let at = pixel_index((vx + col) % (WIDTH as int), (vy + row) % (HEIGHT as int));
            &&& 0 <= at < PIXEL_COUNT
            &&& drawn_screen(screen, ram, i, n, vx, vy)[at] == (screen[at] != sprite_bit(
                ram[i + row],
                col,
            ))
        }),
{
    lemma_sprite_position(vx, vy, row, col);
}

/// Drawing leaves every pixel that lies under no sprite bit as it was.
pub proof fn lemma_undrawn_pixel(
    screen: Seq<bool>,
    ram: Seq<u8>,
    i: int,
    n: int,
    vx: int,
    vy: int,
    k: int,
)
    requires
        screen.len() == PIXEL_COUNT,
        0 <= vx < 256,
        0 <= vy < 256,
        0 <= n <= MAX_SPRITE_HEIGHT,
        0 <= k < PIXEL_COUNT,
        forall|row: int, col: int|
            0 <= row < n && 0 <= col < SPRITE_WIDTH ==> k != #[trigger] pixel_index(
                (vx + col) % (WIDTH as int),
                (vy + row) % (HEIGHT as int),
            ),
    ensures
        drawn_screen(screen, ram, i, n, vx, vy)[k] == screen[k],
{
    let row = sprite_row(vy, k);
    let col = sprite_col(vx, k);
    if col < SPRITE_WIDTH && row < n {
        lemma_sprite_position(vx, vy, row, col);
        assert(k == pixel_index((vx + col) % (WIDTH as int), (vy + row) % (HEIGHT as int)));
    }
}

/// A call followed at once by a return comes back to the instruction after
/// the call, with the stack pointer where it was before the call.
pub proof fn lemma_call_then_return(m: Machine, call: u16, first_byte: u8, second_byte: u8)
    requires
        m.wf(),
        decoded(call) matches Some(i) && i is Call,
    ensures
        step(m, call, first_byte) matches Ok(called) ==> (step(called, 0x00EE, second_byte)
            matches Ok(returned) ==> returned.pc == m.pc + 2 && returned.sp == m.sp),
{
    lemma_decode_encode(Instruction::Ret);
}

/// Storing V0 to Vx and loading them back, at the same address and into
/// registers that may hold anything, brings back the values stored.
pub proof fn lemma_store_then_load(
    m: Machine,
    store: u16,
    load: u16,
    fresh: Seq<u8>,
    first_byte: u8,
    second_byte: u8,
)
    requires
        m.wf(),
        fresh.len() == m.v.len(),
        decoded(store) matches Some(s) && s is LdIVx,
        decoded(load) matches Some(l) && l is LdVxI,
        decoded(store)->0->LdIVx_x == decoded(load)->0->LdVxI_x,
    ensures
        step(m, store, first_byte) matches Ok(stored) ==> (step(
            Machine { v: fresh, ..stored },
            load,
            second_byte,
        ) matches Ok(loaded) ==> forall|r: int|
            0 <= r <= decoded(store)->0->LdIVx_x ==> loaded.v[r] == m.v[r]),
{
    lemma_encode_decode(store);
    lemma_encode_decode(load);
}

/// The three digits stored for a byte are decimal digits and make up the
/// byte: hundreds, tens, ones.
pub proof fn lemma_digits_make_value(ram: Seq<u8>, i: int, value: u8)
    requires
        0 <= i,
        i + 2 < ram.len(),
    ensures
        ({
            let stored = stored_digits(ram, i, value);
            &&& stored[i] < 10 && stored[i + 1] < 10 && stored[i + 2] < 10
            &&& stored[i] * 100 + stored[i + 1] * 10 + stored[i + 2] == value
            &&& forall|a: int| 0 <= a < ram.len() && !(i <= a <= i + 2) ==> stored[a] == ram[a]
        }),
{
}

/// The key that a wait takes is down and no lower key is; there is none to
/// take exactly when no key is down.
pub proof fn lemma_lowest_pressed(keyboard: Seq<bool>)
    requires
        keyboard.len() == KEY_COUNT,
    ensures
        lowest_pressed(keyboard) matches Some(key) ==> key < KEY_COUNT && keyboard[key as int]
            && forall|j: int| 0 <= j < key ==> !keyboard[j],
        lowest_pressed(keyboard) is None ==> forall|j: int| 0 <= j < KEY_COUNT ==> !keyboard[j],
{
    lemma_lowest_pressed_from(keyboard, 0);
}

proof fn lemma_lowest_pressed_from(keyboard: Seq<bool>, from: int)
    requires
        keyboard.len() == KEY_COUNT,
        0 <= from <= KEY_COUNT,
    ensures
        lowest_pressed_from(keyboard, from) matches Some(key) ==> from <= key < KEY_COUNT
            && keyboard[key as int] && forall|j: int| from <= j < key ==> !keyboard[j],
        lowest_pressed_from(keyboard, from) is None ==> forall|j: int|
            from <= j < KEY_COUNT ==> !keyboard[j],
    decreases KEY_COUNT - from,
{
    if from < KEY_COUNT && !keyboard[from] {
        lemma_lowest_pressed_from(keyboard, from + 1);
    }
}

/// A timer never counts below zero and never goes up.
pub proof fn lemma_timer_counts_down(timer: u8)
    ensures
        counted_down(timer) <= timer,
        counted_down(timer) == 0 <==> timer <= 1,
{
}

} // verus!
