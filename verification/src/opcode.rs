//! Instruction words: their operand fields, the instruction set, and the
//! decoder.

use vstd::prelude::*;

verus! {

/// The top four bits of an instruction word, which select its family.
pub open spec fn field_class(opcode: u16) -> u8 {
    (opcode / 0x1000) as u8
}

/// Bits 8 to 11: the register operand `x`.
pub open spec fn field_x(opcode: u16) -> u8 {
    ((opcode / 0x100) % 0x10) as u8
}

/// Bits 4 to 7: the register operand `y`.
pub open spec fn field_y(opcode: u16) -> u8 {
    ((opcode / 0x10) % 0x10) as u8
}

/// Bits 0 to 3: the small immediate `n`.
pub open spec fn field_n(opcode: u16) -> u8 {
    (opcode % 0x10) as u8
}

/// Bits 0 to 7: the byte immediate `kk`.
pub open spec fn field_kk(opcode: u16) -> u8 {
    (opcode % 0x100) as u8
}

/// Bits 0 to 11: the address immediate `nnn`.
pub open spec fn field_nnn(opcode: u16) -> u16 {
    opcode % 0x1000
}

/// One decoded instruction with its operands. `x` and `y` name registers,
/// `n` and `kk` are immediates, `nnn` is an address.
#[derive(Clone, Copy, Debug, PartialEq, Eq)]
pub enum Instruction {
    /// 00E0: clear the screen.
    Cls,
    /// 00EE: return from a subroutine, to the instruction after its call.
    Ret,
    /// 1nnn: jump to `nnn`.
    Jp { nnn: u16 },
    /// 2nnn: call the subroutine at `nnn`.
    Call { nnn: u16 },
    /// 3xkk: skip if Vx equals `kk`.
    SeByte { x: u8, kk: u8 },
    /// 4xkk: skip if Vx differs from `kk`.
    SneByte { x: u8, kk: u8 },
    /// 5xy0: skip if Vx equals Vy.
    SeReg { x: u8, y: u8 },
    /// 6xkk: Vx := `kk`.
    LdByte { x: u8, kk: u8 },
    /// 7xkk: Vx := Vx + `kk`, wrapping, no flag.
    AddByte { x: u8, kk: u8 },
    /// 8xy0: Vx := Vy.
    LdReg { x: u8, y: u8 },
    /// 8xy1: Vx := Vx | Vy.
    Or { x: u8, y: u8 },
    /// 8xy2: Vx := Vx & Vy.
    And { x: u8, y: u8 },
    /// 8xy3: Vx := Vx ^ Vy.
    Xor { x: u8, y: u8 },
    /// 8xy4: Vx := Vx + Vy, VF := carry.
    AddReg { x: u8, y: u8 },
    /// 8xy5: Vx := Vx - Vy, VF := Vx > Vy.
    Sub { x: u8, y: u8 },
    /// 8xy6: Vx := Vx >> 1, VF := the bit shifted out.
    Shr { x: u8, y: u8 },
    /// 8xy7: Vx := Vy - Vx, VF := Vy > Vx.
    Subn { x: u8, y: u8 },
    /// 8xyE: Vx := Vx << 1, VF := the bit shifted out.
    Shl { x: u8, y: u8 },
    /// 9xy0: skip if Vx differs from Vy.
    SneReg { x: u8, y: u8 },
    /// Annn: I := `nnn`.
    LdI { nnn: u16 },
    /// Bnnn: jump to `nnn` + V0.
    JpV0 { nnn: u16 },
    /// Cxkk: Vx := `kk` & a random byte.
    Rnd { x: u8, kk: u8 },
    /// Dxyn: draw the `n`-row sprite at I at (Vx, Vy), VF := collision.
    Drw { x: u8, y: u8, n: u8 },
    /// Ex9E: skip if key Vx is pressed.
    Skp { x: u8 },
    /// ExA1: skip if key Vx is not pressed.
    Sknp { x: u8 },
    /// Fx07: Vx := delay timer.
    LdVxDt { x: u8 },
    /// Fx0A: wait for a key, Vx := the lowest key that is down.
    LdVxK { x: u8 },
    /// Fx15: delay timer := Vx.
    LdDtVx { x: u8 },
    /// Fx18: sound timer := Vx.
    LdStVx { x: u8 },
    /// Fx1E: I := I + Vx, kept to sixteen bits.
    AddI { x: u8 },
    /// Fx29: I := address of the glyph of digit Vx, five bytes per digit
    /// from the start of the font.
    LdF { x: u8 },
    /// Fx33: store the decimal digits of Vx at I, I+1, I+2.
    LdB { x: u8 },
    /// Fx55: store V0 to Vx at I onwards.
    LdIVx { x: u8 },
    /// Fx65: load V0 to Vx from I onwards.
    LdVxI { x: u8 },
}

impl Instruction {
    /// Every operand fits its field: registers and `n` in four bits, an
    /// address in twelve.
    pub open spec fn wf(self) -> bool {
        match self {
            Instruction::Cls | Instruction::Ret => true,
            Instruction::Jp { nnn }
            | Instruction::Call { nnn }
            | Instruction::LdI { nnn }
            | Instruction::JpV0 { nnn } => nnn < 0x1000,
            Instruction::SeByte { x, kk }
            | Instruction::SneByte { x, kk }
            | Instruction::LdByte { x, kk }
            | Instruction::AddByte { x, kk }
            | Instruction::Rnd { x, kk } => x < 0x10,
            Instruction::SeReg { x, y }
            | Instruction::LdReg { x, y }
            | Instruction::Or { x, y }
            | Instruction::And { x, y }
            | Instruction::Xor { x, y }
            | Instruction::AddReg { x, y }
            | Instruction::Sub { x, y }
            | Instruction::Shr { x, y }
            | Instruction::Subn { x, y }
            | Instruction::Shl { x, y }
            | Instruction::SneReg { x, y } => x < 0x10 && y < 0x10,
            Instruction::Drw { x, y, n } => x < 0x10 && y < 0x10 && n < 0x10,
            Instruction::Skp { x }
            | Instruction::Sknp { x }
            | Instruction::LdVxDt { x }
            | Instruction::LdVxK { x }
            | Instruction::LdDtVx { x }
            | Instruction::LdStVx { x }
            | Instruction::AddI { x }
            | Instruction::LdF { x }
            | Instruction::LdB { x }
            | Instruction::LdIVx { x }
            | Instruction::LdVxI { x } => x < 0x10,
        }
    }

    /// Whether the instruction sets the program counter itself instead of
    /// stepping past itself: the two jumps, call and return.
    pub open spec fn transfers_control(self) -> bool {
        self is Jp || self is Call || self is JpV0 || self is Ret
    }
}

/// The word made of four nibbles, most significant first.
pub open spec fn word(class: int, x: int, y: int, n: int) -> int {
    class * 0x1000 + x * 0x100 + y * 0x10 + n
}

/// The instruction word that stands for an instruction.
pub open spec fn encode(instruction: Instruction) -> int {
    match instruction {
        Instruction::Cls => 0x00E0,
        Instruction::Ret => 0x00EE,
        Instruction::Jp { nnn } => 0x1000 + nnn,
        Instruction::Call { nnn } => 0x2000 + nnn,
        Instruction::SeByte { x, kk } => word(0x3, x as int, 0, 0) + kk,
        Instruction::SneByte { x, kk } => word(0x4, x as int, 0, 0) + kk,
        Instruction::SeReg { x, y } => word(0x5, x as int, y as int, 0x0),
        Instruction::LdByte { x, kk } => word(0x6, x as int, 0, 0) + kk,
        Instruction::AddByte { x, kk } => word(0x7, x as int, 0, 0) + kk,
        Instruction::LdReg { x, y } => word(0x8, x as int, y as int, 0x0),
        Instruction::Or { x, y } => word(0x8, x as int, y as int, 0x1),
        Instruction::And { x, y } => word(0x8, x as int, y as int, 0x2),
        Instruction::Xor { x, y } => word(0x8, x as int, y as int, 0x3),
        Instruction::AddReg { x, y } => word(0x8, x as int, y as int, 0x4),
        Instruction::Sub { x, y } => word(0x8, x as int, y as int, 0x5),
        Instruction::Shr { x, y } => word(0x8, x as int, y as int, 0x6),
        Instruction::Subn { x, y } => word(0x8, x as int, y as int, 0x7),
        Instruction::Shl { x, y } => word(0x8, x as int, y as int, 0xE),
        Instruction::SneReg { x, y } => word(0x9, x as int, y as int, 0x0),
        Instruction::LdI { nnn } => 0xA000 + nnn,
        Instruction::JpV0 { nnn } => 0xB000 + nnn,
        Instruction::Rnd { x, kk } => word(0xC, x as int, 0, 0) + kk,
        Instruction::Drw { x, y, n } => word(0xD, x as int, y as int, n as int),
        Instruction::Skp { x } => word(0xE, x as int, 0x9, 0xE),
        Instruction::Sknp { x } => word(0xE, x as int, 0xA, 0x1),
        Instruction::LdVxDt { x } => word(0xF, x as int, 0x0, 0x7),
        Instruction::LdVxK { x } => word(0xF, x as int, 0x0, 0xA),
        Instruction::LdDtVx { x } => word(0xF, x as int, 0x1, 0x5),
        Instruction::LdStVx { x } => word(0xF, x as int, 0x1, 0x8),
        Instruction::AddI { x } => word(0xF, x as int, 0x1, 0xE),
        Instruction::LdF { x } => word(0xF, x as int, 0x2, 0x9),
        Instruction::LdB { x } => word(0xF, x as int, 0x3, 0x3),
        Instruction::LdIVx { x } => word(0xF, x as int, 0x5, 0x5),
        Instruction::LdVxI { x } => word(0xF, x as int, 0x6, 0x5),
    }
}

/// The instruction that a word stands for, if any. The most specific
/// pattern decides: a word of family 0, 5, 8, 9, E or F is an instruction
/// only when its fixed nibbles match.
pub open spec fn decoded(opcode: u16) -> Option<Instruction> {
    instruction_of(
        field_class(opcode),
        field_x(opcode),
        field_y(opcode),
        field_n(opcode),
        field_kk(opcode),
        field_nnn(opcode),
    )
}

/// The instruction selected by the four nibbles `class`, `x`, `y`, `n` of a
/// word, with `kk` and `nnn` as its operands where it takes them.
pub open spec fn instruction_of(class: u8, x: u8, y: u8, n: u8, kk: u8, nnn: u16) -> Option<
    Instruction,
> {
    match (class, x, y, n) {
        (0x0, 0x0, 0xE, 0x0) => Some(Instruction::Cls),
        (0x0, 0x0, 0xE, 0xE) => Some(Instruction::Ret),
        (0x1, _, _, _) => Some(Instruction::Jp { nnn }),
        (0x2, _, _, _) => Some(Instruction::Call { nnn }),
        (0x3, _, _, _) => Some(Instruction::SeByte { x, kk }),
        (0x4, _, _, _) => Some(Instruction::SneByte { x, kk }),
        (0x5, _, _, 0x0) => Some(Instruction::SeReg { x, y }),
        (0x6, _, _, _) => Some(Instruction::LdByte { x, kk }),
        (0x7, _, _, _) => Some(Instruction::AddByte { x, kk }),
        (0x8, _, _, 0x0) => Some(Instruction::LdReg { x, y }),
        (0x8, _, _, 0x1) => Some(Instruction::Or { x, y }),
        (0x8, _, _, 0x2) => Some(Instruction::And { x, y }),
        (0x8, _, _, 0x3) => Some(Instruction::Xor { x, y }),
        (0x8, _, _, 0x4) => Some(Instruction::AddReg { x, y }),
        (0x8, _, _, 0x5) => Some(Instruction::Sub { x, y }),
        (0x8, _, _, 0x6) => Some(Instruction::Shr { x, y }),
        (0x8, _, _, 0x7) => Some(Instruction::Subn { x, y }),
        (0x8, _, _, 0xE) => Some(Instruction::Shl { x, y }),
        (0x9, _, _, 0x0) => Some(Instruction::SneReg { x, y }),
        (0xA, _, _, _) => Some(Instruction::LdI { nnn }),
        (0xB, _, _, _) => Some(Instruction::JpV0 { nnn }),
        (0xC, _, _, _) => Some(Instruction::Rnd { x, kk }),
        (0xD, _, _, _) => Some(Instruction::Drw { x, y, n }),
        (0xE, _, 0x9, 0xE) => Some(Instruction::Skp { x }),
        (0xE, _, 0xA, 0x1) => Some(Instruction::Sknp { x }),
        (0xF, _, 0x0, 0x7) => Some(Instruction::LdVxDt { x }),
        (0xF, _, 0x0, 0xA) => Some(Instruction::LdVxK { x }),
        (0xF, _, 0x1, 0x5) => Some(Instruction::LdDtVx { x }),
        (0xF, _, 0x1, 0x8) => Some(Instruction::LdStVx { x }),
        (0xF, _, 0x1, 0xE) => Some(Instruction::AddI { x }),
        (0xF, _, 0x2, 0x9) => Some(Instruction::LdF { x }),
        (0xF, _, 0x3, 0x3) => Some(Instruction::LdB { x }),
        (0xF, _, 0x5, 0x5) => Some(Instruction::LdIVx { x }),
        (0xF, _, 0x6, 0x5) => Some(Instruction::LdVxI { x }),
        _ => None,
    }
}

/// The operand fields, cut out of the word with masks and shifts, are the
/// quotients and remainders that define them.
proof fn lemma_fields_by_masks(opcode: u16)
    ensures
        (opcode & 0xF000) >> 12 == field_class(opcode),
        (opcode & 0x0F00) >> 8 == field_x(opcode),
        (opcode & 0x00F0) >> 4 == field_y(opcode),
        opcode & 0x000F == field_n(opcode),
        opcode & 0x00FF == field_kk(opcode),
        opcode & 0x0FFF == field_nnn(opcode),
{
    assert((opcode & 0xF000) >> 12 == opcode / 0x1000) by (bit_vector);
    assert((opcode & 0x0F00) >> 8 == (opcode / 0x100) % 0x10) by (bit_vector);
    assert((opcode & 0x00F0) >> 4 == (opcode / 0x10) % 0x10) by (bit_vector);
    assert(opcode & 0x000F == opcode % 0x10) by (bit_vector);
    assert(opcode & 0x00FF == opcode % 0x100) by (bit_vector);
    assert(opcode & 0x0FFF == opcode % 0x1000) by (bit_vector);
}

/// A word is made of its four nibbles, and its two wider operands of the
/// lower ones.
pub proof fn lemma_word_of_fields(opcode: u16)
    ensures
        field_class(opcode) < 0x10,
        field_x(opcode) < 0x10,
        field_y(opcode) < 0x10,
        field_n(opcode) < 0x10,
        field_nnn(opcode) < 0x1000,
        opcode == word(
            field_class(opcode) as int,
            field_x(opcode) as int,
            field_y(opcode) as int,
            field_n(opcode) as int,
        ),
        field_kk(opcode) == field_y(opcode) * 0x10 + field_n(opcode),
        field_nnn(opcode) == field_x(opcode) * 0x100 + field_kk(opcode),
{
    assert(opcode / 0x1000 < 0x10) by (bit_vector);
    assert(opcode == (opcode / 0x1000) * 0x1000 + ((opcode / 0x100) % 0x10) * 0x100 + ((opcode
        / 0x10) % 0x10) * 0x10 + opcode % 0x10) by (bit_vector);
    assert(opcode % 0x100 == ((opcode / 0x10) % 0x10) * 0x10 + opcode % 0x10) by (bit_vector);
    assert(opcode % 0x1000 == ((opcode / 0x100) % 0x10) * 0x100 + opcode % 0x100)
        by (bit_vector);
}

/// The nibbles put into a word are the fields read back from it.
pub proof fn lemma_fields_of_word(class: u16, x: u16, y: u16, n: u16)
    requires
        class < 0x10,
        x < 0x10,
        y < 0x10,
        n < 0x10,
    ensures
        0 <= word(class as int, x as int, y as int, n as int) < 0x10000,
        ({
            let opcode = word(class as int, x as int, y as int, n as int) as u16;
            &&& field_class(opcode) == class
            &&& field_x(opcode) == x
            &&& field_y(opcode) == y
            &&& field_n(opcode) == n
        }),
{
    let opcode: u16 = (class * 0x1000 + x * 0x100 + y * 0x10 + n) as u16;
    assert(opcode / 0x1000 == class && (opcode / 0x100) % 0x10 == x && (opcode / 0x10) % 0x10 == y
        && opcode % 0x10 == n) by (bit_vector)
        requires
            class < 0x10,
            x < 0x10,
            y < 0x10,
            n < 0x10,
            opcode == class * 0x1000 + x * 0x100 + y * 0x10 + n,
    ;
}

/// Decodes an instruction word; `None` for a word that is no instruction.
pub fn decode(opcode: u16) -> (instruction: Option<Instruction>)
    ensures
        instruction == decoded(opcode),
        instruction matches Some(i) ==> i.wf(),
{
    proof {
        lemma_fields_by_masks(opcode);
        lemma_word_of_fields(opcode);
    }
    let nibbles: (u8, u8, u8, u8) = (
        ((opcode & 0xF000) >> 12) as u8,
        ((opcode & 0x0F00) >> 8) as u8,
        ((opcode & 0x00F0) >> 4) as u8,
        (opcode & 0x000F) as u8,
    );
    let x: u8 = nibbles.1;
    let y: u8 = nibbles.2;
    let n: u8 = nibbles.3;
    let kk: u8 = (opcode & 0x00FF) as u8;
    let nnn: u16 = opcode & 0x0FFF;
    match nibbles {
        (0x0, 0x0, 0xE, 0x0) => Some(Instruction::Cls),
        (0x0, 0x0, 0xE, 0xE) => Some(Instruction::Ret),
        (0x1, _, _, _) => Some(Instruction::Jp { nnn }),
        (0x2, _, _, _) => Some(Instruction::Call { nnn }),
        (0x3, _, _, _) => Some(Instruction::SeByte { x, kk }),
        (0x4, _, _, _) => Some(Instruction::SneByte { x, kk }),
        (0x5, _, _, 0x0) => Some(Instruction::SeReg { x, y }),
        (0x6, _, _, _) => Some(Instruction::LdByte { x, kk }),
        (0x7, _, _, _) => Some(Instruction::AddByte { x, kk }),
        (0x8, _, _, 0x0) => Some(Instruction::LdReg { x, y }),
        (0x8, _, _, 0x1) => Some(Instruction::Or { x, y }),
        (0x8, _, _, 0x2) => Some(Instruction::And { x, y }),
        (0x8, _, _, 0x3) => Some(Instruction::Xor { x, y }),
        (0x8, _, _, 0x4) => Some(Instruction::AddReg { x, y }),
        (0x8, _, _, 0x5) => Some(Instruction::Sub { x, y }),
        (0x8, _, _, 0x6) => Some(Instruction::Shr { x, y }),
        (0x8, _, _, 0x7) => Some(Instruction::Subn { x, y }),
        (0x8, _, _, 0xE) => Some(Instruction::Shl { x, y }),
        (0x9, _, _, 0x0) => Some(Instruction::SneReg { x, y }),
        (0xA, _, _, _) => Some(Instruction::LdI { nnn }),
        (0xB, _, _, _) => Some(Instruction::JpV0 { nnn }),
        (0xC, _, _, _) => Some(Instruction::Rnd { x, kk }),
        (0xD, _, _, _) => Some(Instruction::Drw { x, y, n }),
        (0xE, _, 0x9, 0xE) => Some(Instruction::Skp { x }),
        (0xE, _, 0xA, 0x1) => Some(Instruction::Sknp { x }),
        (0xF, _, 0x0, 0x7) => Some(Instruction::LdVxDt { x }),
        (0xF, _, 0x0, 0xA) => Some(Instruction::LdVxK { x }),
        (0xF, _, 0x1, 0x5) => Some(Instruction::LdDtVx { x }),
        (0xF, _, 0x1, 0x8) => Some(Instruction::LdStVx { x }),
        (0xF, _, 0x1, 0xE) => Some(Instruction::AddI { x }),
        (0xF, _, 0x2, 0x9) => Some(Instruction::LdF { x }),
        (0xF, _, 0x3, 0x3) => Some(Instruction::LdB { x }),
        (0xF, _, 0x5, 0x5) => Some(Instruction::LdIVx { x }),
        (0xF, _, 0x6, 0x5) => Some(Instruction::LdVxI { x }),
        _ => None,
    }
}

/// Decoding undoes encoding: the word of a well-formed instruction decodes
/// to that instruction, so no two instructions share a word.
pub proof fn lemma_decode_encode(instruction: Instruction)
    requires
        instruction.wf(),
    ensures
        0 <= encode(instruction) < 0x10000,
        decoded(encode(instruction) as u16) == Some(instruction),
{
    match instruction {
        Instruction::Cls => {
            lemma_fields_of_word(0x0, 0x0, 0xE, 0x0);
        },
        Instruction::Ret => {
            lemma_fields_of_word(0x0, 0x0, 0xE, 0xE);
        },
        Instruction::Jp { nnn } => {
            lemma_address_word(0x1, nnn);
        },
        Instruction::Call { nnn } => {
            lemma_address_word(0x2, nnn);
        },
        Instruction::LdI { nnn } => {
            lemma_address_word(0xA, nnn);
        },
        Instruction::JpV0 { nnn } => {
            lemma_address_word(0xB, nnn);
        },
        Instruction::SeByte { x, kk } => {
            lemma_byte_word(0x3, x as u16, kk);
        },
        Instruction::SneByte { x, kk } => {
            lemma_byte_word(0x4, x as u16, kk);
        },
        Instruction::LdByte { x, kk } => {
            lemma_byte_word(0x6, x as u16, kk);
        },
        Instruction::AddByte { x, kk } => {
            lemma_byte_word(0x7, x as u16, kk);
        },
        Instruction::Rnd { x, kk } => {
            lemma_byte_word(0xC, x as u16, kk);
        },
        Instruction::SeReg { x, y } => {
            lemma_fields_of_word(0x5, x as u16, y as u16, 0x0);
        },
        Instruction::LdReg { x, y } => {
            lemma_fields_of_word(0x8, x as u16, y as u16, 0x0);
        },
        Instruction::Or { x, y } => {
            lemma_fields_of_word(0x8, x as u16, y as u16, 0x1);
        },
        Instruction::And { x, y } => {
            lemma_fields_of_word(0x8, x as u16, y as u16, 0x2);
        },
        Instruction::Xor { x, y } => {
            lemma_fields_of_word(0x8, x as u16, y as u16, 0x3);
        },
        Instruction::AddReg { x, y } => {
            lemma_fields_of_word(0x8, x as u16, y as u16, 0x4);
        },
        Instruction::Sub { x, y } => {
            lemma_fields_of_word(0x8, x as u16, y as u16, 0x5);
        },
        Instruction::Shr { x, y } => {
            lemma_fields_of_word(0x8, x as u16, y as u16, 0x6);
        },
        Instruction::Subn { x, y } => {
            lemma_fields_of_word(0x8, x as u16, y as u16, 0x7);
        },
        Instruction::Shl { x, y } => {
            lemma_fields_of_word(0x8, x as u16, y as u16, 0xE);
        },
        Instruction::SneReg { x, y } => {
            lemma_fields_of_word(0x9, x as u16, y as u16, 0x0);
        },
        Instruction::Drw { x, y, n } => {
            lemma_fields_of_word(0xD, x as u16, y as u16, n as u16);
        },
        Instruction::Skp { x } => {
            lemma_fields_of_word(0xE, x as u16, 0x9, 0xE);
        },
        Instruction::Sknp { x } => {
            lemma_fields_of_word(0xE, x as u16, 0xA, 0x1);
        },
        Instruction::LdVxDt { x } => {
            lemma_fields_of_word(0xF, x as u16, 0x0, 0x7);
        },
        Instruction::LdVxK { x } => {
            lemma_fields_of_word(0xF, x as u16, 0x0, 0xA);
        },
        Instruction::LdDtVx { x } => {
            lemma_fields_of_word(0xF, x as u16, 0x1, 0x5);
        },
        Instruction::LdStVx { x } => {
            lemma_fields_of_word(0xF, x as u16, 0x1, 0x8);
        },
        Instruction::AddI { x } => {
            lemma_fields_of_word(0xF, x as u16, 0x1, 0xE);
        },
        Instruction::LdF { x } => {
            lemma_fields_of_word(0xF, x as u16, 0x2, 0x9);
        },
        Instruction::LdB { x } => {
            lemma_fields_of_word(0xF, x as u16, 0x3, 0x3);
        },
        Instruction::LdIVx { x } => {
            lemma_fields_of_word(0xF, x as u16, 0x5, 0x5);
        },
        Instruction::LdVxI { x } => {
            lemma_fields_of_word(0xF, x as u16, 0x6, 0x5);
        },
    }
}

/// The family and the address put into a word are read back from it.
proof fn lemma_address_word(class: u16, nnn: u16)
    requires
        class < 0x10,
        nnn < 0x1000,
    ensures
        0 <= class * 0x1000 + nnn < 0x10000,
        field_class((class * 0x1000 + nnn) as u16) == class,
        field_nnn((class * 0x1000 + nnn) as u16) == nnn,
{
    let opcode: u16 = (class * 0x1000 + nnn) as u16;
    assert(opcode / 0x1000 == class && opcode % 0x1000 == nnn) by (bit_vector)
        requires
            class < 0x10,
            nnn < 0x1000,
            opcode == class * 0x1000 + nnn,
    ;
}

/// The family, the register and the byte put into a word are read back
/// from it.
proof fn lemma_byte_word(class: u16, x: u16, kk: u8)
    requires
        class < 0x10,
        x < 0x10,
    ensures
        0 <= word(class as int, x as int, 0, 0) + kk < 0x10000,
        field_class((word(class as int, x as int, 0, 0) + kk) as u16) == class,
        field_x((word(class as int, x as int, 0, 0) + kk) as u16) == x,
        field_kk((word(class as int, x as int, 0, 0) + kk) as u16) == kk,
{
    let opcode: u16 = (class * 0x1000 + x * 0x100 + kk) as u16;
    let byte: u16 = kk as u16;
    assert(opcode / 0x1000 == class && (opcode / 0x100) % 0x10 == x && opcode % 0x100 == byte)
        by (bit_vector)
        requires
            class < 0x10,
            x < 0x10,
            byte < 0x100,
            opcode == class * 0x1000 + x * 0x100 + byte,
    ;
}

/// Encoding undoes decoding: a word that decodes is the word of the
/// instruction it decodes to, and that instruction is well formed.
pub proof fn lemma_encode_decode(opcode: u16)
    ensures
        decoded(opcode) matches Some(i) ==> i.wf() && encode(i) == opcode,
{
    lemma_word_of_fields(opcode);
}

} // verus!
