use chip8::cpu::Cpu;
use chip8::memory::{LoadError, Memory, FONTSET, MAX_ROM_SIZE, RAM_SIZE};

#[test]
fn cpu_new_is_at_power_up() {
    let cpu = Cpu::new();
    assert_eq!(cpu.pc, 0x200);
    assert_eq!(cpu.sp, 0);
    assert_eq!(cpu.v, vec![0u8; 16]);
    assert_eq!(cpu.i, 0);
    assert_eq!(cpu.delay_timer, 0);
    assert_eq!(cpu.sound_timer, 0);
    assert!(cpu.is_well_formed());
}

#[test]
fn cpu_registers_are_read_and_written_by_index() {
    let mut cpu = Cpu::new();
    cpu.set_register(0, 0x11);
    cpu.set_register(15, 0xFF);
    assert_eq!(cpu.register(0), 0x11);
    assert_eq!(cpu.register(15), 0xFF);
    assert_eq!(cpu.register(7), 0);
    assert_eq!(cpu.pc, 0x200);
}

#[test]
fn cpu_with_too_few_registers_is_not_well_formed() {
    let mut cpu = Cpu::new();
    cpu.v.pop();
    assert!(!cpu.is_well_formed());
    let mut cpu = Cpu::new();
    cpu.sp = 16;
    assert!(!cpu.is_well_formed());
}

#[test]
fn memory_new_is_zeroed() {
    let memory = Memory::new();
    assert_eq!(memory.ram, vec![0u8; 4096]);
    assert_eq!(memory.stack, vec![0u16; 16]);
    assert!(memory.is_well_formed());
}

#[test]
fn memory_read_returns_what_write_stored() {
    let mut memory = Memory::new();
    memory.write(0, 0x12);
    memory.write(4095, 0x34);
    assert_eq!(memory.read(0), 0x12);
    assert_eq!(memory.read(4095), 0x34);
    assert_eq!(memory.read(1), 0);
    assert_eq!(memory.stack, vec![0u16; 16]);
}

#[test]
fn load_fontset_places_glyphs_at_0x50() {
    let mut memory = Memory::new();
    assert_eq!(memory.load_fontset(), Ok(()));
    // glyph 0
    assert_eq!(&memory.ram[0x50..0x55], &[0xF0, 0x90, 0x90, 0x90, 0xF0]);
    // glyph 1
    assert_eq!(&memory.ram[0x55..0x5A], &[0x20, 0x60, 0x20, 0x20, 0x70]);
    // glyph F
    assert_eq!(&memory.ram[0x9B..0xA0], &[0xF0, 0x80, 0xF0, 0x80, 0x80]);
    assert_eq!(&memory.ram[0x50..0xA0], &FONTSET[..]);
    assert_eq!(memory.ram[0x4F], 0);
    assert_eq!(memory.ram[0xA0], 0);
}

#[test]
fn load_fontset_leaves_the_rest_of_memory() {
    let mut memory = Memory::new();
    for a in 0..RAM_SIZE {
        memory.ram[a] = 0xAA;
    }
    memory.load_fontset().unwrap();
    for a in 0..RAM_SIZE {
        if a < 0x50 || a >= 0xA0 {
            assert_eq!(memory.ram[a], 0xAA);
        }
    }
}

#[test]
fn load_fontset_twice_is_the_same_as_once() {
    let mut once = Memory::new();
    once.load_fontset().unwrap();
    let mut twice = Memory::new();
    twice.load_fontset().unwrap();
    twice.load_fontset().unwrap();
    assert_eq!(once.ram, twice.ram);
    assert_eq!(once.stack, twice.stack);
}

#[test]
fn load_rom_copies_bytes_to_0x200() {
    let mut memory = Memory::new();
    let rom = vec![0x12u8, 0x34, 0x56];
    assert_eq!(memory.load_rom(&rom), Ok(()));
    assert_eq!(&memory.ram[0x200..0x203], &[0x12, 0x34, 0x56]);
    assert_eq!(memory.ram[0x1FF], 0);
    assert_eq!(memory.ram[0x203], 0);
}

#[test]
fn load_rom_empty_changes_nothing() {
    let mut memory = Memory::new();
    assert_eq!(memory.load_rom(&[]), Ok(()));
    assert_eq!(memory.ram, vec![0u8; 4096]);
}

#[test]
fn load_rom_of_largest_size_fills_to_the_end() {
    let mut memory = Memory::new();
    let rom = vec![0x7Fu8; MAX_ROM_SIZE];
    assert_eq!(MAX_ROM_SIZE, 3584);
    assert_eq!(memory.load_rom(&rom), Ok(()));
    assert_eq!(memory.ram[0x200], 0x7F);
    assert_eq!(memory.ram[4095], 0x7F);
    assert_eq!(memory.ram[0x1FF], 0);
    assert_eq!(memory.ram.len(), 4096);
}

#[test]
fn load_rom_too_large_is_rejected() {
    let mut memory = Memory::new();
    memory.load_fontset().unwrap();
    let before = memory.ram.clone();
    let rom = vec![0xFFu8; 3585];
    assert_eq!(memory.load_rom(&rom), Err(LoadError::RomTooLarge { size: 3585 }));
    assert_eq!(memory.ram, before);
    assert_eq!(memory.ram.len(), 4096);
}

#[test]
fn load_rom_and_fontset_do_not_overlap() {
    let rom = vec![0xABu8; 3584];
    let mut a = Memory::new();
    a.load_fontset().unwrap();
    a.load_rom(&rom).unwrap();
    let mut b = Memory::new();
    b.load_rom(&rom).unwrap();
    b.load_fontset().unwrap();
    assert_eq!(a.ram, b.ram);
}
