use chip8::chip::{font, Chip};
use chip8::cpu::{Display, ExecError, Keyboard, Request, CPU};
use chip8::frame::Framebuffer;
use chip8::inst::{addr, val, Inst};
use chip8::keymap::{key_of, keys_of};
use chip8::ram::Ram;
use chip8::timer::Timer;
use chip8::{HEIGHT, RAM_SIZE, WIDTH};
use std::cell::Cell;

struct CountingDisplay {
    clears: usize,
    draws: usize,
    collide: bool,
}

impl Display for CountingDisplay {
    fn clear(&mut self) {
        self.clears += 1;
    }
    fn draw(&mut self, _x: u8, _y: u8, _sprite: &[u8]) -> bool {
        self.draws += 1;
        self.collide
    }
}

struct FixedKeys {
    pressed: Vec<u8>,
    next: u8,
    waits: Cell<usize>,
}

impl Keyboard for FixedKeys {
    fn is_pressed(&self, key: u8) -> bool {
        self.pressed.contains(&key)
    }
    fn wait(&self) -> u8 {
        self.waits.set(self.waits.get() + 1);
        self.next
    }
}

fn machine(program: &[u8]) -> Chip<CountingDisplay, FixedKeys> {
    let mut chip = Chip::new(
        CountingDisplay { clears: 0, draws: 0, collide: false },
        FixedKeys { pressed: vec![], next: 0, waits: Cell::new(0) },
    );
    chip.load(program);
    chip
}

fn run_one(cpu: &mut CPU, ram: &mut Ram, word: u16) -> Result<(), ExecError> {
    let op = Inst::decode(&[(word >> 8) as u8, (word & 0xff) as u8]);
    cpu.apply(op, ram, 0)
}

#[test]
fn it_works() {
    let result = 2 + 2;
    assert_eq!(result, 4);
}

#[test]
fn decode_splits_nibbles_and_encode_joins_them() {
    let op = Inst::decode(&[0xd1, 0x2f]);
    assert_eq!(op, Inst(0xd, 0x1, 0x2, 0xf));
    assert_eq!(op.encode(), [0xd1, 0x2f]);
    for b0 in [0x00u8, 0x12, 0xab, 0xff] {
        for b1 in [0x00u8, 0x7e, 0xe0, 0xff] {
            assert_eq!(Inst::decode(&[b0, b1]).encode(), [b0, b1]);
        }
    }
}

#[test]
fn addr_and_val_join_nibbles() {
    assert_eq!(addr(0x1, 0x2, 0x3), 0x123);
    assert_eq!(addr(0xf, 0xf, 0xf), 0xfff);
    assert_eq!(val(0xa, 0x5), 0xa5);
    assert_eq!(val(0, 0), 0);
}

#[test]
fn add_sets_carry_flag() {
    let mut cpu = CPU::new();
    let mut ram = Ram::new();
    cpu.v[1] = 0xff;
    cpu.v[2] = 0x01;
    run_one(&mut cpu, &mut ram, 0x8124).unwrap();
    assert_eq!(cpu.v[1], 0x00);
    assert_eq!(cpu.v[0xf], 1);
    cpu.v[1] = 0x10;
    cpu.v[2] = 0x20;
    run_one(&mut cpu, &mut ram, 0x8124).unwrap();
    assert_eq!(cpu.v[1], 0x30);
    assert_eq!(cpu.v[0xf], 0);
}

#[test]
fn sub_sets_no_borrow_flag() {
    let mut cpu = CPU::new();
    let mut ram = Ram::new();
    cpu.v[1] = 0x01;
    cpu.v[2] = 0x02;
    run_one(&mut cpu, &mut ram, 0x8125).unwrap();
    assert_eq!(cpu.v[1], 0xff);
    assert_eq!(cpu.v[0xf], 0);
    cpu.v[1] = 0x05;
    cpu.v[2] = 0x02;
    run_one(&mut cpu, &mut ram, 0x8125).unwrap();
    assert_eq!(cpu.v[1], 0x03);
    assert_eq!(cpu.v[0xf], 1);
    cpu.v[1] = 0x05;
    cpu.v[2] = 0x02;
    run_one(&mut cpu, &mut ram, 0x8127).unwrap();
    assert_eq!(cpu.v[1], 0xfd);
    assert_eq!(cpu.v[0xf], 0);
}

#[test]
fn shifts_capture_the_bit_shifted_out() {
    let mut cpu = CPU::new();
    let mut ram = Ram::new();
    cpu.v[3] = 0b1000_0011;
    run_one(&mut cpu, &mut ram, 0x8306).unwrap();
    assert_eq!(cpu.v[3], 0b0100_0001);
    assert_eq!(cpu.v[0xf], 1);
    cpu.v[3] = 0b1000_0010;
    run_one(&mut cpu, &mut ram, 0x830e).unwrap();
    assert_eq!(cpu.v[3], 0b0000_0100);
    assert_eq!(cpu.v[0xf], 1);
}

#[test]
fn bitwise_operations() {
    let mut cpu = CPU::new();
    let mut ram = Ram::new();
    cpu.v[1] = 0b1100;
    cpu.v[2] = 0b1010;
    run_one(&mut cpu, &mut ram, 0x8121).unwrap();
    assert_eq!(cpu.v[1], 0b1110);
    cpu.v[1] = 0b1100;
    run_one(&mut cpu, &mut ram, 0x8122).unwrap();
    assert_eq!(cpu.v[1], 0b1000);
    cpu.v[1] = 0b1100;
    run_one(&mut cpu, &mut ram, 0x8123).unwrap();
    assert_eq!(cpu.v[1], 0b0110);
    run_one(&mut cpu, &mut ram, 0x8120).unwrap();
    assert_eq!(cpu.v[1], 0b1010);
}

#[test]
fn skips_move_pc_by_four_or_two() {
    let mut cpu = CPU::new();
    let mut ram = Ram::new();
    cpu.v[4] = 0x33;
    run_one(&mut cpu, &mut ram, 0x3433).unwrap();
    assert_eq!(cpu.pc, 0x204);
    run_one(&mut cpu, &mut ram, 0x3434).unwrap();
    assert_eq!(cpu.pc, 0x206);
    run_one(&mut cpu, &mut ram, 0x4434).unwrap();
    assert_eq!(cpu.pc, 0x20a);
    cpu.v[5] = 0x33;
    run_one(&mut cpu, &mut ram, 0x5450).unwrap();
    assert_eq!(cpu.pc, 0x20e);
    run_one(&mut cpu, &mut ram, 0x9450).unwrap();
    assert_eq!(cpu.pc, 0x210);
}

#[test]
fn key_skips_follow_the_keyboard() {
    let mut cpu = CPU::new();
    let mut ram = Ram::new();
    let mut dsp = CountingDisplay { clears: 0, draws: 0, collide: false };
    let kbd = FixedKeys { pressed: vec![7], next: 9, waits: Cell::new(0) };
    cpu.v[1] = 7;
    cpu.execute(Inst(0xe, 1, 9, 0xe), &mut ram, &mut dsp, &kbd).unwrap();
    assert_eq!(cpu.pc, 0x204);
    cpu.execute(Inst(0xe, 1, 0xa, 1), &mut ram, &mut dsp, &kbd).unwrap();
    assert_eq!(cpu.pc, 0x206);
    cpu.execute(Inst(0xf, 2, 0, 0xa), &mut ram, &mut dsp, &kbd).unwrap();
    assert_eq!(cpu.v[2], 9);
    assert_eq!(kbd.waits.get(), 1);
}

#[test]
fn call_then_return_resumes_after_the_call() {
    let mut cpu = CPU::new();
    let mut ram = Ram::new();
    for depth in 0..16u16 {
        let pc = cpu.pc;
        run_one(&mut cpu, &mut ram, 0x2300 + depth * 2).unwrap();
        assert_eq!(cpu.pc, 0x300 + depth * 2);
        assert_eq!(cpu.sp as u16, depth + 1);
        assert_eq!(cpu.stack[depth as usize], pc);
    }
    assert_eq!(run_one(&mut cpu, &mut ram, 0x2400), Err(ExecError::StackOverflow));
    assert_eq!(cpu.sp, 16);
    for depth in (0..16u16).rev() {
        run_one(&mut cpu, &mut ram, 0x00ee).unwrap();
        assert_eq!(cpu.sp as u16, depth);
    }
    assert_eq!(cpu.pc, 0x202);
    assert_eq!(run_one(&mut cpu, &mut ram, 0x00ee), Err(ExecError::StackUnderflow));
}

#[test]
fn jumps() {
    let mut cpu = CPU::new();
    let mut ram = Ram::new();
    run_one(&mut cpu, &mut ram, 0x1abc).unwrap();
    assert_eq!(cpu.pc, 0xabc);
    cpu.v[0] = 0x10;
    run_one(&mut cpu, &mut ram, 0xb100).unwrap();
    assert_eq!(cpu.pc, 0x110);
    run_one(&mut cpu, &mut ram, 0x0123).unwrap();
    assert_eq!(cpu.pc, 0x123);
}

#[test]
fn unknown_instruction_is_an_error() {
    let mut cpu = CPU::new();
    let mut ram = Ram::new();
    assert_eq!(run_one(&mut cpu, &mut ram, 0x5121), Err(ExecError::Unknown(Inst(5, 1, 2, 1))));
    assert_eq!(run_one(&mut cpu, &mut ram, 0xf0ff), Err(ExecError::Unknown(Inst(0xf, 0, 0xf, 0xf))));
    assert_eq!(cpu.pc, 0x200);
}

#[test]
fn index_register_operations() {
    let mut cpu = CPU::new();
    let mut ram = Ram::new();
    run_one(&mut cpu, &mut ram, 0xa123).unwrap();
    assert_eq!(cpu.i, 0x123);
    cpu.v[2] = 0x10;
    run_one(&mut cpu, &mut ram, 0xf21e).unwrap();
    assert_eq!(cpu.i, 0x133);
    cpu.v[2] = 0xb;
    run_one(&mut cpu, &mut ram, 0xf229).unwrap();
    assert_eq!(cpu.i, 55);
}

#[test]
fn bcd_and_register_store_load() {
    let mut cpu = CPU::new();
    let mut ram = Ram::new();
    cpu.i = 0x300;
    cpu.v[3] = 234;
    run_one(&mut cpu, &mut ram, 0xf333).unwrap();
    assert_eq!(&ram.buf[0x300..0x303], &[2, 3, 4]);
    cpu.v[0] = 9;
    cpu.v[1] = 8;
    cpu.v[2] = 7;
    run_one(&mut cpu, &mut ram, 0xf255).unwrap();
    assert_eq!(&ram.buf[0x300..0x304], &[9, 8, 7, 0]);
    let mut other = CPU::new();
    other.i = 0x300;
    run_one(&mut other, &mut ram, 0xf365).unwrap();
    assert_eq!(&other.v[0..5], &[9, 8, 7, 0, 0]);
}

#[test]
fn memory_access_past_the_end_is_an_error() {
    let mut cpu = CPU::new();
    let mut ram = Ram::new();
    cpu.i = 0xffe;
    assert_eq!(run_one(&mut cpu, &mut ram, 0xf033), Err(ExecError::OutOfMemory));
    assert_eq!(run_one(&mut cpu, &mut ram, 0xf255), Err(ExecError::OutOfMemory));
    assert_eq!(run_one(&mut cpu, &mut ram, 0xd003), Err(ExecError::OutOfMemory));
    assert_eq!(cpu.pc, 0x200);
}

#[test]
fn draw_sets_flag_from_the_display() {
    let mut cpu = CPU::new();
    let mut ram = Ram::new();
    let mut dsp = CountingDisplay { clears: 0, draws: 0, collide: true };
    let kbd = FixedKeys { pressed: vec![], next: 0, waits: Cell::new(0) };
    cpu.execute(Inst(0xd, 0, 1, 5), &mut ram, &mut dsp, &kbd).unwrap();
    assert_eq!(cpu.v[0xf], 1);
    dsp.collide = false;
    cpu.execute(Inst(0xd, 0, 1, 5), &mut ram, &mut dsp, &kbd).unwrap();
    assert_eq!(cpu.v[0xf], 0);
    assert_eq!(dsp.draws, 2);
}

#[test]
fn random_is_masked() {
    let mut cpu = CPU::new();
    let mut ram = Ram::new();
    let mut dsp = CountingDisplay { clears: 0, draws: 0, collide: false };
    let kbd = FixedKeys { pressed: vec![], next: 0, waits: Cell::new(0) };
    for _ in 0..32 {
        cpu.execute(Inst(0xc, 1, 0, 0xf), &mut ram, &mut dsp, &kbd).unwrap();
        assert!(cpu.v[1] <= 0x0f);
        cpu.execute(Inst(0xc, 2, 0, 0), &mut ram, &mut dsp, &kbd).unwrap();
        assert_eq!(cpu.v[2], 0);
    }
    let mut seen = std::collections::HashSet::new();
    for _ in 0..64 {
        cpu.execute(Inst(0xc, 1, 0xf, 0xf), &mut ram, &mut dsp, &kbd).unwrap();
        seen.insert(cpu.v[1]);
    }
    assert!(seen.len() > 1);
}

#[test]
fn timers_from_instructions() {
    let mut cpu = CPU::new();
    let mut ram = Ram::new();
    cpu.v[1] = 5;
    run_one(&mut cpu, &mut ram, 0xf115).unwrap();
    run_one(&mut cpu, &mut ram, 0xf118).unwrap();
    assert_eq!(cpu.dt.get(), 5);
    assert_eq!(cpu.st.get(), 5);
    cpu.dt.ticks(2);
    run_one(&mut cpu, &mut ram, 0xf207).unwrap();
    assert_eq!(cpu.v[2], 3);
}

#[test]
fn timer_counts_down_to_zero_and_stays() {
    let mut t = Timer::new();
    assert_eq!(t.get(), 0);
    t.set(3);
    let mut last = t.get();
    for _ in 0..3 {
        t.tick();
        assert!(t.get() < last);
        last = t.get();
    }
    assert_eq!(t.get(), 0);
    t.tick();
    assert_eq!(t.get(), 0);
    t.set(200);
    t.ticks(1000);
    assert_eq!(t.get(), 0);
    t.set(200);
    t.ticks(50);
    assert_eq!(t.get(), 150);
}

#[test]
fn clear_then_jump_to_self_loops_forever() {
    let mut chip = machine(&[0x00, 0xe0, 0x12, 0x00]);
    for n in 1..=100 {
        chip.cycle().unwrap();
        chip.cycle().unwrap();
        assert_eq!(chip.display.clears, n);
        assert_eq!(chip.cpu.pc, 0x200);
        assert!(!chip.finished());
    }
}

#[test]
fn load_then_add_immediate() {
    let mut chip = machine(&[0x6a, 0x02, 0x7a, 0x05]);
    chip.cycle().unwrap();
    assert_eq!(chip.cpu.v[0xa], 2);
    chip.cycle().unwrap();
    assert_eq!(chip.cpu.v[0xa], 7);
    assert_eq!(chip.cpu.v[0xf], 0);
    chip.cpu.v[0xa] = 0xff;
    chip.load(&[0x6a, 0xff, 0x7a, 0x05]);
    chip.cpu.pc = 0x200;
    chip.cycle().unwrap();
    chip.cycle().unwrap();
    assert_eq!(chip.cpu.v[0xa], 4);
    assert_eq!(chip.cpu.v[0xf], 0);
}

#[test]
fn new_machine_holds_the_font() {
    let chip = machine(&[]);
    let f = font();
    assert_eq!(f.len(), 80);
    assert_eq!(&chip.ram.buf[0..80], &f[..]);
    assert_eq!(&chip.ram.buf[0..5], &[0xf0, 0x90, 0x90, 0x90, 0xf0]);
    assert!(chip.ram.buf[80..].iter().all(|b| *b == 0));
    assert_eq!(chip.cpu.pc, 0x200);
}

#[test]
fn run_off_the_end_finishes() {
    let mut chip = machine(&[0x1f, 0xfe]);
    chip.cycle().unwrap();
    assert_eq!(chip.cpu.pc, 0xffe);
    assert!(!chip.finished());
    chip.cpu.pc = 0xfff;
    assert!(chip.finished());
    assert_eq!(chip.cycle(), Err(ExecError::PcOutOfRange));
}

#[test]
fn ram_load_copies_what_fits() {
    let mut ram = Ram::new();
    assert_eq!(ram.load(0x200, &[1, 2, 3]), 3);
    assert_eq!(&ram.buf[0x1ff..0x204], &[0, 1, 2, 3, 0]);
    let big = vec![7u8; 5000];
    assert_eq!(ram.load(0x200, &big), RAM_SIZE - 0x200);
    assert_eq!(ram.buf[RAM_SIZE - 1], 7);
    assert_eq!(ram.fetch(0x200), Some([7, 7]));
    assert_eq!(ram.fetch(0xffe), Some([7, 7]));
    assert_eq!(ram.fetch(0xfff), None);
    ram.load_slice(0x10, &[9, 9]);
    assert_eq!(&ram.buf[0x0f..0x13], &[0, 9, 9, 0]);
}

#[test]
fn drawing_twice_collides_and_restores() {
    let mut fb = Framebuffer::new();
    let sprite = [0b1111_0000u8, 0b1001_0000];
    assert!(!fb.draw(62, 31, &sprite));
    assert!(fb.get(62, 31));
    assert!(fb.get(1, 31));
    assert!(!fb.get(2, 31));
    assert!(fb.get(62, 0));
    assert!(fb.get(1, 0));
    assert!(!fb.get(63, 0));
    assert!(fb.draw(62, 31, &sprite));
    for x in 0..WIDTH {
        for y in 0..HEIGHT {
            assert!(!fb.get(x, y));
        }
    }
    assert!(!fb.draw(0, 0, &[0, 0]));
    fb.draw(3, 4, &[0xff]);
    fb.clear();
    assert!(!fb.get(3, 4));
}

#[test]
fn keys_map_to_pad() {
    assert_eq!(key_of('1'), Some(1));
    assert_eq!(key_of('x'), Some(0));
    assert_eq!(key_of('v'), Some(0xf));
    assert_eq!(key_of('p'), None);
    assert_eq!(keys_of(&"q?zv".chars().collect()), vec![4, 0xa, 0xf]);
}

#[test]
fn dump_reports_registers() {
    let mut cpu = CPU::new();
    cpu.v[3] = 9;
    let d = cpu.dump();
    assert_eq!(d.pc, 0x200);
    assert_eq!(d.v[3], 9);
    assert_eq!(d.sp, 0);
    assert_eq!(d.dt, 0);
}

#[test]
fn requests_name_the_outside_work() {
    let mut cpu = CPU::new();
    cpu.v[1] = 3;
    cpu.v[2] = 4;
    cpu.i = 0x10;
    assert_eq!(cpu.request(Inst(0, 0, 0xe, 0)), Request::Clear);
    assert_eq!(cpu.request(Inst(0xc, 1, 0xf, 0xf)), Request::Random);
    assert_eq!(
        cpu.request(Inst(0xd, 1, 2, 5)),
        Request::Draw { x: 3, y: 4, start: 0x10, end: 0x15 }
    );
    assert_eq!(cpu.request(Inst(0xe, 2, 9, 0xe)), Request::IsPressed(4));
    assert_eq!(cpu.request(Inst(0xe, 1, 0xa, 1)), Request::IsPressed(3));
    assert_eq!(cpu.request(Inst(0xe, 1, 0xa, 2)), Request::Nothing);
    assert_eq!(cpu.request(Inst(0xf, 1, 0, 0xa)), Request::WaitKey);
    assert_eq!(cpu.request(Inst(0x8, 1, 2, 4)), Request::Nothing);
    cpu.i = 0xffe;
    assert_eq!(cpu.request(Inst(0xd, 1, 2, 5)), Request::Nothing);
}
