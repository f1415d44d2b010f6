//! The machine: memory, registers, stack, display and keypad, together
//! with the executor that applies each decoded instruction to the state,
//! and the fetch-decode-execute driver.
//!
//! Every opcode's effect is written down as a transition function on
//! `MachineView`, the mathematical view of the machine, and each handler
//! is proved to realise its transition exactly.  The driver advances PC by
//! 2 before dispatching, so CALL saves and skips count from the address of
//! the next instruction.
//!
//! The transition functions are marked opaque so that the dispatcher's
//! proof stays tractable for the solver: each handler reveals the one
//! transition it implements, and a proof that needs the definition of a
//! transition reveals it the same way.

use vstd::prelude::*;

use crate::display::{spec_collision, spec_draw, Chip8Display};
use crate::instructions::Instruction;
use crate::keyboard::{first_pressed_key, Chip8Keyboard};
use crate::memory::{word_at, Memory};
use crate::registers::{Chip8Registers, Register};
use crate::sprites::{get_location, ASCIISprite};
use crate::stack::Chip8Stack;
use crate::Chip8Error;
use vstd::wrapping::{u16_specs, u8_specs};

verus! {

/// The mathematical view of the whole machine.
#[verifier::ext_equal]
pub struct MachineView {
    /// The 4096 memory bytes.
    pub mem: Seq<u8>,
    /// The 16 general registers V0..VF.
    pub v: Seq<u8>,
    /// The address register.
    pub i: u16,
    /// The delay timer.
    pub delay: u8,
    /// The sound timer.
    pub sound: u8,
    /// The program counter.
    pub pc: u16,
    /// The return-address stack, bottom first.
    pub stack: Seq<u16>,
    /// The 64x32 frame buffer, row-major.
    pub pixels: Seq<bool>,
    /// The 16 keypad states.
    pub keys: Seq<bool>,
}

/// The difference of two bytes, wrapping modulo 256.
pub open spec fn sub8(a: u8, b: u8) -> u8 {
    u8_specs::wrapping_sub(a, b)
}

impl MachineView {
    /// Every component has its fixed size; the stack holds at most 16
    /// return addresses.
    pub open spec fn wf(self) -> bool {
        &&& self.mem.len() == 4096
        &&& self.v.len() == 16
        &&& self.stack.len() <= 16
        &&& self.pixels.len() == 2048
        &&& self.keys.len() == 16
    }

    /// The view with general register `x` set to `value`.
    pub open spec fn with_v(self, x: int, value: u8) -> MachineView {
        MachineView { v: self.v.update(x, value), ..self }
    }

    /// The view with PC advanced 2 bytes past the next instruction when
    /// `cond` holds: the skip applied by the conditional opcodes.
    pub open spec fn skip_if(self, cond: bool) -> MachineView {
        if cond {
            MachineView { pc: u16_specs::wrapping_add(self.pc, 2), ..self }
        } else {
            self
        }
    }

    /// `00E0`: every pixel off.
    #[verifier::opaque]
    pub open spec fn after_cls(self) -> MachineView {
        MachineView { pixels: Seq::new(2048, |i: int| false), ..self }
    }

    /// `00EE`: PC restored from the stack top, which is popped.  Applies
    /// when the stack is not empty.
    #[verifier::opaque]
    pub open spec fn after_ret(self) -> MachineView {
        MachineView { pc: self.stack.last(), stack: self.stack.drop_last(), ..self }
    }

    /// `1nnn`: PC set to the target.
    #[verifier::opaque]
    pub open spec fn after_jp(self, address: u16) -> MachineView {
        MachineView { pc: address, ..self }
    }

    /// `2nnn`: the already-advanced PC pushed, then PC set to the target.
    /// Applies when the stack is not full.
    #[verifier::opaque]
    pub open spec fn after_call(self, address: u16) -> MachineView {
        MachineView { stack: self.stack.push(self.pc), pc: address, ..self }
    }

    /// `3xkk`: skip when Vx equals the constant.
    #[verifier::opaque]
    pub open spec fn after_sec(self, x: int, constant: u8) -> MachineView {
        self.skip_if(self.v[x] == constant)
    }

    /// `4xkk`: skip when Vx differs from the constant.
    #[verifier::opaque]
    pub open spec fn after_snec(self, x: int, constant: u8) -> MachineView {
        self.skip_if(self.v[x] != constant)
    }

    /// `5xy0`: skip when Vx equals Vy.
    #[verifier::opaque]
    pub open spec fn after_ser(self, x: int, y: int) -> MachineView {
        self.skip_if(self.v[x] == self.v[y])
    }

    /// `9xy0`: skip when Vx differs from Vy.
    #[verifier::opaque]
    pub open spec fn after_sne(self, x: int, y: int) -> MachineView {
        self.skip_if(self.v[x] != self.v[y])
    }

    /// `6xkk`: Vx set to the constant.
    #[verifier::opaque]
    pub open spec fn after_ldc(self, x: int, constant: u8) -> MachineView {
        self.with_v(x, constant)
    }

    /// `7xkk`: Vx increased by the constant modulo 256; VF untouched.
    #[verifier::opaque]
    pub open spec fn after_addc(self, x: int, constant: u8) -> MachineView {
        self.with_v(x, u8_specs::wrapping_add(self.v[x], constant))
    }

    /// `8xy0`: Vx set to Vy.
    #[verifier::opaque]
    pub open spec fn after_ldr(self, x: int, y: int) -> MachineView {
        self.with_v(x, self.v[y])
    }

    /// `8xy1`: Vx set to Vx | Vy.
    #[verifier::opaque]
    pub open spec fn after_or(self, x: int, y: int) -> MachineView {
        self.with_v(x, self.v[x] | self.v[y])
    }

    /// `8xy2`: Vx set to Vx & Vy.
    #[verifier::opaque]
    pub open spec fn after_and(self, x: int, y: int) -> MachineView {
        self.with_v(x, self.v[x] & self.v[y])
    }

    /// `8xy3`: Vx set to Vx ^ Vy.
    #[verifier::opaque]
    pub open spec fn after_xor(self, x: int, y: int) -> MachineView {
        self.with_v(x, self.v[x] ^ self.v[y])
    }

    /// `8xy4`: Vx set to (Vx + Vy) mod 256, then VF to 1 exactly when the
    /// sum carried, i.e. Vx + Vy >= 256.  The flag write comes last, so it
    /// wins when x is VF itself.
    #[verifier::opaque]
    pub open spec fn after_addr(self, x: int, y: int) -> MachineView {
        let sum = self.v[x] + self.v[y];
        MachineView {
            v: self.v.update(x, u8_specs::wrapping_add(self.v[x], self.v[y])).update(
                15,
                if sum >= 256 {
                    1u8
                } else {
                    0u8
                },
            ),
            ..self
        }
    }

    /// `8xy5`: Vx set to (Vx - Vy) mod 256, then VF to 1 exactly when no
    /// borrow occurred, i.e. Vx > Vy.  The flag write comes last.
    #[verifier::opaque]
    pub open spec fn after_sub(self, x: int, y: int) -> MachineView {
        MachineView {
            v: self.v.update(x, sub8(self.v[x], self.v[y])).update(
                15,
                if self.v[x] > self.v[y] {
                    1u8
                } else {
                    0u8
                },
            ),
            ..self
        }
    }

    /// `8xy7`: Vx set to (Vy - Vx) mod 256, then VF to 1 exactly when no
    /// borrow occurred, i.e. Vy > Vx.  The flag write comes last.
    #[verifier::opaque]
    pub open spec fn after_subn(self, x: int, y: int) -> MachineView {
        MachineView {
            v: self.v.update(x, sub8(self.v[y], self.v[x])).update(
                15,
                if self.v[y] > self.v[x] {
                    1u8
                } else {
                    0u8
                },
            ),
            ..self
        }
    }

    /// `8x_6`: Vx shifted right by one, then VF set to the bit shifted
    /// out: the old low bit of Vx.  The flag write comes last.
    #[verifier::opaque]
    pub open spec fn after_shr(self, x: int) -> MachineView {
        MachineView { v: self.v.update(x, self.v[x] >> 1u8).update(15, self.v[x] & 1), ..self }
    }

    /// `8x_E`: Vx shifted left by one modulo 256, then VF set to the bit
    /// shifted out: the old high bit of Vx.  The flag write comes last.
    #[verifier::opaque]
    pub open spec fn after_shl(self, x: int) -> MachineView {
        MachineView {
            v: self.v.update(x, self.v[x] << 1u8).update(15, (self.v[x] >> 7u8) & 1),
            ..self
        }
    }

    /// `Annn`: I set to the address.
    #[verifier::opaque]
    pub open spec fn after_ldi(self, address: u16) -> MachineView {
        MachineView { i: address, ..self }
    }

    /// `Bnnn`: PC set to V0 + address, wrapping.
    #[verifier::opaque]
    pub open spec fn after_jpa(self, address: u16) -> MachineView {
        MachineView { pc: u16_specs::wrapping_add(address, self.v[0] as u16), ..self }
    }

    /// `Cxkk`: Vx set to a byte from the random source, masked with the
    /// constant.
    #[verifier::opaque]
    pub open spec fn after_rnd(self, x: int, constant: u8, byte: u8) -> MachineView {
        self.with_v(x, byte & constant)
    }

    /// The rows read from memory by a draw of `n` bytes starting at I.
    pub open spec fn sprite_rows(self, n: int) -> Seq<u8> {
        if n == 0 {
            Seq::empty()
        } else {
            self.mem.subrange(self.i as int, self.i + n)
        }
    }

    /// `Dxyn`: the sprite of `n` rows at I XOR-drawn at (Vx, Vy), then VF
    /// set to 1 exactly when the draw turned an on pixel off.  Applies
    /// when the `n` rows lie inside memory.
    #[verifier::opaque]
    pub open spec fn after_drw(self, x: int, y: int, n: int) -> MachineView {
        let rows = self.sprite_rows(n);
        let hit = spec_collision(self.pixels, rows, self.v[x], self.v[y]);
        MachineView {
            pixels: spec_draw(self.pixels, rows, self.v[x], self.v[y]),
            v: self.v.update(
                15,
                if hit {
                    1u8
                } else {
                    0u8
                },
            ),
            ..self
        }
    }

    /// `Ex9E`: skip when the key named by the low nibble of Vx is pressed.
    #[verifier::opaque]
    pub open spec fn after_skp(self, x: int) -> MachineView {
        self.skip_if(self.keys[(self.v[x] & 0xF) as int])
    }

    /// `ExA1`: skip when that key is not pressed.
    #[verifier::opaque]
    pub open spec fn after_sknp(self, x: int) -> MachineView {
        self.skip_if(!self.keys[(self.v[x] & 0xF) as int])
    }

    /// `Fx07`: Vx set to the delay timer.
    #[verifier::opaque]
    pub open spec fn after_ldrd(self, x: int) -> MachineView {
        self.with_v(x, self.delay)
    }

    /// `Fx0A`: with a key pressed, Vx set to the lowest pressed key.  With
    /// none pressed, PC moved back to the instruction itself, so the
    /// machine re-executes it until a key arrives: the blocking wait.
    #[verifier::opaque]
    pub open spec fn after_ldvk(self, x: int) -> MachineView {
        match first_pressed_key(self.keys, 0) {
            Some(k) => self.with_v(x, k),
            None => MachineView { pc: u16_specs::wrapping_sub(self.pc, 2), ..self },
        }
    }

    /// `Fx15`: the delay timer set to Vx.
    #[verifier::opaque]
    pub open spec fn after_lddr(self, x: int) -> MachineView {
        MachineView { delay: self.v[x], ..self }
    }

    /// `Fx18`: the sound timer set to Vx.
    #[verifier::opaque]
    pub open spec fn after_ldsr(self, x: int) -> MachineView {
        MachineView { sound: self.v[x], ..self }
    }

    /// `Fx1E`: I increased by Vx, wrapping.
    #[verifier::opaque]
    pub open spec fn after_addi(self, x: int) -> MachineView {
        MachineView { i: u16_specs::wrapping_add(self.i, self.v[x] as u16), ..self }
    }

    /// `Fx29`: I pointed at the font glyph of the low nibble of Vx.
    #[verifier::opaque]
    pub open spec fn after_ldir(self, x: int) -> MachineView {
        MachineView { i: (5 * (self.v[x] & 0xF)) as u16, ..self }
    }

    /// `Fx33`: the decimal digits of Vx written at I, I+1, I+2: hundreds,
    /// tens, ones.  Applies when all three addresses lie inside memory.
    #[verifier::opaque]
    pub open spec fn after_ldbr(self, x: int) -> MachineView {
        let value = self.v[x] as int;
        MachineView {
            mem: self.mem.update(self.i as int, (value / 100) as u8).update(
                self.i + 1,
                ((value / 10) % 10) as u8,
            ).update(self.i + 2, (value % 10) as u8),
            ..self
        }
    }

    /// `Fx55`: V0..Vx stored at I onward.  Applies when the `x + 1`
    /// target addresses lie inside memory.
    #[verifier::opaque]
    pub open spec fn after_ldrs(self, x: int) -> MachineView {
        MachineView {
            mem: Seq::new(
                4096,
                |j: int|
                    if self.i <= j <= self.i + x {
                        self.v[j - self.i]
                    } else {
                        self.mem[j]
                    },
            ),
            ..self
        }
    }

    /// `Fx65`: V0..Vx loaded from I onward.  Applies when the `x + 1`
    /// source addresses lie inside memory.
    #[verifier::opaque]
    pub open spec fn after_rdrs(self, x: int) -> MachineView {
        MachineView {
            v: Seq::new(
                16,
                |j: int|
                    if j <= x {
                        self.mem[self.i + j]
                    } else {
                        self.v[j]
                    },
            ),
            ..self
        }
    }

    /// One 60 Hz timer tick: each timer decremented while nonzero.
    #[verifier::opaque]
    pub open spec fn after_tick(self) -> MachineView {
        MachineView {
            delay: if self.delay > 0 {
                (self.delay - 1) as u8
            } else {
                0u8
            },
            sound: if self.sound > 0 {
                (self.sound - 1) as u8
            } else {
                0u8
            },
            ..self
        }
    }
}

/// The effect of one decoded instruction on the machine, or the fatal
/// error it raises.  `rnd` is the byte drawn from the random source; only
/// `RND` reads it.  The state is assumed already advanced past the
/// instruction, so skips and CALL see the address of the next instruction.
pub open spec fn spec_execute(s: MachineView, instr: Instruction, rnd: u8) -> Result<
    MachineView,
    Chip8Error,
> {
    match instr {
        Instruction::SYS(_) => Ok(s),
        Instruction::CLS => Ok(s.after_cls()),
        Instruction::RET => if s.stack.len() == 0 {
            Err(Chip8Error::StackUnderflow)
        } else {
            Ok(s.after_ret())
        },
        Instruction::JP(address) => Ok(s.after_jp(address)),
        Instruction::CALL(address) => if s.stack.len() >= 16 {
            Err(Chip8Error::StackOverflow)
        } else {
            Ok(s.after_call(address))
        },
        Instruction::SEC(rx, kk) => Ok(s.after_sec(rx.idx(), kk)),
        Instruction::SNEC(rx, kk) => Ok(s.after_snec(rx.idx(), kk)),
        Instruction::SER(rx, ry) => Ok(s.after_ser(rx.idx(), ry.idx())),
        Instruction::LDC(rx, kk) => Ok(s.after_ldc(rx.idx(), kk)),
        Instruction::ADDC(rx, kk) => Ok(s.after_addc(rx.idx(), kk)),
        Instruction::LDR(rx, ry) => Ok(s.after_ldr(rx.idx(), ry.idx())),
        Instruction::OR(rx, ry) => Ok(s.after_or(rx.idx(), ry.idx())),
        Instruction::AND(rx, ry) => Ok(s.after_and(rx.idx(), ry.idx())),
        Instruction::XOR(rx, ry) => Ok(s.after_xor(rx.idx(), ry.idx())),
        Instruction::ADDR(rx, ry) => Ok(s.after_addr(rx.idx(), ry.idx())),
        Instruction::SUB(rx, ry) => Ok(s.after_sub(rx.idx(), ry.idx())),
        Instruction::SHR(rx) => Ok(s.after_shr(rx.idx())),
        Instruction::SUBN(rx, ry) => Ok(s.after_subn(rx.idx(), ry.idx())),
        Instruction::SHL(rx) => Ok(s.after_shl(rx.idx())),
        Instruction::SNE(rx, ry) => Ok(s.after_sne(rx.idx(), ry.idx())),
        Instruction::LDI(address) => Ok(s.after_ldi(address)),
        Instruction::JPA(address) => Ok(s.after_jpa(address)),
        Instruction::RND(rx, kk) => Ok(s.after_rnd(rx.idx(), kk, rnd)),
        Instruction::DRW(rx, ry, n) => if n > 0 && s.i + n > 4096 {
            Err(
                Chip8Error::MemoryOutOfRange(
                    if s.i >= 4096 {
                        s.i as usize
                    } else {
                        4096
                    },
                ),
            )
        } else {
            Ok(s.after_drw(rx.idx(), ry.idx(), n as int))
        },
        Instruction::SKP(rx) => Ok(s.after_skp(rx.idx())),
        Instruction::SKNP(rx) => Ok(s.after_sknp(rx.idx())),
        Instruction::LDRD(rx) => Ok(s.after_ldrd(rx.idx())),
        Instruction::LDVK(rx) => Ok(s.after_ldvk(rx.idx())),
        Instruction::LDDR(rx) => Ok(s.after_lddr(rx.idx())),
        Instruction::LDSR(rx) => Ok(s.after_ldsr(rx.idx())),
        Instruction::ADDI(rx) => Ok(s.after_addi(rx.idx())),
        Instruction::LDIR(rx) => Ok(s.after_ldir(rx.idx())),
        Instruction::LDBR(rx) => if s.i + 2 >= 4096 {
            Err(
                Chip8Error::MemoryOutOfRange(
                    if s.i >= 4096 {
                        s.i as usize
                    } else if s.i + 1 >= 4096 {
                        (s.i + 1) as usize
                    } else {
                        (s.i + 2) as usize
                    },
                ),
            )
        } else {
            Ok(s.after_ldbr(rx.idx()))
        },
        Instruction::LDRS(rx) => if s.i + rx.idx() >= 4096 {
            Err(
                Chip8Error::MemoryOutOfRange(
                    if s.i >= 4096 {
                        s.i as usize
                    } else {
                        4096
                    },
                ),
            )
        } else {
            Ok(s.after_ldrs(rx.idx()))
        },
        Instruction::RDRS(rx) => if s.i + rx.idx() >= 4096 {
            Err(
                Chip8Error::MemoryOutOfRange(
                    if s.i >= 4096 {
                        s.i as usize
                    } else {
                        4096
                    },
                ),
            )
        } else {
            Ok(s.after_rdrs(rx.idx()))
        },
    }
}

/// The machine after at most `fuel` fetch-decode-execute cycles, drawing
/// random bytes from the front of `rnds`: the state and true when a cycle
/// stopped on the end-of-program spin, the state and false when the fuel
/// ran out, or the state at the failing cycle and its error.
pub open spec fn spec_run(s: MachineView, fuel: nat, rnds: Seq<u8>) -> Result<
    (MachineView, bool),
    (MachineView, Chip8Error),
>
    decreases fuel,
{
    if fuel == 0 {
        Ok((s, false))
    } else {
        match spec_step(s, rnds[0]) {
            Err(e) => Err((s, e)),
            Ok((s2, true)) => Ok((s2, true)),
            Ok((s2, false)) => spec_run(s2, (fuel - 1) as nat, rnds.skip(1)),
        }
    }
}

/// Running for `fuel` cycles is running for the first `a` and then the
/// remaining `fuel - a`, provided the first `a` cycles neither halt nor
/// fail.
proof fn lemma_spec_run_split(s0: MachineView, a: nat, rnds: Seq<u8>, fuel: nat, mid: MachineView)
    requires
        a <= fuel,
        a <= rnds.len(),
        spec_run(s0, a, rnds.take(a as int)) == Ok::<(MachineView, bool), (MachineView, Chip8Error)>(
            (mid, false),
        ),
    ensures
        spec_run(s0, fuel, rnds) == spec_run(mid, (fuel - a) as nat, rnds.skip(a as int)),
    decreases a,
{
    if a == 0 {
        assert(mid == s0);
        assert(rnds.skip(0) =~= rnds);
    } else {
        let r1 = rnds.take(a as int);
        assert(r1[0] == rnds[0]);
        match spec_step(s0, rnds[0]) {
            Err(e) => {
                assert(false);
            },
            Ok((s1, halted)) => {
                assert(!halted);
                assert(spec_run(s1, (a - 1) as nat, r1.skip(1)) == Ok::<
                    (MachineView, bool),
                    (MachineView, Chip8Error),
                >((mid, false)));
                assert(r1.skip(1) =~= rnds.skip(1).take(a - 1));
                lemma_spec_run_split(s1, (a - 1) as nat, rnds.skip(1), (fuel - 1) as nat, mid);
                assert(rnds.skip(1).skip(a - 1) =~= rnds.skip(a as int));
            },
        }
    }
}

/// Whether executing `op` on `pre` with random byte `byte` yields the
/// machine state `post` and the returned `result`: success leaves the
/// state of `spec_execute`, an error leaves the state unchanged.
pub open spec fn execute_outcome(
    pre: MachineView,
    post: MachineView,
    op: Instruction,
    byte: u8,
    result: Result<(), Chip8Error>,
) -> bool {
    match spec_execute(pre, op, byte) {
        Ok(s) => result == Ok::<(), Chip8Error>(()) && post == s,
        Err(e) => result == Err::<(), Chip8Error>(e) && post == pre,
    }
}

/// The effect of one fetch-decode-execute cycle on the machine: the word
/// at PC is fetched and decoded, PC advances by 2, and the instruction is
/// executed; the flag is true when the cycle stops on a jump to its own
/// address, the conventional end-of-program spin, which is not executed.
/// A fatal error leaves the machine unchanged.  `rnd` is the byte the
/// random source would supply.
pub open spec fn spec_step(s: MachineView, rnd: u8) -> Result<(MachineView, bool), Chip8Error> {
    if s.pc + 1 >= 4096 {
        Err(
            Chip8Error::MemoryOutOfRange(
                if s.pc >= 4096 {
                    s.pc as usize
                } else {
                    (s.pc + 1) as usize
                },
            ),
        )
    } else {
        let word = word_at(s.mem, s.pc as int);
        match Instruction::spec_new(word) {
            None => Err(Chip8Error::UnknownInstruction(word)),
            Some(instr) => {
                let advanced = MachineView { pc: (s.pc + 2) as u16, ..s };
                if instr == Instruction::JP(s.pc) {
                    Ok((advanced, true))
                } else {
                    match spec_execute(advanced, instr, rnd) {
                        Ok(s2) => Ok((s2, false)),
                        Err(e) => Err(e),
                    }
                }
            },
        }
    }
}

/// Relies on rand::random: draws one byte from the thread-local random
/// number generator.  Nothing is promised of the value.
#[verifier::external_body]
fn random_byte() -> u8 {
    rand::random::<u8>()
}

/// Every byte masked to its low nibble names one of the 16 keys.
proof fn lemma_low_nibble()
    by (bit_vector)
    ensures
        forall|b: u8| #[trigger] (b & 0xF) < 16,
{
}

/// The CHIP-8 machine.
pub struct Chip8Machine {
    /// The 4 KiB memory.
    pub memory_bank: Memory,
    /// The register file.
    pub registers: Chip8Registers,
    /// The keypad.
    pub keyboard: Chip8Keyboard,
    /// The display.
    pub display: Chip8Display,
    /// The return-address stack.
    pub stack: Chip8Stack,
}

impl View for Chip8Machine {
    type V = MachineView;

    open spec fn view(&self) -> MachineView {
        MachineView {
            mem: self.memory_bank@,
            v: self.registers.v@,
            i: self.registers.i,
            delay: self.registers.delay,
            sound: self.registers.sound,
            pc: self.registers.pc,
            stack: self.stack@,
            pixels: self.display@,
            keys: self.keyboard@,
        }
    }
}

impl Chip8Machine {
    /// Creates the machine in its power-on state: font in memory, PC at
    /// 0x200, everything else cleared.
    pub fn new() -> (machine: Chip8Machine)
        ensures
            machine@.wf(),
            forall|j: int| 0 <= j < 80 ==> machine@.mem[j] == crate::sprites::font_byte(j),
            forall|j: int| 80 <= j < 4096 ==> machine@.mem[j] == 0u8,
            forall|j: int| 0 <= j < 16 ==> machine@.v[j] == 0u8,
            machine@.i == 0u16,
            machine@.delay == 0u8,
            machine@.sound == 0u8,
            machine@.pc == 0x200u16,
            machine@.stack == Seq::<u16>::empty(),
            forall|j: int| 0 <= j < 2048 ==> !machine@.pixels[j],
            forall|j: int| 0 <= j < 16 ==> !machine@.keys[j],
    {
        Chip8Machine {
            memory_bank: Memory::new(),
            registers: Chip8Registers::new(),
            keyboard: Chip8Keyboard::new(),
            display: Chip8Display::new(),
            stack: Chip8Stack::new(),
        }
    }

    /// `0nnn`: a jump to a host machine routine; modern interpreters,
    /// this one included, parse it and do nothing.
    pub fn run_sys(&mut self, address: u16)
        requires
            old(self)@.wf(),
        ensures
            final(self)@ == old(self)@,
    {
        let _ = address;
    }

    /// `00E0`: clears the display.
    pub fn run_cls(&mut self)
        requires
            old(self)@.wf(),
        ensures
            final(self)@.wf(),
            final(self)@ == old(self)@.after_cls(),
    {
        self.display.clear();
        proof {
            reveal(MachineView::after_cls);
            assert(self@ =~= old(self)@.after_cls());
        }
    }

    /// `1nnn`: jumps to the target address.
    pub fn run_jp(&mut self, address: u16)
        requires
            old(self)@.wf(),
        ensures
            final(self)@.wf(),
            final(self)@ == old(self)@.after_jp(address),
    {
        self.registers.pc = address;
        proof {
            reveal(MachineView::after_jp);
            assert(self@ =~= old(self)@.after_jp(address));
        }
    }

    /// `3xkk`: skips the next instruction when Vx equals the constant.
    pub fn run_sec(&mut self, register: Register, constant: u8)
        requires
            old(self)@.wf(),
        ensures
            final(self)@.wf(),
            final(self)@ == old(self)@.after_sec(register.idx(), constant),
    {
        let register_value = self.registers.get(register);
        if register_value == constant {
            self.registers.pc = self.registers.pc.wrapping_add(2);
        }
        proof {
            reveal(MachineView::after_sec);
            assert(self@ =~= old(self)@.after_sec(register.idx(), constant));
        }
    }

    /// `4xkk`: skips the next instruction when Vx differs from the
    /// constant.
    pub fn run_snec(&mut self, register: Register, constant: u8)
        requires
            old(self)@.wf(),
        ensures
            final(self)@.wf(),
            final(self)@ == old(self)@.after_snec(register.idx(), constant),
    {
        let register_value = self.registers.get(register);
        if register_value != constant {
            self.registers.pc = self.registers.pc.wrapping_add(2);
        }
        proof {
            reveal(MachineView::after_snec);
            assert(self@ =~= old(self)@.after_snec(register.idx(), constant));
        }
    }

    /// `5xy0`: skips the next instruction when Vx equals Vy.
    pub fn run_ser(&mut self, register_x: Register, register_y: Register)
        requires
            old(self)@.wf(),
        ensures
            final(self)@.wf(),
            final(self)@ == old(self)@.after_ser(register_x.idx(), register_y.idx()),
    {
        let register_x_value = self.registers.get(register_x);
        let register_y_value = self.registers.get(register_y);
        if register_x_value == register_y_value {
            self.registers.pc = self.registers.pc.wrapping_add(2);
        }
        proof {
            reveal(MachineView::after_ser);
            assert(self@ =~= old(self)@.after_ser(register_x.idx(), register_y.idx()));
        }
    }

    /// `9xy0`: skips the next instruction when Vx differs from Vy.
    pub fn run_sne(&mut self, register_x: Register, register_y: Register)
        requires
            old(self)@.wf(),
        ensures
            final(self)@.wf(),
            final(self)@ == old(self)@.after_sne(register_x.idx(), register_y.idx()),
    {
        let register_x_value = self.registers.get(register_x);
        let register_y_value = self.registers.get(register_y);
        if register_x_value != register_y_value {
            self.registers.pc = self.registers.pc.wrapping_add(2);
        }
        proof {
            reveal(MachineView::after_sne);
            assert(self@ =~= old(self)@.after_sne(register_x.idx(), register_y.idx()));
        }
    }

    /// `6xkk`: loads the constant into Vx.
    pub fn run_ldc(&mut self, register: Register, constant: u8)
        requires
            old(self)@.wf(),
        ensures
            final(self)@.wf(),
            final(self)@ == old(self)@.after_ldc(register.idx(), constant),
    {
        self.registers.set(register, constant);
        proof {
            reveal(MachineView::after_ldc);
            assert(self@ =~= old(self)@.after_ldc(register.idx(), constant));
        }
    }

    /// `7xkk`: adds the constant to Vx modulo 256; VF keeps its value.
    pub fn run_addc(&mut self, register: Register, constant: u8)
        requires
            old(self)@.wf(),
        ensures
            final(self)@.wf(),
            final(self)@ == old(self)@.after_addc(register.idx(), constant),
    {
        let register_value = self.registers.get(register);
        self.registers.set(register, register_value.wrapping_add(constant));
        proof {
            reveal(MachineView::after_addc);
            assert(self@ =~= old(self)@.after_addc(register.idx(), constant));
        }
    }

    /// `8xy0`: copies Vy into Vx.
    pub fn run_ldr(&mut self, register_x: Register, register_y: Register)
        requires
            old(self)@.wf(),
        ensures
            final(self)@.wf(),
            final(self)@ == old(self)@.after_ldr(register_x.idx(), register_y.idx()),
    {
        let register_y_value = self.registers.get(register_y);
        self.registers.set(register_x, register_y_value);
        proof {
            reveal(MachineView::after_ldr);
            assert(self@ =~= old(self)@.after_ldr(register_x.idx(), register_y.idx()));
        }
    }

    /// `8xy1`: ORs Vy into Vx.
    pub fn run_or(&mut self, register_x: Register, register_y: Register)
        requires
            old(self)@.wf(),
        ensures
            final(self)@.wf(),
            final(self)@ == old(self)@.after_or(register_x.idx(), register_y.idx()),
    {
        let register_x_value = self.registers.get(register_x);
        let register_y_value = self.registers.get(register_y);
        self.registers.set(register_x, register_x_value | register_y_value);
        proof {
            reveal(MachineView::after_or);
            assert(self@ =~= old(self)@.after_or(register_x.idx(), register_y.idx()));
        }
    }

    /// `8xy2`: ANDs Vy into Vx.
    pub fn run_and(&mut self, register_x: Register, register_y: Register)
        requires
            old(self)@.wf(),
        ensures
            final(self)@.wf(),
            final(self)@ == old(self)@.after_and(register_x.idx(), register_y.idx()),
    {
        let register_x_value = self.registers.get(register_x);
        let register_y_value = self.registers.get(register_y);
        self.registers.set(register_x, register_x_value & register_y_value);
        proof {
            reveal(MachineView::after_and);
            assert(self@ =~= old(self)@.after_and(register_x.idx(), register_y.idx()));
        }
    }

    /// `8xy3`: XORs Vy into Vx.
    pub fn run_xor(&mut self, register_x: Register, register_y: Register)
        requires
            old(self)@.wf(),
        ensures
            final(self)@.wf(),
            final(self)@ == old(self)@.after_xor(register_x.idx(), register_y.idx()),
    {
        let register_x_value = self.registers.get(register_x);
        let register_y_value = self.registers.get(register_y);
        self.registers.set(register_x, register_x_value ^ register_y_value);
        proof {
            reveal(MachineView::after_xor);
            assert(self@ =~= old(self)@.after_xor(register_x.idx(), register_y.idx()));
        }
    }

    /// `8xy4`: adds Vy into Vx modulo 256; VF records the carry, and that
    /// write comes last.
    pub fn run_addr(&mut self, register_x: Register, register_y: Register)
        requires
            old(self)@.wf(),
        ensures
            final(self)@.wf(),
            final(self)@ == old(self)@.after_addr(register_x.idx(), register_y.idx()),
    {
        let register_x_value = self.registers.get(register_x);
        let register_y_value = self.registers.get(register_y);
        let carried = register_x_value as u16 + register_y_value as u16 >= 256;
        self.registers.set(register_x, register_x_value.wrapping_add(register_y_value));
        self.registers.set(Register::VF, if carried { 1 } else { 0 });
        proof {
            reveal(MachineView::after_addr);
            assert(self@ =~= old(self)@.after_addr(register_x.idx(), register_y.idx()));
        }
    }

    /// `8xy5`: subtracts Vy from Vx modulo 256; VF records the absence of
    /// a borrow, and that write comes last.
    pub fn run_sub(&mut self, register_x: Register, register_y: Register)
        requires
            old(self)@.wf(),
        ensures
            final(self)@.wf(),
            final(self)@ == old(self)@.after_sub(register_x.idx(), register_y.idx()),
    {
        let register_x_value = self.registers.get(register_x);
        let register_y_value = self.registers.get(register_y);
        self.registers.set(register_x, register_x_value.wrapping_sub(register_y_value));
        self.registers.set(Register::VF, if register_x_value > register_y_value { 1 } else { 0 });
        proof {
            reveal(MachineView::after_sub);
            assert(self@ =~= old(self)@.after_sub(register_x.idx(), register_y.idx()));
        }
    }

    /// `8xy7`: sets Vx to Vy minus Vx modulo 256; VF records the absence
    /// of a borrow, and that write comes last.
    pub fn run_subn(&mut self, register_x: Register, register_y: Register)
        requires
            old(self)@.wf(),
        ensures
            final(self)@.wf(),
            final(self)@ == old(self)@.after_subn(register_x.idx(), register_y.idx()),
    {
        let register_x_value = self.registers.get(register_x);
        let register_y_value = self.registers.get(register_y);
        self.registers.set(register_x, register_y_value.wrapping_sub(register_x_value));
        self.registers.set(Register::VF, if register_y_value > register_x_value { 1 } else { 0 });
        proof {
            reveal(MachineView::after_subn);
            assert(self@ =~= old(self)@.after_subn(register_x.idx(), register_y.idx()));
        }
    }

    /// `8x_6`: shifts Vx right by one; VF records the shifted-out low
    /// bit, and that write comes last.
    pub fn run_shr(&mut self, register: Register)
        requires
            old(self)@.wf(),
        ensures
            final(self)@.wf(),
            final(self)@ == old(self)@.after_shr(register.idx()),
    {
        let register_value = self.registers.get(register);
        self.registers.set(register, register_value >> 1u8);
        self.registers.set(Register::VF, register_value & 1);
        proof {
            reveal(MachineView::after_shr);
            assert(self@ =~= old(self)@.after_shr(register.idx()));
        }
    }

    /// `8x_E`: shifts Vx left by one modulo 256; VF records the
    /// shifted-out high bit, and that write comes last.
    pub fn run_shl(&mut self, register: Register)
        requires
            old(self)@.wf(),
        ensures
            final(self)@.wf(),
            final(self)@ == old(self)@.after_shl(register.idx()),
    {
        let register_value = self.registers.get(register);
        self.registers.set(register, register_value << 1u8);
        self.registers.set(Register::VF, (register_value >> 7u8) & 1);
        proof {
            reveal(MachineView::after_shl);
            assert(self@ =~= old(self)@.after_shl(register.idx()));
        }
    }

    /// `Annn`: loads the address into I.
    pub fn run_ldi(&mut self, address: u16)
        requires
            old(self)@.wf(),
        ensures
            final(self)@.wf(),
            final(self)@ == old(self)@.after_ldi(address),
    {
        self.registers.i = address;
        proof {
            reveal(MachineView::after_ldi);
            assert(self@ =~= old(self)@.after_ldi(address));
        }
    }

    /// `Bnnn`: jumps to V0 plus the address, wrapping.
    pub fn run_jpa(&mut self, address: u16)
        requires
            old(self)@.wf(),
        ensures
            final(self)@.wf(),
            final(self)@ == old(self)@.after_jpa(address),
    {
        let v0 = self.registers.get(Register::V0);
        self.registers.pc = address.wrapping_add(v0 as u16);
        proof {
            reveal(MachineView::after_jpa);
            assert(self@ =~= old(self)@.after_jpa(address));
        }
    }

    /// `Fx07`: loads the delay timer into Vx.
    pub fn run_ldrd(&mut self, register: Register)
        requires
            old(self)@.wf(),
        ensures
            final(self)@.wf(),
            final(self)@ == old(self)@.after_ldrd(register.idx()),
    {
        let delay = self.registers.delay;
        self.registers.set(register, delay);
        proof {
            reveal(MachineView::after_ldrd);
            assert(self@ =~= old(self)@.after_ldrd(register.idx()));
        }
    }

    /// `Fx15`: loads Vx into the delay timer.
    pub fn run_lddr(&mut self, register: Register)
        requires
            old(self)@.wf(),
        ensures
            final(self)@.wf(),
            final(self)@ == old(self)@.after_lddr(register.idx()),
    {
        self.registers.delay = self.registers.get(register);
        proof {
            reveal(MachineView::after_lddr);
            assert(self@ =~= old(self)@.after_lddr(register.idx()));
        }
    }

    /// `Fx18`: loads Vx into the sound timer.
    pub fn run_ldsr(&mut self, register: Register)
        requires
            old(self)@.wf(),
        ensures
            final(self)@.wf(),
            final(self)@ == old(self)@.after_ldsr(register.idx()),
    {
        self.registers.sound = self.registers.get(register);
        proof {
            reveal(MachineView::after_ldsr);
            assert(self@ =~= old(self)@.after_ldsr(register.idx()));
        }
    }

    /// `Fx1E`: adds Vx into I, wrapping.
    pub fn run_addi(&mut self, register: Register)
        requires
            old(self)@.wf(),
        ensures
            final(self)@.wf(),
            final(self)@ == old(self)@.after_addi(register.idx()),
    {
        let register_value = self.registers.get(register);
        self.registers.i = self.registers.i.wrapping_add(register_value as u16);
        proof {
            reveal(MachineView::after_addi);
            assert(self@ =~= old(self)@.after_addi(register.idx()));
        }
    }

    /// `Fx29`: points I at the font glyph named by the low nibble of Vx.
    pub fn run_ldir(&mut self, register: Register)
        requires
            old(self)@.wf(),
        ensures
            final(self)@.wf(),
            final(self)@ == old(self)@.after_ldir(register.idx()),
    {
        let register_value = self.registers.get(register) & 0xF;
        proof {
            lemma_low_nibble();
        }
        self.registers.i = get_location(ASCIISprite::new(register_value)) as u16;
        proof {
            reveal(MachineView::after_ldir);
            assert(self@ =~= old(self)@.after_ldir(register.idx()));
        }
    }

    /// `00EE`: returns from a subroutine by popping the stack into PC, or
    /// fails with `StackUnderflow` on an empty stack, changing nothing.
    pub fn run_ret(&mut self) -> (result: Result<(), Chip8Error>)
        requires
            old(self)@.wf(),
        ensures
            final(self)@.wf(),
            old(self)@.stack.len() > 0 ==> result == Ok::<(), Chip8Error>(())
                && final(self)@ == old(self)@.after_ret(),
            old(self)@.stack.len() == 0 ==> result == Err::<(), Chip8Error>(
                Chip8Error::StackUnderflow,
            ) && final(self)@ == old(self)@,
    {
        match self.stack.pop() {
            Ok(address) => {
                self.registers.pc = address;
                proof {
                    reveal(MachineView::after_ret);
                    assert(self@ =~= old(self)@.after_ret());
                }
                Ok(())
            },
            Err(_) => {
                proof {
                    assert(self@ =~= old(self)@);
                }
                Err(Chip8Error::StackUnderflow)
            },
        }
    }

    /// `2nnn`: calls a subroutine: pushes the already-advanced PC and
    /// jumps to the target, or fails with `StackOverflow` on a full
    /// stack, changing nothing.
    pub fn run_call(&mut self, address: u16) -> (result: Result<(), Chip8Error>)
        requires
            old(self)@.wf(),
        ensures
            final(self)@.wf(),
            old(self)@.stack.len() < 16 ==> result == Ok::<(), Chip8Error>(())
                && final(self)@ == old(self)@.after_call(address),
            old(self)@.stack.len() == 16 ==> result == Err::<(), Chip8Error>(
                Chip8Error::StackOverflow,
            ) && final(self)@ == old(self)@,
    {
        let pc = self.registers.pc;
        match self.stack.push(pc) {
            Ok(()) => {
                self.registers.pc = address;
                proof {
                    reveal(MachineView::after_call);
                    assert(self@ =~= old(self)@.after_call(address));
                }
                Ok(())
            },
            Err(_) => {
                proof {
                    assert(self@ =~= old(self)@);
                }
                Err(Chip8Error::StackOverflow)
            },
        }
    }

    /// `Cxkk` with the random byte already drawn: Vx set to the byte
    /// masked with the constant.
    pub fn run_rnd_from(&mut self, register: Register, constant: u8, byte: u8)
        requires
            old(self)@.wf(),
        ensures
            final(self)@.wf(),
            final(self)@ == old(self)@.after_rnd(register.idx(), constant, byte),
    {
        self.registers.set(register, byte & constant);
        proof {
            reveal(MachineView::after_rnd);
            assert(self@ =~= old(self)@.after_rnd(register.idx(), constant, byte));
        }
    }

    /// `Cxkk`: draws a byte from the random source and loads it, masked
    /// with the constant, into Vx.
    pub fn run_rnd(&mut self, register: Register, constant: u8)
        requires
            old(self)@.wf(),
        ensures
            final(self)@.wf(),
            exists|byte: u8| final(self)@ == old(self)@.after_rnd(register.idx(), constant, byte),
    {
        let byte = random_byte();
        self.run_rnd_from(register, constant, byte);
        proof {
            reveal(MachineView::after_rnd);
            assert(self@ == old(self)@.after_rnd(register.idx(), constant, byte));
        }
    }

    /// `Ex9E`: skips the next instruction when the key named by the low
    /// nibble of Vx is pressed.
    pub fn run_skp(&mut self, register: Register)
        requires
            old(self)@.wf(),
        ensures
            final(self)@.wf(),
            final(self)@ == old(self)@.after_skp(register.idx()),
    {
        let key = self.registers.get(register) & 0xF;
        proof {
            lemma_low_nibble();
        }
        if self.keyboard.is_pressed(key) {
            self.registers.pc = self.registers.pc.wrapping_add(2);
        }
        proof {
            reveal(MachineView::after_skp);
            assert(self@ =~= old(self)@.after_skp(register.idx()));
        }
    }

    /// `ExA1`: skips the next instruction when the key named by the low
    /// nibble of Vx is not pressed.
    pub fn run_sknp(&mut self, register: Register)
        requires
            old(self)@.wf(),
        ensures
            final(self)@.wf(),
            final(self)@ == old(self)@.after_sknp(register.idx()),
    {
        let key = self.registers.get(register) & 0xF;
        proof {
            lemma_low_nibble();
        }
        if !self.keyboard.is_pressed(key) {
            self.registers.pc = self.registers.pc.wrapping_add(2);
        }
        proof {
            reveal(MachineView::after_sknp);
            assert(self@ =~= old(self)@.after_sknp(register.idx()));
        }
    }

    /// `Fx0A`: with a key pressed, loads the lowest pressed key into Vx;
    /// with none pressed, moves PC back onto this instruction so that the
    /// machine re-executes it: the wait for a key press.
    pub fn run_ldvk(&mut self, register: Register)
        requires
            old(self)@.wf(),
        ensures
            final(self)@.wf(),
            final(self)@ == old(self)@.after_ldvk(register.idx()),
    {
        match self.keyboard.first_pressed() {
            Some(key) => {
                self.registers.set(register, key);
            },
            None => {
                self.registers.pc = self.registers.pc.wrapping_sub(2);
            },
        }
        proof {
            reveal(MachineView::after_ldvk);
            assert(self@ =~= old(self)@.after_ldvk(register.idx()));
        }
    }

    /// `Dxyn`: reads the `bytes`-row sprite at I and XOR-draws it at
    /// (Vx, Vy); VF records the collision.  Fails with `MemoryOutOfRange`
    /// when the sprite bytes reach past the end of memory, changing
    /// nothing.
    pub fn run_drw(&mut self, register_x: Register, register_y: Register, bytes: u8) -> (result:
        Result<(), Chip8Error>)
        requires
            old(self)@.wf(),
            bytes <= 15,
        ensures
            final(self)@.wf(),
            !(bytes > 0 && old(self)@.i + bytes > 4096) ==> result == Ok::<(), Chip8Error>(())
                && final(self)@ == old(self)@.after_drw(
                register_x.idx(),
                register_y.idx(),
                bytes as int,
            ),
            bytes > 0 && old(self)@.i + bytes > 4096 ==> result == Err::<(), Chip8Error>(
                Chip8Error::MemoryOutOfRange(
                    if old(self)@.i >= 4096 {
                        old(self)@.i as usize
                    } else {
                        4096
                    },
                ),
            ) && final(self)@ == old(self)@,
    {
        let i_value = self.registers.i as usize;
        if bytes > 0 && i_value + bytes as usize > 4096 {
            return Err(
                Chip8Error::MemoryOutOfRange(
                    if i_value >= 4096 {
                        i_value
                    } else {
                        4096
                    },
                ),
            );
        }
        let x = self.registers.get(register_x);
        let y = self.registers.get(register_y);
        let mut sprite: Vec<u8> = Vec::new();
        let mut offset: usize = 0;
        proof {
            if bytes > 0 {
                assert(sprite@ =~= self@.mem.subrange(i_value as int, i_value as int));
            }
        }
        while offset < bytes as usize
            invariant
                self@ == old(self)@,
                self@.wf(),
                bytes <= 15,
                i_value == self@.i,
                bytes > 0 ==> i_value + bytes <= 4096,
                offset <= bytes,
                sprite@.len() == offset,
                bytes > 0 ==> sprite@ == self@.mem.subrange(i_value as int, i_value + offset),
            decreases bytes - offset,
        {
            let piece = self.memory_bank.byte_at(i_value + offset);
            sprite.push(piece);
            proof {
                assert(sprite@ =~= self@.mem.subrange(i_value as int, i_value + offset + 1));
            }
            offset += 1;
        }
        let collision = self.display.draw_sprite(x, y, &sprite);
        self.registers.set(Register::VF, if collision { 1 } else { 0 });
        proof {
            reveal(MachineView::after_drw);
            assert(sprite@ =~= old(self)@.sprite_rows(bytes as int));
            assert(self@ =~= old(self)@.after_drw(register_x.idx(), register_y.idx(), bytes as int));
        }
        Ok(())
    }

    /// `Fx33`: writes the decimal digits of Vx at I, I+1, I+2: hundreds,
    /// tens, ones.  Fails with `MemoryOutOfRange` when any of the three
    /// addresses lies past the end of memory, changing nothing.
    pub fn run_ldbr(&mut self, register: Register) -> (result: Result<(), Chip8Error>)
        requires
            old(self)@.wf(),
        ensures
            final(self)@.wf(),
            old(self)@.i + 2 < 4096 ==> result == Ok::<(), Chip8Error>(())
                && final(self)@ == old(self)@.after_ldbr(register.idx()),
            old(self)@.i + 2 >= 4096 ==> result == Err::<(), Chip8Error>(
                Chip8Error::MemoryOutOfRange(
                    if old(self)@.i >= 4096 {
                        old(self)@.i as usize
                    } else if old(self)@.i + 1 >= 4096 {
                        (old(self)@.i + 1) as usize
                    } else {
                        (old(self)@.i + 2) as usize
                    },
                ),
            ) && final(self)@ == old(self)@,
    {
        let i_value = self.registers.i as usize;
        if i_value + 2 >= 4096 {
            return Err(
                Chip8Error::MemoryOutOfRange(
                    if i_value >= 4096 {
                        i_value
                    } else if i_value + 1 >= 4096 {
                        i_value + 1
                    } else {
                        i_value + 2
                    },
                ),
            );
        }
        let register_value = self.registers.get(register);
        let hundreds = register_value / 100;
        let tens = (register_value / 10) % 10;
        let ones = register_value % 10;
        self.memory_bank.set_byte(i_value, hundreds);
        self.memory_bank.set_byte(i_value + 1, tens);
        self.memory_bank.set_byte(i_value + 2, ones);
        proof {
            reveal(MachineView::after_ldbr);
            assert(self@ =~= old(self)@.after_ldbr(register.idx()));
        }
        Ok(())
    }

    /// `Fx55`: stores V0 through Vx into memory starting at I.  Fails
    /// with `MemoryOutOfRange` when the last target address lies past the
    /// end of memory, changing nothing.
    pub fn run_ldrs(&mut self, register: Register) -> (result: Result<(), Chip8Error>)
        requires
            old(self)@.wf(),
        ensures
            final(self)@.wf(),
            old(self)@.i + register.idx() < 4096 ==> result == Ok::<(), Chip8Error>(())
                && final(self)@ == old(self)@.after_ldrs(register.idx()),
            old(self)@.i + register.idx() >= 4096 ==> result == Err::<(), Chip8Error>(
                Chip8Error::MemoryOutOfRange(
                    if old(self)@.i >= 4096 {
                        old(self)@.i as usize
                    } else {
                        4096
                    },
                ),
            ) && final(self)@ == old(self)@,
    {
        let i_value = self.registers.i as usize;
        let x_index = register.index();
        if i_value + x_index >= 4096 {
            return Err(
                Chip8Error::MemoryOutOfRange(
                    if i_value >= 4096 {
                        i_value
                    } else {
                        4096
                    },
                ),
            );
        }
        let mut k: usize = 0;
        while k <= x_index
            invariant
                self@.wf(),
                x_index == register.idx(),
                i_value == self@.i,
                i_value + x_index < 4096,
                k <= x_index + 1,
                self@.v == old(self)@.v,
                self@.i == old(self)@.i,
                self@.delay == old(self)@.delay,
                self@.sound == old(self)@.sound,
                self@.pc == old(self)@.pc,
                self@.stack == old(self)@.stack,
                self@.pixels == old(self)@.pixels,
                self@.keys == old(self)@.keys,
                forall|j: int|
                    0 <= j < 4096 && !(i_value <= j < i_value + k) ==> self@.mem[j] == old(
                        self,
                    )@.mem[j],
                forall|j: int|
                    i_value <= j < i_value + k ==> self@.mem[j] == old(self)@.v[j - i_value],
            decreases x_index + 1 - k,
        {
            let value = self.registers.v[k];
            self.memory_bank.set_byte(i_value + k, value);
            k += 1;
        }
        proof {
            reveal(MachineView::after_ldrs);
            assert(self@ =~= old(self)@.after_ldrs(register.idx()));
        }
        Ok(())
    }

    /// `Fx65`: loads V0 through Vx from memory starting at I.  Fails with
    /// `MemoryOutOfRange` when the last source address lies past the end
    /// of memory, changing nothing.
    pub fn run_rdrs(&mut self, register: Register) -> (result: Result<(), Chip8Error>)
        requires
            old(self)@.wf(),
        ensures
            final(self)@.wf(),
            old(self)@.i + register.idx() < 4096 ==> result == Ok::<(), Chip8Error>(())
                && final(self)@ == old(self)@.after_rdrs(register.idx()),
            old(self)@.i + register.idx() >= 4096 ==> result == Err::<(), Chip8Error>(
                Chip8Error::MemoryOutOfRange(
                    if old(self)@.i >= 4096 {
                        old(self)@.i as usize
                    } else {
                        4096
                    },
                ),
            ) && final(self)@ == old(self)@,
    {
        let i_value = self.registers.i as usize;
        let x_index = register.index();
        if i_value + x_index >= 4096 {
            return Err(
                Chip8Error::MemoryOutOfRange(
                    if i_value >= 4096 {
                        i_value
                    } else {
                        4096
                    },
                ),
            );
        }
        let mut k: usize = 0;
        while k <= x_index
            invariant
                self@.wf(),
                x_index == register.idx(),
                i_value == self@.i,
                i_value + x_index < 4096,
                k <= x_index + 1,
                self@.mem == old(self)@.mem,
                self@.i == old(self)@.i,
                self@.delay == old(self)@.delay,
                self@.sound == old(self)@.sound,
                self@.pc == old(self)@.pc,
                self@.stack == old(self)@.stack,
                self@.pixels == old(self)@.pixels,
                self@.keys == old(self)@.keys,
                forall|j: int| k <= j < 16 ==> self@.v[j] == old(self)@.v[j],
                forall|j: int| 0 <= j < k ==> self@.v[j] == old(self)@.mem[i_value + j],
            decreases x_index + 1 - k,
        {
            let value = self.memory_bank.byte_at(i_value + k);
            self.registers.v[k] = value;
            k += 1;
        }
        proof {
            reveal(MachineView::after_rdrs);
            assert(self@ =~= old(self)@.after_rdrs(register.idx()));
        }
        Ok(())
    }

    /// Applies one decoded instruction to the machine: the dispatch over
    /// all opcode classes.  The effect, or the error, is exactly
    /// `spec_execute` of the old state for the byte the random source
    /// supplied; a failing instruction changes nothing.  Only `RND`
    /// consults the random source.
    pub fn run_op(&mut self, op: &Instruction) -> (result: Result<(), Chip8Error>)
        requires
            old(self)@.wf(),
            *op matches Instruction::DRW(_, _, n) ==> n <= 15,
        ensures
            final(self)@.wf(),
            exists|byte: u8|
                #[trigger] execute_outcome(old(self)@, final(self)@, *op, byte, result),
    {
        match *op {
            Instruction::SYS(_)
            | Instruction::CLS
            | Instruction::RET
            | Instruction::JP(_)
            | Instruction::CALL(_)
            | Instruction::SEC(_, _)
            | Instruction::SNEC(_, _)
            | Instruction::SER(_, _)
            | Instruction::SNE(_, _)
            | Instruction::JPA(_)
            | Instruction::LDI(_) => self.run_op_flow(op),
            Instruction::LDC(_, _)
            | Instruction::ADDC(_, _)
            | Instruction::LDR(_, _)
            | Instruction::OR(_, _)
            | Instruction::AND(_, _)
            | Instruction::XOR(_, _)
            | Instruction::ADDR(_, _)
            | Instruction::SUB(_, _)
            | Instruction::SHR(_)
            | Instruction::SUBN(_, _)
            | Instruction::SHL(_)
            | Instruction::RND(_, _) => self.run_op_alu(op),
            Instruction::DRW(_, _, _)
            | Instruction::SKP(_)
            | Instruction::SKNP(_)
            | Instruction::LDRD(_)
            | Instruction::LDVK(_)
            | Instruction::LDDR(_)
            | Instruction::LDSR(_)
            | Instruction::ADDI(_)
            | Instruction::LDIR(_)
            | Instruction::LDBR(_)
            | Instruction::LDRS(_)
            | Instruction::RDRS(_) => self.run_op_io(op),
        }
    }

    /// Dispatch for the control-flow and skip instructions.
    fn run_op_flow(&mut self, op: &Instruction) -> (result: Result<(), Chip8Error>)
        requires
            old(self)@.wf(),
            *op matches Instruction::SYS(_)
                || *op matches Instruction::CLS
                || *op matches Instruction::RET
                || *op matches Instruction::JP(_)
                || *op matches Instruction::CALL(_)
                || *op matches Instruction::SEC(_, _)
                || *op matches Instruction::SNEC(_, _)
                || *op matches Instruction::SER(_, _)
                || *op matches Instruction::SNE(_, _)
                || *op matches Instruction::JPA(_)
                || *op matches Instruction::LDI(_),
        ensures
            final(self)@.wf(),
            exists|byte: u8|
                #[trigger] execute_outcome(old(self)@, final(self)@, *op, byte, result),
    {
        match *op {
            Instruction::SYS(address) => {
                self.run_sys(address);
                proof {
                    assert(execute_outcome(old(self)@, self@, *op, 0u8, Ok(())));
                }
                Ok(())
            },
            Instruction::CLS => {
                self.run_cls();
                proof {
                    assert(execute_outcome(old(self)@, self@, *op, 0u8, Ok(())));
                }
                Ok(())
            },
            Instruction::RET => {
                let r = self.run_ret();
                proof {
                    assert(execute_outcome(old(self)@, self@, *op, 0u8, r));
                }
                r
            },
            Instruction::JP(address) => {
                self.run_jp(address);
                proof {
                    assert(execute_outcome(old(self)@, self@, *op, 0u8, Ok(())));
                }
                Ok(())
            },
            Instruction::CALL(address) => {
                let r = self.run_call(address);
                proof {
                    assert(execute_outcome(old(self)@, self@, *op, 0u8, r));
                }
                r
            },
            Instruction::SEC(register, constant) => {
                self.run_sec(register, constant);
                proof {
                    assert(execute_outcome(old(self)@, self@, *op, 0u8, Ok(())));
                }
                Ok(())
            },
            Instruction::SNEC(register, constant) => {
                self.run_snec(register, constant);
                proof {
                    assert(execute_outcome(old(self)@, self@, *op, 0u8, Ok(())));
                }
                Ok(())
            },
            Instruction::SER(register_x, register_y) => {
                self.run_ser(register_x, register_y);
                proof {
                    assert(execute_outcome(old(self)@, self@, *op, 0u8, Ok(())));
                }
                Ok(())
            },
            Instruction::SNE(register_x, register_y) => {
                self.run_sne(register_x, register_y);
                proof {
                    assert(execute_outcome(old(self)@, self@, *op, 0u8, Ok(())));
                }
                Ok(())
            },
            Instruction::JPA(address) => {
                self.run_jpa(address);
                proof {
                    assert(execute_outcome(old(self)@, self@, *op, 0u8, Ok(())));
                }
                Ok(())
            },
            Instruction::LDI(address) => {
                self.run_ldi(address);
                proof {
                    assert(execute_outcome(old(self)@, self@, *op, 0u8, Ok(())));
                }
                Ok(())
            },
            _ => {
                proof {
                    assert(false);
                }
                Ok(())
            },
        }
    }

    /// Dispatch for the register-arithmetic instructions.
    fn run_op_alu(&mut self, op: &Instruction) -> (result: Result<(), Chip8Error>)
        requires
            old(self)@.wf(),
            *op matches Instruction::LDC(_, _)
                || *op matches Instruction::ADDC(_, _)
                || *op matches Instruction::LDR(_, _)
                || *op matches Instruction::OR(_, _)
                || *op matches Instruction::AND(_, _)
                || *op matches Instruction::XOR(_, _)
                || *op matches Instruction::ADDR(_, _)
                || *op matches Instruction::SUB(_, _)
                || *op matches Instruction::SHR(_)
                || *op matches Instruction::SUBN(_, _)
                || *op matches Instruction::SHL(_)
                || *op matches Instruction::RND(_, _),
        ensures
            final(self)@.wf(),
            exists|byte: u8|
                #[trigger] execute_outcome(old(self)@, final(self)@, *op, byte, result),
    {
        match *op {
            Instruction::LDC(register, constant) => {
                self.run_ldc(register, constant);
                proof {
                    assert(execute_outcome(old(self)@, self@, *op, 0u8, Ok(())));
                }
                Ok(())
            },
            Instruction::ADDC(register, constant) => {
                self.run_addc(register, constant);
                proof {
                    assert(execute_outcome(old(self)@, self@, *op, 0u8, Ok(())));
                }
                Ok(())
            },
            Instruction::LDR(register_x, register_y) => {
                self.run_ldr(register_x, register_y);
                proof {
                    assert(execute_outcome(old(self)@, self@, *op, 0u8, Ok(())));
                }
                Ok(())
            },
            Instruction::OR(register_x, register_y) => {
                self.run_or(register_x, register_y);
                proof {
                    assert(execute_outcome(old(self)@, self@, *op, 0u8, Ok(())));
                }
                Ok(())
            },
            Instruction::AND(register_x, register_y) => {
                self.run_and(register_x, register_y);
                proof {
                    assert(execute_outcome(old(self)@, self@, *op, 0u8, Ok(())));
                }
                Ok(())
            },
            Instruction::XOR(register_x, register_y) => {
                self.run_xor(register_x, register_y);
                proof {
                    assert(execute_outcome(old(self)@, self@, *op, 0u8, Ok(())));
                }
                Ok(())
            },
            Instruction::ADDR(register_x, register_y) => {
                self.run_addr(register_x, register_y);
                proof {
                    assert(execute_outcome(old(self)@, self@, *op, 0u8, Ok(())));
                }
                Ok(())
            },
            Instruction::SUB(register_x, register_y) => {
                self.run_sub(register_x, register_y);
                proof {
                    assert(execute_outcome(old(self)@, self@, *op, 0u8, Ok(())));
                }
                Ok(())
            },
            Instruction::SHR(register) => {
                self.run_shr(register);
                proof {
                    assert(execute_outcome(old(self)@, self@, *op, 0u8, Ok(())));
                }
                Ok(())
            },
            Instruction::SUBN(register_x, register_y) => {
                self.run_subn(register_x, register_y);
                proof {
                    assert(execute_outcome(old(self)@, self@, *op, 0u8, Ok(())));
                }
                Ok(())
            },
            Instruction::SHL(register) => {
                self.run_shl(register);
                proof {
                    assert(execute_outcome(old(self)@, self@, *op, 0u8, Ok(())));
                }
                Ok(())
            },
            Instruction::RND(register, constant) => {
                self.run_rnd(register, constant);
                proof {
                    reveal(MachineView::after_rnd);
                    let byte = choose|byte: u8|
                        self@ == #[trigger] old(self)@.after_rnd(register.idx(), constant, byte);
                    assert(execute_outcome(old(self)@, self@, *op, byte, Ok(())));
                }
                Ok(())
            },
            _ => {
                proof {
                    assert(false);
                }
                Ok(())
            },
        }
    }

    /// Dispatch for the memory, timer, draw and keypad instructions.
    fn run_op_io(&mut self, op: &Instruction) -> (result: Result<(), Chip8Error>)
        requires
            old(self)@.wf(),
            *op matches Instruction::DRW(_, _, n) ==> n <= 15,
            *op matches Instruction::DRW(_, _, _)
                || *op matches Instruction::SKP(_)
                || *op matches Instruction::SKNP(_)
                || *op matches Instruction::LDRD(_)
                || *op matches Instruction::LDVK(_)
                || *op matches Instruction::LDDR(_)
                || *op matches Instruction::LDSR(_)
                || *op matches Instruction::ADDI(_)
                || *op matches Instruction::LDIR(_)
                || *op matches Instruction::LDBR(_)
                || *op matches Instruction::LDRS(_)
                || *op matches Instruction::RDRS(_),
        ensures
            final(self)@.wf(),
            exists|byte: u8|
                #[trigger] execute_outcome(old(self)@, final(self)@, *op, byte, result),
    {
        match *op {
            Instruction::DRW(register_x, register_y, bytes) => {
                let r = self.run_drw(register_x, register_y, bytes);
                proof {
                    assert(execute_outcome(old(self)@, self@, *op, 0u8, r));
                }
                r
            },
            Instruction::SKP(register) => {
                self.run_skp(register);
                proof {
                    assert(execute_outcome(old(self)@, self@, *op, 0u8, Ok(())));
                }
                Ok(())
            },
            Instruction::SKNP(register) => {
                self.run_sknp(register);
                proof {
                    assert(execute_outcome(old(self)@, self@, *op, 0u8, Ok(())));
                }
                Ok(())
            },
            Instruction::LDRD(register) => {
                self.run_ldrd(register);
                proof {
                    assert(execute_outcome(old(self)@, self@, *op, 0u8, Ok(())));
                }
                Ok(())
            },
            Instruction::LDVK(register) => {
                self.run_ldvk(register);
                proof {
                    assert(execute_outcome(old(self)@, self@, *op, 0u8, Ok(())));
                }
                Ok(())
            },
            Instruction::LDDR(register) => {
                self.run_lddr(register);
                proof {
                    assert(execute_outcome(old(self)@, self@, *op, 0u8, Ok(())));
                }
                Ok(())
            },
            Instruction::LDSR(register) => {
                self.run_ldsr(register);
                proof {
                    assert(execute_outcome(old(self)@, self@, *op, 0u8, Ok(())));
                }
                Ok(())
            },
            Instruction::ADDI(register) => {
                self.run_addi(register);
                proof {
                    assert(execute_outcome(old(self)@, self@, *op, 0u8, Ok(())));
                }
                Ok(())
            },
            Instruction::LDIR(register) => {
                self.run_ldir(register);
                proof {
                    assert(execute_outcome(old(self)@, self@, *op, 0u8, Ok(())));
                }
                Ok(())
            },
            Instruction::LDBR(register) => {
                let r = self.run_ldbr(register);
                proof {
                    assert(execute_outcome(old(self)@, self@, *op, 0u8, r));
                }
                r
            },
            Instruction::LDRS(register) => {
                let r = self.run_ldrs(register);
                proof {
                    assert(execute_outcome(old(self)@, self@, *op, 0u8, r));
                }
                r
            },
            Instruction::RDRS(register) => {
                let r = self.run_rdrs(register);
                proof {
                    assert(execute_outcome(old(self)@, self@, *op, 0u8, r));
                }
                r
            },
            _ => {
                proof {
                    assert(false);
                }
                Ok(())
            },
        }
    }

    /// One fetch-decode-execute cycle: fetches the word at PC, advances
    /// PC by 2, decodes, and executes.  Returns `Ok(true)` when the
    /// fetched instruction is a jump to its own address, the conventional
    /// end-of-program spin, which is not executed; `Ok(false)` after an
    /// ordinary instruction.  On any fatal error the machine is left as
    /// it was, with PC still naming the failing instruction.
    pub fn step(&mut self) -> (result: Result<bool, Chip8Error>)
        requires
            old(self)@.wf(),
        ensures
            final(self)@.wf(),
            exists|byte: u8|
                match #[trigger] spec_step(old(self)@, byte) {
                    Ok((s, halted)) => result == Ok::<bool, Chip8Error>(halted) && final(self)@
                        == s,
                    Err(e) => result == Err::<bool, Chip8Error>(e) && final(self)@ == old(self)@,
                },
    {
        let pc = self.registers.pc;
        let word = match self.memory_bank.read_instruction(pc as usize) {
            Ok(word) => word,
            Err(invalid) => {
                proof {
                    assert(match spec_step(self@, 0u8) {
                        Ok((s, halted)) => false,
                        Err(e) => e == Chip8Error::MemoryOutOfRange(invalid.0),
                    });
                }
                return Err(Chip8Error::MemoryOutOfRange(invalid.0));
            },
        };
        let instruction = match Instruction::new(word) {
            Some(instruction) => instruction,
            None => {
                proof {
                    assert(match spec_step(self@, 0u8) {
                        Ok((s, halted)) => false,
                        Err(e) => e == Chip8Error::UnknownInstruction(word),
                    });
                }
                return Err(Chip8Error::UnknownInstruction(word));
            },
        };
        self.registers.pc = pc + 2;
        if instruction == Instruction::JP(pc) {
            proof {
                assert(match spec_step(old(self)@, 0u8) {
                    Ok((s, halted)) => halted && self@ =~= s,
                    Err(e) => false,
                });
            }
            return Ok(true);
        }
        let ghost advanced = self@;
        match self.run_op(&instruction) {
            Ok(()) => {
                proof {
                    let byte = choose|byte: u8|
                        #[trigger] execute_outcome(
                            advanced,
                            self@,
                            instruction,
                            byte,
                            Ok::<(), Chip8Error>(()),
                        );
                    assert(match spec_step(old(self)@, byte) {
                        Ok((s, halted)) => !halted && self@ == s,
                        Err(e) => false,
                    });
                }
                Ok(false)
            },
            Err(error) => {
                let ghost after_op = self@;
                self.registers.pc = pc;
                proof {
                    let byte = choose|byte: u8|
                        #[trigger] execute_outcome(
                            advanced,
                            after_op,
                            instruction,
                            byte,
                            Err::<(), Chip8Error>(error),
                        );
                    assert(self@ =~= old(self)@);
                    assert(match spec_step(old(self)@, byte) {
                        Ok((s, halted)) => false,
                        Err(e) => e == error,
                    });
                }
                Err(error)
            },
        }
    }

    /// Runs at most `steps` fetch-decode-execute cycles: `Ok(true)` when
    /// a cycle stopped on the end-of-program spin, `Ok(false)` when the
    /// budget ran out first, and the first fatal error otherwise, with the
    /// machine left at the failing instruction.  The result and final
    /// state are exactly `spec_run` for the bytes the random source
    /// supplied.
    pub fn run(&mut self, steps: u32) -> (result: Result<bool, Chip8Error>)
        requires
            old(self)@.wf(),
        ensures
            final(self)@.wf(),
            exists|rnds: Seq<u8>|
                rnds.len() == steps && match #[trigger] spec_run(old(self)@, steps as nat, rnds) {
                    Ok((s, halted)) => result == Ok::<bool, Chip8Error>(halted) && final(self)@
                        == s,
                    Err((s, e)) => result == Err::<bool, Chip8Error>(e) && final(self)@ == s,
                },
    {
        let mut remaining: u32 = steps;
        let ghost mut used: Seq<u8> = Seq::empty();
        while remaining > 0
            invariant
                self@.wf(),
                remaining <= steps,
                used.len() == steps - remaining,
                spec_run(old(self)@, used.len(), used) == Ok::<
                    (MachineView, bool),
                    (MachineView, Chip8Error),
                >((self@, false)),
            decreases remaining,
        {
            let ghost pre = self@;
            let ghost consumed = used.len();
            match self.step() {
                Ok(false) => {
                    proof {
                        let byte = choose|byte: u8|
                            match #[trigger] spec_step(pre, byte) {
                                Ok((s, halted)) => !halted && self@ == s,
                                Err(e) => false,
                            };
                        let ghost prev = used;
                        used = used.push(byte);
                        assert(used.take(consumed as int) =~= prev);
                        lemma_spec_run_split(old(self)@, consumed, used, consumed + 1, pre);
                        let rest = used.skip(consumed as int);
                        assert(rest[0] == byte);
                        assert(spec_run(self@, 0nat, rest.skip(1)) == Ok::<
                            (MachineView, bool),
                            (MachineView, Chip8Error),
                        >((self@, false)));
                        assert(spec_run(old(self)@, consumed + 1, used) == Ok::<
                            (MachineView, bool),
                            (MachineView, Chip8Error),
                        >((self@, false)));
                    }
                    remaining = remaining - 1;
                },
                Ok(true) => {
                    proof {
                        let byte = choose|byte: u8|
                            match #[trigger] spec_step(pre, byte) {
                                Ok((s, halted)) => halted && self@ == s,
                                Err(e) => false,
                            };
                        let full = used.push(byte) + Seq::new(
                            (steps - consumed - 1) as nat,
                            |j: int| 0u8,
                        );
                        assert(full.len() == steps);
                        assert(full.take(consumed as int) =~= used);
                        lemma_spec_run_split(old(self)@, consumed, full, steps as nat, pre);
                        assert(full.skip(consumed as int)[0] == byte);
                        assert(spec_run(old(self)@, steps as nat, full) == Ok::<
                            (MachineView, bool),
                            (MachineView, Chip8Error),
                        >((self@, true)));
                    }
                    return Ok(true);
                },
                Err(error) => {
                    proof {
                        let byte = choose|byte: u8|
                            match #[trigger] spec_step(pre, byte) {
                                Ok((s, halted)) => false,
                                Err(e) => e == error && self@ == pre,
                            };
                        let full = used.push(byte) + Seq::new(
                            (steps - consumed - 1) as nat,
                            |j: int| 0u8,
                        );
                        assert(full.len() == steps);
                        assert(full.take(consumed as int) =~= used);
                        lemma_spec_run_split(old(self)@, consumed, full, steps as nat, pre);
                        assert(full.skip(consumed as int)[0] == byte);
                        assert(spec_run(old(self)@, steps as nat, full) == Err::<
                            (MachineView, bool),
                            (MachineView, Chip8Error),
                        >((self@, error)));
                    }
                    return Err(error);
                },
            }
        }
        proof {
            assert(spec_run(old(self)@, steps as nat, used) == Ok::<
                (MachineView, bool),
                (MachineView, Chip8Error),
            >((self@, false)));
        }
        Ok(false)
    }

    /// One 60 Hz timer tick: decrements each timer that is nonzero.
    pub fn tick_timers(&mut self)
        requires
            old(self)@.wf(),
        ensures
            final(self)@.wf(),
            final(self)@ == old(self)@.after_tick(),
    {
        if self.registers.delay > 0 {
            self.registers.delay = self.registers.delay - 1;
        }
        if self.registers.sound > 0 {
            self.registers.sound = self.registers.sound - 1;
        }
        proof {
            reveal(MachineView::after_tick);
            assert(self@ =~= old(self)@.after_tick());
        }
    }
}

/// Skip semantics are symmetric: on any state, exactly one of `3xkk` and
/// `4xkk` advances PC by the extra 2 bytes, and it is `3xkk` exactly when
/// Vx equals the constant.  Neither touches anything but PC.
pub proof fn lemma_skip_symmetry(s: MachineView, x: int, constant: u8)
    requires
        s.wf(),
        0 <= x < 16,
    ensures
        (s.after_sec(x, constant).pc == u16_specs::wrapping_add(s.pc, 2)) != (s.after_snec(
            x,
            constant,
        ).pc == u16_specs::wrapping_add(s.pc, 2)),
        s.after_sec(x, constant).pc == u16_specs::wrapping_add(s.pc, 2) <==> s.v[x] == constant,
        s.after_sec(x, constant).v == s.v,
        s.after_snec(x, constant).v == s.v,
{
    reveal(MachineView::after_sec);
    reveal(MachineView::after_snec);
    assert(u16_specs::wrapping_add(s.pc, 2) != s.pc);
}

/// After `8xy4`, VF is 1 exactly when the sum carried, i.e. when
/// Vx + Vy >= 256; and, unless the destination is VF itself, Vx holds
/// (Vx + Vy) mod 256.
pub proof fn lemma_addr_carry(s: MachineView, x: int, y: int)
    requires
        s.wf(),
        0 <= x < 16,
        0 <= y < 16,
    ensures
        s.after_addr(x, y).v[15] == 1u8 <==> s.v[x] + s.v[y] >= 256,
        x != 15 ==> s.after_addr(x, y).v[x] == (s.v[x] + s.v[y]) % 256,
{
    reveal(MachineView::after_addr);
    let sum = s.v[x] + s.v[y];
    if sum >= 256 {
        vstd::arithmetic::div_mod::lemma_mod_multiples_vanish(1, sum - 256, 256);
        vstd::arithmetic::div_mod::lemma_small_mod((sum - 256) as nat, 256nat);
    } else {
        vstd::arithmetic::div_mod::lemma_small_mod(sum as nat, 256nat);
    }
}

/// After `8xy5`, VF is 1 exactly when no borrow occurred, i.e. when
/// Vx > Vy; and, unless the destination is VF itself, Vx holds
/// (Vx - Vy) mod 256.
pub proof fn lemma_sub_borrow(s: MachineView, x: int, y: int)
    requires
        s.wf(),
        0 <= x < 16,
        0 <= y < 16,
    ensures
        s.after_sub(x, y).v[15] == 1u8 <==> s.v[x] > s.v[y],
        x != 15 ==> s.after_sub(x, y).v[x] == (s.v[x] - s.v[y]) % 256,
{
    reveal(MachineView::after_sub);
    let diff = s.v[x] - s.v[y];
    if diff < 0 {
        vstd::arithmetic::div_mod::lemma_mod_multiples_vanish(1, diff, 256);
        vstd::arithmetic::div_mod::lemma_small_mod((diff + 256) as nat, 256nat);
    } else {
        vstd::arithmetic::div_mod::lemma_small_mod(diff as nat, 256nat);
    }
}

/// After `8xy7`, VF is 1 exactly when no borrow occurred, i.e. when
/// Vy > Vx; and, unless the destination is VF itself, Vx holds
/// (Vy - Vx) mod 256.
pub proof fn lemma_subn_borrow(s: MachineView, x: int, y: int)
    requires
        s.wf(),
        0 <= x < 16,
        0 <= y < 16,
    ensures
        s.after_subn(x, y).v[15] == 1u8 <==> s.v[y] > s.v[x],
        x != 15 ==> s.after_subn(x, y).v[x] == (s.v[y] - s.v[x]) % 256,
{
    reveal(MachineView::after_subn);
    let diff = s.v[y] - s.v[x];
    if diff < 0 {
        vstd::arithmetic::div_mod::lemma_mod_multiples_vanish(1, diff, 256);
        vstd::arithmetic::div_mod::lemma_small_mod((diff + 256) as nat, 256nat);
    } else {
        vstd::arithmetic::div_mod::lemma_small_mod(diff as nat, 256nat);
    }
}

/// After `8x_6`, VF holds the low bit of the old Vx, also when the
/// register shifted is VF itself.
pub proof fn lemma_shr_flag(s: MachineView, x: int)
    requires
        s.wf(),
        0 <= x < 16,
    ensures
        s.after_shr(x).v[15] == s.v[x] & 1,
{
    reveal(MachineView::after_shr);
}

/// After `8x_E`, VF holds the high bit of the old Vx, also when the
/// register shifted is VF itself.
pub proof fn lemma_shl_flag(s: MachineView, x: int)
    requires
        s.wf(),
        0 <= x < 16,
    ensures
        s.after_shl(x).v[15] == (s.v[x] >> 7u8) & 1,
{
    reveal(MachineView::after_shl);
}

/// The machine after a sequence of calls to the given addresses, first
/// address first.
pub open spec fn do_calls(s: MachineView, addrs: Seq<u16>) -> MachineView
    decreases addrs.len(),
{
    if addrs.len() == 0 {
        s
    } else {
        do_calls(s.after_call(addrs[0]), addrs.skip(1))
    }
}

/// The machine after `n` returns.
pub open spec fn do_rets(s: MachineView, n: nat) -> MachineView
    decreases n,
{
    if n == 0 {
        s
    } else {
        do_rets(s, (n - 1) as nat).after_ret()
    }
}

/// The stack round-trips: any sequence of calls that stays within the 16
/// stack slots, followed by as many returns, brings PC back to the
/// instruction after the first call and restores the stack.
pub proof fn lemma_call_ret_round_trip(s: MachineView, addrs: Seq<u16>)
    requires
        s.wf(),
        s.stack.len() + addrs.len() <= 16,
    ensures
        do_rets(do_calls(s, addrs), addrs.len()).pc == s.pc,
        do_rets(do_calls(s, addrs), addrs.len()).stack == s.stack,
    decreases addrs.len(),
{
    reveal(MachineView::after_call);
    reveal(MachineView::after_ret);
    if addrs.len() == 0 {
    } else {
        let s1 = s.after_call(addrs[0]);
        lemma_call_ret_round_trip(s1, addrs.skip(1));
        let n = (addrs.len() - 1) as nat;
        assert(do_calls(s, addrs) == do_calls(s1, addrs.skip(1)));
        let t1 = do_rets(do_calls(s1, addrs.skip(1)), n);
        assert(t1.stack == s1.stack);
        assert(do_rets(do_calls(s, addrs), addrs.len()) == t1.after_ret());
        assert(t1.after_ret().pc == s.pc);
        assert(t1.after_ret().stack =~= s.stack);
    }
}

} // verus!

