//! Decoder tests: each opcode class decodes from a representative word.

use chip8_virtual_machine::instructions::Instruction;
use chip8_virtual_machine::registers::Register;

#[test]
fn decode_sys() {
    let sys = Instruction::new(0x0003);
    assert_eq!(Some(Instruction::SYS(0x3)), sys);
}
#[test]
fn decode_cls() {
    let cls = Instruction::new(0x00E0);
    assert_eq!(Some(Instruction::CLS), cls);
}
#[test]
fn decode_ret() {
    let ret = Instruction::new(0x00EE);
    assert_eq!(Some(Instruction::RET), ret);
}
#[test]
fn decode_jp() {
    let jp = Instruction::new(0x1003);
    assert_eq!(Some(Instruction::JP(0x3)), jp);
}
#[test]
fn decode_call() {
    let call = Instruction::new(0x2003);
    assert_eq!(Some(Instruction::CALL(0x3)), call);
}
#[test]
fn decode_sec() {
    let sec = Instruction::new(0x3003);
    assert_eq!(Some(Instruction::SEC(Register::V0, 3)), sec);
}
#[test]
fn decode_snec() {
    let snec = Instruction::new(0x4003);
    assert_eq!(Some(Instruction::SNEC(Register::V0, 3)), snec);
}
#[test]
fn decode_ser() {
    let ser = Instruction::new(0x5010);
    assert_eq!(Some(Instruction::SER(Register::V0, Register::V1)), ser);
}
#[test]
fn decode_ldc() {
    let ldc = Instruction::new(0x6003);
    assert_eq!(Some(Instruction::LDC(Register::V0, 3)), ldc);
}
#[test]
fn decode_addc() {
    let addc = Instruction::new(0x7003);
    assert_eq!(Some(Instruction::ADDC(Register::V0, 3)), addc);
}
#[test]
fn decode_ldr() {
    let ldr = Instruction::new(0x8010);
    assert_eq!(Some(Instruction::LDR(Register::V0, Register::V1)), ldr);
}
#[test]
fn decode_or() {
    let or = Instruction::new(0x8011);
    assert_eq!(Some(Instruction::OR(Register::V0, Register::V1)), or);
}
#[test]
fn decode_and() {
    let and = Instruction::new(0x8012);
    assert_eq!(Some(Instruction::AND(Register::V0, Register::V1)), and);
}
#[test]
fn decode_xor() {
    let xor = Instruction::new(0x8013);
    assert_eq!(Some(Instruction::XOR(Register::V0, Register::V1)), xor);
}
#[test]
fn decode_addr() {
    let addr = Instruction::new(0x8014);
    assert_eq!(Some(Instruction::ADDR(Register::V0, Register::V1)), addr);
}
#[test]
fn decode_sub() {
    let sub = Instruction::new(0x8015);
    assert_eq!(Some(Instruction::SUB(Register::V0, Register::V1)), sub);
}
#[test]
fn decode_shr() {
    let shr = Instruction::new(0x8106);
    assert_eq!(Some(Instruction::SHR(Register::V1)), shr);
}
#[test]
fn decode_subn() {
    let subn = Instruction::new(0x8017);
    assert_eq!(Some(Instruction::SUBN(Register::V0, Register::V1)), subn);
}
#[test]
fn decode_shl() {
    let shl = Instruction::new(0x810E);
    assert_eq!(Some(Instruction::SHL(Register::V1)), shl);
}
#[test]
fn decode_sne() {
    let sne = Instruction::new(0x9010);
    assert_eq!(Some(Instruction::SNE(Register::V0, Register::V1)), sne);
}
#[test]
fn decode_ldi() {
    let ldi = Instruction::new(0xA003);
    assert_eq!(Some(Instruction::LDI(0x3)), ldi);
}
#[test]
fn decode_jpa() {
    let jpa = Instruction::new(0xB003);
    assert_eq!(Some(Instruction::JPA(0x3)), jpa);
}
#[test]
fn decode_rnd() {
    let rnd = Instruction::new(0xC103);
    assert_eq!(Some(Instruction::RND(Register::V1, 0x3)), rnd);
}
#[test]
fn decode_drw() {
    let drw = Instruction::new(0xD124);
    assert_eq!(Some(Instruction::DRW(Register::V1, Register::V2, 4)), drw);
}
#[test]
fn decode_skp() {
    let skp = Instruction::new(0xE19E);
    assert_eq!(Some(Instruction::SKP(Register::V1)), skp);
}
#[test]
fn decode_sknp() {
    let sknp = Instruction::new(0xE1A1);
    assert_eq!(Some(Instruction::SKNP(Register::V1)), sknp);
}
#[test]
fn decode_ldrd() {
    let ldrd = Instruction::new(0xF107);
    assert_eq!(Some(Instruction::LDRD(Register::V1)), ldrd);
}
#[test]
fn decode_ldvk() {
    let ldvk = Instruction::new(0xF10A);
    assert_eq!(Some(Instruction::LDVK(Register::V1)), ldvk);
}
#[test]
fn decode_lddr() {
    let lddr = Instruction::new(0xF115);
    assert_eq!(Some(Instruction::LDDR(Register::V1)), lddr);
}
#[test]
fn decode_ldsr() {
    let ldsr = Instruction::new(0xF118);
    assert_eq!(Some(Instruction::LDSR(Register::V1)), ldsr);
}
#[test]
fn decode_addi() {
    let addi = Instruction::new(0xF11E);
    assert_eq!(Some(Instruction::ADDI(Register::V1)), addi);
}
#[test]
fn decode_ldir() {
    let ldir = Instruction::new(0xF129);
    assert_eq!(Some(Instruction::LDIR(Register::V1)), ldir);
}
#[test]
fn decode_ldbr() {
    let ldbr = Instruction::new(0xF133);
    assert_eq!(Some(Instruction::LDBR(Register::V1)), ldbr);
}
#[test]
fn decode_ldrs() {
    let ldrs = Instruction::new(0xF555);
    assert_eq!(Some(Instruction::LDRS(Register::V5)), ldrs);
}
#[test]
fn decode_rdrs() {
    let rdrs = Instruction::new(0xF565);
    assert_eq!(Some(Instruction::RDRS(Register::V5)), rdrs);
}
#[test]
fn decode_unknown() {
    let unknown = Instruction::new(0xFFFF);
    assert_eq!(None, unknown);
}
