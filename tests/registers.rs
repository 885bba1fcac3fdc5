use rv::registers::Registers;
use rv::types::RegIndex;

#[test]
fn register_zero_stays_zero() {
    let mut regs = Registers::default();
    regs.store(0, 0xDEAD_BEEF);
    assert_eq!(regs.load(0), 0);
}

#[test]
fn registers_read_back_writes() {
    let mut regs = Registers::default();
    for i in 1..32 {
        regs.store(i as RegIndex, 0x100 + i);
    }
    for i in 1..32 {
        assert_eq!(regs.load(i as RegIndex), 0x100 + i);
    }
    regs.store(Registers::PC_INDEX, 0x40);
    assert_eq!(regs.load(Registers::PC_INDEX), 0x40);
    assert_eq!(regs.load(31), 0x11F);
}
