use staros_drivers::clk::framework::{
    clk_disable, clk_enable, clk_prepare, clk_register, clk_unprepare, ClkCore, ClkError, ClkHardware, ClkId,
    ClkOps, ClkRegistry,
};
use staros_drivers::clk::mmio::{rmw_reg, RegisterFile, RegisterIo};
use staros_drivers::clk::provider::{clk_register_fixed_rate, clk_register_gate, clk_register_mux, ClkProviders};

/// Registers in memory plus a record of the hooks run.
struct Hw {
    regs: RegisterFile,
    hooks: Vec<(&'static str, u64)>,
}

impl RegisterIo for Hw {
    fn read_reg(&mut self, addr: u64) -> u32 {
        self.regs.read_reg(addr)
    }
    fn write_reg(&mut self, addr: u64, val: u32) {
        self.regs.write_reg(addr, val)
    }
}

impl ClkHardware for Hw {
    fn prepare(&mut self, hw: u64) -> Result<(), ClkError> {
        self.hooks.push(("prepare", hw));
        Ok(())
    }
    fn unprepare(&mut self, hw: u64) {
        self.hooks.push(("unprepare", hw));
    }
    fn enable(&mut self, hw: u64) -> Result<(), ClkError> {
        self.hooks.push(("enable", hw));
        Ok(())
    }
    fn disable(&mut self, hw: u64) {
        self.hooks.push(("disable", hw));
    }
}

fn hw() -> Hw {
    Hw { regs: RegisterFile::new(), hooks: Vec::new() }
}

fn hooked(name: &str, hw: u64, parent: ClkId) -> ClkCore {
    let mut ops = ClkOps::empty();
    ops.prepare = true;
    ops.unprepare = true;
    ops.enable = true;
    ops.disable = true;
    ClkCore::new(name, hw, ops, parent, 0)
}

#[test]
fn register_file_reads_back_writes() {
    let mut r = RegisterFile::new();
    assert_eq!(r.read_reg(0x10), 0);
    r.write_reg(0x10, 0xAB);
    assert_eq!(r.read_reg(0x10), 0xAB);
    assert_eq!(rmw_reg(&mut r, 0x10, 0b101000, 0b001000), 0b1000 | (0xAB & !0b101000));
    assert_eq!(r.read_reg(0x10), 0b1000 | (0xAB & !0b101000));
}

#[test]
fn prepare_runs_hooks_root_first_and_unprepare_leaf_first() {
    let mut reg = ClkRegistry::new();
    let mut h = hw();
    let root = clk_register(&mut reg, &mut h, hooked("root", 1, ClkId(0xFFFF_FFFF))).unwrap();
    let leaf = clk_register(&mut reg, &mut h, hooked("leaf", 2, root)).unwrap();
    clk_prepare(&mut reg, &mut h, leaf).unwrap();
    assert_eq!(h.hooks, vec![("prepare", 1), ("prepare", 2)]);
    clk_prepare(&mut reg, &mut h, leaf).unwrap();
    assert_eq!(h.hooks.len(), 2);
    clk_unprepare(&mut reg, &mut h, leaf);
    assert_eq!(h.hooks.len(), 2);
    clk_unprepare(&mut reg, &mut h, leaf);
    assert_eq!(h.hooks[2..], [("unprepare", 2), ("unprepare", 1)]);
}

#[test]
fn enable_needs_prepare_and_disable_mirrors_enable() {
    let mut reg = ClkRegistry::new();
    let mut h = hw();
    let root = clk_register(&mut reg, &mut h, hooked("root", 1, ClkId(0xFFFF_FFFF))).unwrap();
    let leaf = clk_register(&mut reg, &mut h, hooked("leaf", 2, root)).unwrap();
    assert_eq!(clk_enable(&mut reg, &mut h, leaf), Err(ClkError::NotPrepared));
    clk_prepare(&mut reg, &mut h, leaf).unwrap();
    h.hooks.clear();
    clk_enable(&mut reg, &mut h, leaf).unwrap();
    assert_eq!(h.hooks, vec![("enable", 1), ("enable", 2)]);
    clk_disable(&mut reg, &mut h, leaf);
    assert_eq!(h.hooks[2..], [("disable", 2), ("disable", 1)]);
}

#[test]
fn gate_enable_sets_its_bit() {
    let mut reg = ClkRegistry::new();
    let mut prov = ClkProviders::new();
    let mut h = hw();
    let root = clk_register_fixed_rate(&mut reg, &mut h, "osc", 24_000_000).unwrap();
    let gate = clk_register_gate(&mut reg, &mut prov, &mut h, "gate", root, 0x100, 3, false).unwrap();
    clk_prepare(&mut reg, &mut h, gate).unwrap();
    clk_enable(&mut reg, &mut h, gate).unwrap();
    assert_eq!(h.regs.read_reg(0x100), 1 << 3);
    clk_disable(&mut reg, &mut h, gate);
    assert_eq!(h.regs.read_reg(0x100), 0);
}

#[test]
fn mux_starts_on_the_parent_its_register_selects() {
    let mut reg = ClkRegistry::new();
    let mut prov = ClkProviders::new();
    let mut h = hw();
    let a = clk_register_fixed_rate(&mut reg, &mut h, "a", 1000).unwrap();
    let b = clk_register_fixed_rate(&mut reg, &mut h, "b", 2000).unwrap();
    h.regs.write_reg(0x200, 1 << 4);
    let m = clk_register_mux(&mut reg, &mut prov, &mut h, "mux", 0x200, 4, 2, &[a, b]).unwrap();
    assert_eq!(reg.clocks[m.0 as usize].unwrap().parent, b.0);
}
