use staros_drivers::i2c::algo::{I2cAlgoBitData, I2cBitOps};
use staros_drivers::i2c::i2c_core::{
    i2c_add_adapter, i2c_del_adapter, i2c_freq_mode_string, i2c_get_adapter, Error, I2cAdapter, I2cAlgorithm,
    I2cClient, I2cIds, I2cMsg, I2cRegistry, I2C_CLIENT_TEN,
};
use staros_drivers::i2c::of::{
    i2c_of_match_device, i2c_of_match_device_sysfs, of_i2c_get_board_info, I2cBoardInfo, I2cOfMatch,
    I2C_OWN_SLAVE_ADDRESS, I2C_TEN_BIT_ADDRESS,
};
use staros_drivers::of::base::{DeviceNode, Property};

struct DummyAlgorithm;

impl I2cAlgorithm for DummyAlgorithm {
    fn master_xfer(&mut self, _adapter: &I2cAdapter, msgs: &mut Vec<I2cMsg>) -> Result<usize, Error> {
        Ok(msgs.len())
    }
    fn functionality(&self) -> u32 {
        0xFFFFFFFF
    }
}

/// Fails the first `failures` transfers, then succeeds.
struct Flaky {
    failures: u32,
    calls: u32,
}

impl I2cAlgorithm for Flaky {
    fn master_xfer(&mut self, _adapter: &I2cAdapter, msgs: &mut Vec<I2cMsg>) -> Result<usize, Error> {
        self.calls += 1;
        if self.calls <= self.failures {
            Err(Error::IoError)
        } else {
            Ok(msgs.len())
        }
    }
    fn functionality(&self) -> u32 {
        0
    }
}

/// Open-drain lines with pull-ups: what is set is what is read.
struct TestBitOps {
    sda: bool,
    scl: bool,
}

impl TestBitOps {
    fn new() -> Self {
        TestBitOps { sda: true, scl: true }
    }
}

impl I2cBitOps for TestBitOps {
    fn set_sda(&mut self, val: bool) {
        self.sda = val;
    }
    fn set_scl(&mut self, val: bool) {
        self.scl = val;
    }
    fn get_sda(&mut self) -> Option<bool> {
        Some(self.sda)
    }
    fn get_scl(&mut self) -> Option<bool> {
        Some(self.scl)
    }
}

fn adapter(ids: &mut I2cIds) -> I2cAdapter {
    I2cAdapter::new("test-i2c".into(), 100_000, ids)
}

#[test]
fn test_algo_creation() {
    let algo = I2cAlgoBitData::new(TestBitOps::new(), 5, 100);
    assert_eq!(algo.udelay, 5);
    assert_eq!(algo.timeout, 100);
}

#[test]
fn test_start_stop() {
    let mut algo = I2cAlgoBitData::new(TestBitOps::new(), 1, 100);
    algo.i2c_start();
    assert!(!algo.ops.sda);
    algo.i2c_stop().unwrap();
    assert!(algo.ops.sda && algo.ops.scl);
}

#[test]
fn test_byte_transfer() {
    let mut algo = I2cAlgoBitData::new(TestBitOps::new(), 1, 100);
    let result = algo.i2c_outb(0x55);
    assert!(result.is_ok());
}

#[test]
fn test_i2c_freq_mode_string() {
    assert_eq!(i2c_freq_mode_string(100_000), "Standard Mode (100 kHz)");
    assert_eq!(i2c_freq_mode_string(400_000), "Fast Mode (400 kHz)");
    assert_eq!(i2c_freq_mode_string(1_000_000), "Fast Mode Plus (1.0 MHz)");
    assert_eq!(i2c_freq_mode_string(123), "Unknown Mode");
}

#[test]
fn test_i2c_msg_creation() {
    let msg = I2cMsg::read(0x50, 10);
    assert_eq!(msg.addr, 0x50);
    assert!(msg.is_read());
    assert_eq!(msg.buf.len(), 10);
    let msg = I2cMsg::write(0x51, vec![1, 2, 3]);
    assert_eq!(msg.addr, 0x51);
    assert!(!msg.is_read());
    assert_eq!(msg.buf.len(), 3);
}

#[test]
fn test_i2c_adapter_creation() {
    let mut ids = I2cIds::new();
    let adapter = adapter(&mut ids);
    assert_eq!(adapter.name, "test-i2c");
    assert_eq!(adapter.bus_freq_hz, 100_000);
    assert_eq!(adapter.retries, 3);
}

#[test]
fn test_i2c_client_address_validation() {
    let mut ids = I2cIds::new();
    let mut adapter = adapter(&mut ids);
    let client = I2cClient::new("test-device".into(), 0x50, 0, &mut adapter);
    assert!(client.is_ok());
    let client = I2cClient::new("test-device".into(), 0x80, 0, &mut adapter);
    assert!(client.is_err());
    let client = I2cClient::new("test-device".into(), 0x200, I2C_CLIENT_TEN, &mut adapter);
    assert!(client.is_ok());
    let again = I2cClient::new("other".into(), 0x50, 0, &mut adapter);
    assert_eq!(again.err(), Some(Error::AddressInUse));
}

#[test]
fn test_i2c_adapter_registry() {
    let mut ids = I2cIds::new();
    let mut reg = I2cRegistry::new();
    let adapter = adapter(&mut ids);
    let id = adapter.id;
    assert!(i2c_add_adapter(&mut reg, adapter).is_ok());
    let found = i2c_get_adapter(&reg, id);
    assert!(found.is_some());
    assert_eq!(found.unwrap().name, "test-i2c");
    assert!(i2c_del_adapter(&mut reg, id).is_ok());
    assert!(i2c_get_adapter(&reg, id).is_none());
}

#[test]
fn test_i2c_transfer() {
    let mut ids = I2cIds::new();
    let adapter = adapter(&mut ids);
    let mut algo = DummyAlgorithm;
    let mut msgs = vec![I2cMsg::write(0x50, vec![0x00]), I2cMsg::read(0x50, 4)];
    let result = adapter.transfer(&mut algo, &mut msgs);
    assert!(result.is_ok());
    assert_eq!(result.unwrap(), 2);
    let mut none: Vec<I2cMsg> = Vec::new();
    assert_eq!(adapter.transfer(&mut algo, &mut none), Err(Error::InvalidArgument));
}

#[test]
fn transfer_retries_up_to_the_adapter_limit() {
    let mut ids = I2cIds::new();
    let adapter = adapter(&mut ids);
    let mut msgs = vec![I2cMsg::write(0x50, vec![0x00])];
    let mut flaky = Flaky { failures: 3, calls: 0 };
    assert_eq!(adapter.transfer(&mut flaky, &mut msgs), Ok(1));
    assert_eq!(flaky.calls, 4);
    let mut broken = Flaky { failures: 10, calls: 0 };
    assert_eq!(adapter.transfer(&mut broken, &mut msgs), Err(Error::IoError));
    assert_eq!(broken.calls, 4);
}

#[test]
fn test_board_info_creation() {
    let info = I2cBoardInfo::new();
    assert_eq!(info.addr, 0);
    assert_eq!(info.flags, 0);
    assert!(info.device_type.is_empty());
}

#[test]
fn test_of_match_creation() {
    let m = I2cOfMatch::new("vendor,device");
    assert_eq!(m.compatible, "vendor,device");
    assert_eq!(m.data, 0);
    let m = I2cOfMatch::with_data("vendor,device", 0x1234);
    assert_eq!(m.data, 0x1234);
}

#[test]
fn test_address_flags() {
    assert_eq!(I2C_TEN_BIT_ADDRESS, 0x80000000);
    assert_eq!(I2C_OWN_SLAVE_ADDRESS, 0x40000000);
}

#[test]
fn test_of_match_device_sysfs() {
    let matches = vec![I2cOfMatch::new("vendor,device1"), I2cOfMatch::new("vendor,device2")];
    assert!(i2c_of_match_device_sysfs(&matches, "vendor,device1").is_some());
    assert!(i2c_of_match_device_sysfs(&matches, "device2").is_some());
    assert!(i2c_of_match_device_sysfs(&matches, "nonexistent").is_none());
}

#[test]
fn test_i2c_of_match_device() {
    let matches = vec![I2cOfMatch::new("vendor,eeprom"), I2cOfMatch::new("vendor,sensor")];
    assert!(i2c_of_match_device(&matches, "eeprom").is_some());
    assert!(i2c_of_match_device(&matches, "vendor,sensor").is_some());
    assert!(i2c_of_match_device(&matches, "unknown").is_none());
}

#[test]
fn board_info_from_a_node() {
    let mut n = DeviceNode::new("eeprom@50");
    n.add_property(Property { name: "compatible".to_string(), value: b"atmel,24c02\0".to_vec() });
    n.add_property(Property { name: "reg".to_string(), value: vec![0x80, 0x00, 0x01, 0x23] });
    let info = of_i2c_get_board_info(&n).ok().unwrap();
    assert_eq!(info.device_type, "24c02");
    assert_eq!(info.addr, 0x123);
    assert_eq!(info.flags, I2C_CLIENT_TEN);
    let mut bad = DeviceNode::new("x");
    bad.add_property(Property { name: "compatible".to_string(), value: b"a,b\0".to_vec() });
    bad.add_property(Property { name: "reg".to_string(), value: vec![0, 0, 0, 0x80] });
    assert_eq!(of_i2c_get_board_info(&bad).err(), Some(Error::InvalidArgument));
}
