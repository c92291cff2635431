use halpid::device::HalpiDevice;
use halpid::errors::I2cError;

#[test]
fn test_device_open_missing_bus_fails() {
    // No I2C hardware is present on this bus number: opening must fail with
    // the open error carrying the bus and address.
    match HalpiDevice::new(200, 0x6D) {
        Ok(_) => panic!("opening a nonexistent I2C bus should fail"),
        Err(e) => assert_eq!(e, I2cError::DeviceOpen { bus: 200, addr: 0x6D }),
    }
}
