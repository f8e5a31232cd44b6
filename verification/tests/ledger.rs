use netsblox_vm_esp32::ledger::{AnyPin, GpioManager, PeripheralError, PwmManager};

fn claim(pin: AnyPin) -> Option<u8> {
    Some(pin.0)
}

fn refuse(_pin: AnyPin) -> Option<u8> {
    None
}

#[test]
fn second_take_of_a_pin_is_refused() {
    let mut ledger = GpioManager::new();
    assert_eq!(ledger.take(4).ok(), Some(AnyPin(4)));
    assert!(matches!(ledger.take(4), Err(PeripheralError::PinAlreadyTaken { pin: 4 })));
    assert_eq!(ledger.take(5).ok(), Some(AnyPin(5)));
}

#[test]
fn pins_outside_the_domain_are_unknown() {
    let mut ledger = GpioManager::new();
    assert!(matches!(ledger.take(49), Err(PeripheralError::PinUnknown { pin: 49 })));
    assert!(matches!(ledger.take(255), Err(PeripheralError::PinUnknown { pin: 255 })));
    assert_eq!(ledger.take(48).ok(), Some(AnyPin(48)));
    assert_eq!(ledger.take(0).ok(), Some(AnyPin(0)));
}

#[test]
fn a_refused_conversion_keeps_the_pin_taken() {
    let mut ledger = GpioManager::new();
    assert!(matches!(
        ledger.take_convert(7, refuse),
        Err(PeripheralError::PinInsufficientCapability { pin: 7 })
    ));
    assert!(matches!(ledger.take_convert(7, claim), Err(PeripheralError::PinAlreadyTaken { pin: 7 })));
    assert_eq!(ledger.take_convert(8, claim).ok(), Some(8));
    assert!(matches!(ledger.take_convert(77, claim), Err(PeripheralError::PinUnknown { pin: 77 })));
}

#[test]
fn pwm_channels_come_in_order_and_run_out() {
    let mut pool = PwmManager::new();
    for expected in 0..8u8 {
        assert_eq!(pool.take().ok(), Some(expected));
    }
    assert!(matches!(pool.take(), Err(PeripheralError::PwmOutOfChannels)));
    assert!(matches!(pool.take(), Err(PeripheralError::PwmOutOfChannels)));
}
