use std::rc::Rc;

use owned_handler::bus::{get_device, DummyI2c, ExampleDevice, I2c, Operation};
use owned_handler::error::I2cCommError;
use owned_handler::serial::{
    Handler, HandlerT, HandlesI2C, Noop, Owned, OwnedTargetExt, TargetExt2, Transformer, WriteByte,
};

fn device() -> ExampleDevice<DummyI2c> {
    ExampleDevice::new(DummyI2c::new())
}

fn ping() -> WriteByte {
    WriteByte { address: 0x10, byte: 0xAB }
}

#[test]
fn routine_counts_three_handles() {
    // The routine issues one write per run; the device counts the transfers.
    let mut owned = device().owned_handler(ping());
    for _ in 0..3 {
        assert!(owned.handle().is_ok());
    }
    let HandlerT(dev, routine) = owned.into_inner();
    assert_eq!(dev.transfer_count(), 3);
    assert_eq!(routine, ping());
}

#[test]
fn handle_runs_routine_on_the_owned_device() {
    let mut owned = device().owned_handler(ping());
    assert!(owned.handle().is_ok());
    let HandlerT(dev, _) = owned.into_inner();
    assert_eq!(dev.transfer_count(), 1);
    assert_eq!(dev.address_of(0), 0x10);
}

#[test]
fn handler_mutation_is_seen_after_the_call() {
    let mut dev = device();
    {
        let mut runner = dev.handler(ping());
        assert!(runner.handle().is_ok());
        assert_eq!(runner.parent.transfer_count(), 1);
    }
    assert_eq!(dev.transfer_count(), 1);
    {
        let mut runner = Handler::new(&mut dev, WriteByte { address: 0x22, byte: 1 });
        assert!(runner.handle().is_ok());
    }
    assert_eq!(dev.transfer_count(), 2);
    assert_eq!(dev.address_of(1), 0x22);
}

#[test]
fn noop_handler_succeeds_and_changes_nothing() {
    let mut dev = device();
    let mut runner = Handler::noop(&mut dev);
    assert!(runner.handle().is_ok());
    assert_eq!(dev.transfer_count(), 0);
}

#[test]
fn handler_passes_transactions_to_its_device() {
    let mut dev = device();
    {
        let mut runner = Handler::noop(&mut dev);
        assert!(runner.write(0x30, &[1, 2]).is_ok());
    }
    assert_eq!(dev.transfer_count(), 1);
    assert_eq!(dev.address_of(0), 0x30);
}

#[test]
fn device_error_comes_back_unchanged() {
    let mut owned = device().owned_handler(WriteByte { address: 0x80, byte: 0 });
    let err = owned.handle().unwrap_err();
    assert_eq!(err.into_inner(), "address out of range");
}

#[test]
fn transformer_runs_through_a_fresh_runner() {
    let mut pair = HandlerT(device(), ping());
    assert!(pair.run().is_ok());
    {
        let mut runner = pair.transform();
        assert!(runner.handle().is_ok());
    }
    assert_eq!(pair.0.transfer_count(), 2);
    let mut owned = pair.into_owned();
    assert!(owned.handle().is_ok());
    assert_eq!(owned.into_inner().0.transfer_count(), 3);
}

#[test]
fn owned_new_wraps_a_pair() {
    let mut owned = Owned::new(HandlerT(device(), ping()));
    assert!(owned.handle().is_ok());
    assert_eq!(owned.into_inner().0.transfer_count(), 1);
}

#[test]
fn owned_adapter_passes_transactions_through() {
    let mut owned = device().owned_handler(Noop);
    let mut ops = vec![Operation::Write(vec![1]), Operation::Read(vec![0, 0])];
    assert!(owned.transaction(0x11, &mut ops).is_ok());
    assert!(owned.transaction(0xFF, &mut ops).is_err());
    let dev = owned.into_inner().0;
    assert_eq!(dev.transfer_count(), 2);
    assert_eq!(dev.address_of(1), 0xFF);
}

/// Compiles only for values that hold no borrow.
fn holds_no_borrow<X: 'static>(_: &X) {}

#[test]
fn dropping_adapter_drops_device_once() {
    let token = Rc::new(());
    let owned = ExampleDevice::new(token.clone()).owned_handler(ping());
    holds_no_borrow(&owned);
    assert_eq!(Rc::strong_count(&token), 2);
    drop(owned);
    assert_eq!(Rc::strong_count(&token), 1);
}

#[test]
fn noop_routine_succeeds_through_owned_adapter() {
    let mut owned = device().owned_handler(Noop);
    assert!(owned.handle().is_ok());
    assert_eq!(owned.into_inner().0.transfer_count(), 0);
}

#[test]
fn example_device_acknowledges_reads_and_writes() {
    let mut dev = device();
    assert!(dev.write(0x3C, &[1, 2, 3]).is_ok());
    let mut buffer = vec![7, 8];
    assert!(dev.read(0x3C, &mut buffer).is_ok());
    assert_eq!(buffer, vec![7, 8]);
    let mut ops = vec![Operation::Read(vec![0; 2]), Operation::Write(vec![9])];
    assert!(dev.transaction(0x7F, &mut ops).is_ok());
    assert_eq!(dev.transfer_count(), 3);
}

#[test]
fn example_device_refuses_wide_addresses() {
    let mut dev = device();
    let err = dev.write(0x80, &[1]).unwrap_err();
    assert_eq!(err.into_inner(), "address out of range");
    let mut buffer = vec![5];
    assert!(dev.read(0xFF, &mut buffer).is_err());
    assert_eq!(buffer, vec![5]);
}

#[test]
fn erased_device_answers_like_the_device() {
    let mut plain = device();
    let mut erased = get_device(device());
    for address in [0x10u8, 0x7F, 0x80, 0x00, 0xFF] {
        let a = plain.write(address, &[2]).map_err(|e| e.into_inner());
        let b = erased.write(address, &[2]).map_err(|e| e.into_inner());
        assert_eq!(a, b);
    }
    let mut owned = get_device(device()).owned_handler(ping());
    assert!(owned.handle().is_ok());
}

#[test]
fn comm_error_keeps_its_message() {
    let e = I2cCommError::new("nack".to_string());
    assert_eq!(e.into_inner(), "nack");
}
