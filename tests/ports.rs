use system_rust::{signal, In, NBReadError, Out, Read, Sender, SignalRead, Wait, Write};
use system_rust::{BReadError, Connect, Delivery, SignalWrite};

#[test]
fn test_connect_in() {
    let tx: Sender<i32> = signal();
    let _in_port = In::connect(tx.subscribe());
}

#[test]
fn test_connect_out() {
    let tx: Sender<i32> = signal();
    let _out_port = Out::connect(tx.clone());
}

#[test]
fn port_test_out_write() {
    let test_val = 42;
    let tx = signal();
    let out = Out::connect(tx.clone());
    let mut rx = tx.subscribe();
    out.nb_write(test_val).unwrap();
    assert_eq!(test_val, rx.nb_read().unwrap_or(0));
}

#[test]
fn port_test_in_nbread() {
    let test_val = 42;
    let tx = signal();
    let mut port_in = In::connect(tx.subscribe());
    tx.nb_write(test_val).unwrap();
    assert_eq!(test_val, Read::nb_read(&mut port_in).unwrap_or(0));
}

#[test]
fn ports_test_out_write() {
    let test_val = 42;
    let tx = signal();
    let mut rx = tx.subscribe();
    let out = Out::connect(tx);
    out.nb_write(test_val).unwrap();
    assert_eq!(test_val, rx.nb_read().unwrap_or(0));
}

#[test]
fn ports_test_in_nbread() {
    let test_val = 42;
    let tx = signal();
    let mut port_in = In::connect(tx.subscribe());
    tx.nb_write(test_val).unwrap();
    assert_eq!(test_val, Read::nb_read(&mut port_in).unwrap_or(0));
}

#[test]
fn in_port_reads_empty_then_value_then_closed() {
    let tx = signal();
    let mut port_in = In::connect(tx.subscribe());
    assert_eq!(Read::nb_read(&mut port_in), Err(NBReadError::Empty));
    let out = Out::connect(tx);
    out.nb_write(5u8).unwrap();
    assert_eq!(Read::nb_read(&mut port_in), Ok(5));
    drop(out);
    assert_eq!(Read::nb_read(&mut port_in), Err(NBReadError::Closed));
}

#[test]
fn wait_step_drops_the_value() {
    let tx: Sender<i32> = signal();
    let mut port_in = In::connect(tx.subscribe());
    assert_eq!(port_in.wait_step(Delivery::Value(4)), Some(Ok(())));
    assert_eq!(port_in.wait_step(Delivery::Value(4)), None);
    assert_eq!(port_in.wait_step(Delivery::Lagged), None);
    assert_eq!(port_in.wait_step(Delivery::Closed), Some(Err(BReadError::Closed)));
    assert_eq!(port_in.wait_step(Delivery::Value(5)), Some(Err(BReadError::Closed)));
}

#[test]
fn connect_trait_makes_both_kinds_of_port() {
    let mut tx: Sender<i32> = signal();
    let mut reader = tx.connect_in();
    let writer = tx.connect_out();
    assert_eq!(Read::nb_read(&mut reader), Err(NBReadError::Empty));
    writer.nb_write(6).unwrap();
    assert_eq!(Read::nb_read(&mut reader), Ok(6));
    drop(tx);
    drop(writer);
    assert_eq!(Read::nb_read(&mut reader), Err(NBReadError::Closed));
}
