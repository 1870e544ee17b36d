use system_rust::{signal, BReadError, BoolEvent, Delivery, NBReadError, Receiver, Sender};
use system_rust::{SignalRead, SignalWrite, WriteError};
use tokio::sync::broadcast::error::RecvError;

fn run<F: std::future::Future>(f: F) -> F::Output {
    tokio::runtime::Builder::new_current_thread().build().unwrap().block_on(f)
}

fn delivery<T>(r: Result<T, RecvError>) -> Delivery<T> {
    match r {
        Ok(v) => Delivery::Value(v),
        Err(RecvError::Lagged(_)) => Delivery::Lagged,
        Err(RecvError::Closed) => Delivery::Closed,
    }
}

async fn b_read<T: Clone + PartialEq>(rx: &mut Receiver<T>) -> Result<T, BReadError> {
    loop {
        if rx.cursor.closed {
            return Err(BReadError::Closed);
        }
        let d = delivery(rx.rx.recv().await);
        if let Some(r) = rx.b_read_step(d) {
            return r;
        }
    }
}

async fn event<T: Clone + PartialEq>(rx: &mut Receiver<T>) {
    let _ = b_read(rx).await;
}

async fn posedge_event(rx: &mut Receiver<bool>) {
    loop {
        if rx.cursor.closed {
            return;
        }
        let d = delivery(rx.rx.recv().await);
        if rx.posedge_step(d) {
            return;
        }
    }
}

async fn negedge_event(rx: &mut Receiver<bool>) {
    loop {
        if rx.cursor.closed {
            return;
        }
        let d = delivery(rx.rx.recv().await);
        if rx.negedge_step(d) {
            return;
        }
    }
}

#[test]
fn test_signal() {
    let _: Sender<i32> = signal();
}

#[test]
fn test_sender_subscribe() {
    let tx: Sender<i32> = signal();
    let _ = tx.subscribe();
}

#[test]
fn test_signal_nb_read() {
    let test_value: i32 = 42;
    let tx = signal();
    let mut rx = tx.subscribe();
    let _ = tx.tx.send(test_value);
    assert_eq!(test_value, rx.nb_read().unwrap_or(0));
}

#[test]
fn test_signal_b_read() {
    run(async {
        let test_value: i32 = 42;
        let tx = signal();
        let mut rx = tx.subscribe();
        let _ = tx.tx.send(test_value);
        assert_eq!(test_value, b_read(&mut rx).await.unwrap_or(0));
    });
}

#[test]
fn test_signal_nb_write() {
    run(async {
        let test_value: i32 = 42;
        let tx = signal();
        let mut rx = tx.subscribe();
        tx.nb_write(test_value).unwrap();
        assert_eq!(test_value, rx.rx.recv().await.unwrap_or(0));
    });
}

#[test]
fn test_signal_event() {
    run(async {
        let tx = signal();
        let mut rx = tx.subscribe();
        let reader = tokio::task::spawn(async move {
            event(&mut rx).await;
            assert_eq!(41, rx.nb_read().unwrap_or(0));
            event(&mut rx).await;
            assert_eq!(42, rx.nb_read().unwrap_or(0));
        });
        tx.nb_write(41).unwrap();
        tokio::task::yield_now().await;
        tx.nb_write(42).unwrap();
        reader.await.unwrap();
    });
}

#[test]
fn test_signal_posedge_event() {
    run(async {
        let tx = signal();
        let mut rx = tx.subscribe();
        let reader = tokio::task::spawn(async move {
            posedge_event(&mut rx).await;
            assert!(rx.nb_read().unwrap_or(false));
        });
        tx.nb_write(false).unwrap();
        tokio::task::yield_now().await;
        tx.nb_write(true).unwrap();
        reader.await.unwrap();
    });
}

#[test]
fn test_signal_negedge_event() {
    run(async {
        let tx = signal();
        let mut rx = tx.subscribe();
        let reader = tokio::task::spawn(async move {
            negedge_event(&mut rx).await;
            assert!(!rx.nb_read().unwrap_or(true));
        });
        tx.nb_write(true).unwrap();
        tokio::task::yield_now().await;
        tx.nb_write(false).unwrap();
        reader.await.unwrap();
    });
}

#[test]
fn nb_read_is_empty_before_any_write() {
    let tx: Sender<i32> = signal();
    let mut rx = tx.subscribe();
    assert_eq!(rx.nb_read(), Err(NBReadError::Empty));
    assert_eq!(rx.nb_read(), Err(NBReadError::Empty));
}

#[test]
fn nb_read_repeats_the_cached_value() {
    let tx = signal();
    let mut rx = tx.subscribe();
    tx.nb_write(7).unwrap();
    assert_eq!(rx.nb_read(), Ok(7));
    assert_eq!(rx.nb_read(), Ok(7));
    assert_eq!(rx.nb_read(), Ok(7));
    tx.nb_write(8).unwrap();
    assert_eq!(rx.nb_read(), Ok(8));
    assert_eq!(rx.nb_read(), Ok(8));
}

#[test]
fn write_without_subscribers_is_refused() {
    let tx: Sender<i32> = signal();
    assert_eq!(tx.nb_write(1), Err(WriteError::NoSubscribers));
    let rx = tx.subscribe();
    assert_eq!(tx.nb_write(1), Ok(()));
    drop(rx);
    assert_eq!(tx.nb_write(2), Err(WriteError::NoSubscribers));
}

#[test]
fn subscriber_does_not_see_earlier_values() {
    let tx = signal();
    let _first = tx.subscribe();
    tx.nb_write(5).unwrap();
    let mut late = tx.subscribe();
    assert_eq!(late.nb_read(), Err(NBReadError::Empty));
}

#[test]
fn closed_after_every_publisher_is_dropped() {
    let tx = signal();
    let copy = tx.clone();
    let mut rx = tx.subscribe();
    tx.nb_write(3).unwrap();
    drop(tx);
    assert_eq!(rx.nb_read(), Ok(3));
    assert_eq!(rx.nb_read(), Ok(3));
    drop(copy);
    assert_eq!(rx.nb_read(), Err(NBReadError::Closed));
    assert_eq!(rx.nb_read(), Err(NBReadError::Closed));
    run(async move {
        assert_eq!(b_read(&mut rx).await, Err(BReadError::Closed));
    });
}

#[test]
fn pending_value_is_drained_before_closed() {
    let tx = signal();
    let mut rx = tx.subscribe();
    tx.nb_write(9).unwrap();
    drop(tx);
    assert_eq!(rx.nb_read(), Ok(9));
    assert_eq!(rx.nb_read(), Err(NBReadError::Closed));
}

#[test]
fn suspended_b_read_wakes_on_close() {
    run(async {
        let tx: Sender<i32> = signal();
        let mut rx = tx.subscribe();
        let reader = tokio::task::spawn(async move { b_read(&mut rx).await });
        tokio::task::yield_now().await;
        drop(tx);
        assert_eq!(reader.await.unwrap(), Err(BReadError::Closed));
    });
}

#[test]
fn b_read_yields_distinct_values_in_order() {
    run(async {
        let tx = signal();
        let mut rx = tx.subscribe();
        let reader = tokio::task::spawn(async move {
            let mut got = Vec::new();
            while let Ok(v) = b_read(&mut rx).await {
                got.push(v);
            }
            got
        });
        for v in [10, 20, 30, 40] {
            tx.nb_write(v).unwrap();
            tokio::task::yield_now().await;
        }
        drop(tx);
        assert_eq!(reader.await.unwrap(), vec![10, 20, 30, 40]);
    });
}

#[test]
fn b_read_skips_a_repeated_value() {
    run(async {
        let tx = signal();
        let mut rx = tx.subscribe();
        let reader = tokio::task::spawn(async move {
            let mut got = Vec::new();
            while let Ok(v) = b_read(&mut rx).await {
                got.push(v);
            }
            got
        });
        for v in [1, 1, 2] {
            tx.nb_write(v).unwrap();
            tokio::task::yield_now().await;
        }
        drop(tx);
        assert_eq!(reader.await.unwrap(), vec![1, 2]);
    });
}

#[test]
fn lagging_subscriber_skips_to_the_newest_value() {
    let tx = signal();
    let mut rx = tx.subscribe();
    tx.nb_write(1).unwrap();
    tx.nb_write(2).unwrap();
    tx.nb_write(3).unwrap();
    assert_eq!(rx.nb_read(), Ok(3));
    assert_eq!(rx.nb_read(), Ok(3));
}

#[test]
fn two_subscribers_do_not_interfere() {
    let tx = signal();
    let mut a = tx.subscribe();
    let mut b = tx.subscribe();
    tx.nb_write(1).unwrap();
    for _ in 0..5 {
        assert_eq!(a.nb_read(), Ok(1));
    }
    assert_eq!(b.nb_read(), Ok(1));
    tx.nb_write(2).unwrap();
    assert_eq!(b.nb_read(), Ok(2));
    assert_eq!(a.nb_read(), Ok(2));
    assert_eq!(a.nb_read(), Ok(2));
    assert_eq!(b.nb_read(), Ok(2));
}

#[test]
fn posedge_returns_on_close_without_an_edge() {
    run(async {
        let tx = signal();
        let mut rx = tx.subscribe();
        tx.nb_write(false).unwrap();
        let reader = tokio::task::spawn(async move {
            posedge_event(&mut rx).await;
            rx.nb_read()
        });
        tokio::task::yield_now().await;
        drop(tx);
        assert_eq!(reader.await.unwrap(), Err(NBReadError::Closed));
    });
}
