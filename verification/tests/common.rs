use looper_processor::common::Consumer;

#[test]
fn test_fn_consumer() {
    let (tx, rx) = std::sync::mpsc::channel();

    fn sample_consumer(tx: std::sync::mpsc::Sender<bool>) {
        tx.send(true).unwrap();
    }

    let consumer: Box<dyn Fn(std::sync::mpsc::Sender<bool>)> = Box::new(sample_consumer);
    consumer.accept(tx);
    assert!(rx.recv().unwrap());
}

#[test]
fn test_closure_consumer_receives_each_value() {
    let seen = std::cell::RefCell::new(Vec::new());
    let push = |v: u32| seen.borrow_mut().push(v);
    push.accept(3);
    push.accept(5);
    assert_eq!(*seen.borrow(), vec![3, 5]);
}
