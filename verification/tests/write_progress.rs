use rustime::net::{echo_step, EchoStep, WriteProgress};

#[test]
fn whole_buffer_in_one_call() {
    let mut p = WriteProgress::new(10);
    assert_eq!(p.written(), 0);
    assert_eq!(p.advance(10), Some(10));
    assert_eq!(p.written(), 10);
}

#[test]
fn buffer_in_several_calls() {
    let mut p = WriteProgress::new(10);
    assert_eq!(p.advance(3), None);
    assert_eq!(p.written(), 3);
    assert_eq!(p.advance(4), None);
    assert_eq!(p.written(), 7);
    assert_eq!(p.advance(3), Some(10));
    assert_eq!(p.len(), 10);
}

#[test]
fn call_that_writes_nothing_ends_the_write() {
    let mut p = WriteProgress::new(10);
    assert_eq!(p.advance(4), None);
    assert_eq!(p.advance(0), Some(4));
    assert_eq!(p.written(), 4);
}

#[test]
fn empty_buffer() {
    let mut p = WriteProgress::new(0);
    assert_eq!(p.advance(0), Some(0));
}

#[test]
fn settled_write_calls() {
    let mut p = WriteProgress::new(6);
    assert_eq!(p.after_settle::<&str>(None), None);
    assert_eq!(p.written(), 0);
    assert_eq!(p.after_settle::<&str>(Some(Ok(2))), None);
    assert_eq!(p.after_settle::<&str>(Some(Err("reset"))), Some(Err("reset")));
    assert_eq!(p.written(), 2);
    assert_eq!(p.after_settle::<&str>(Some(Ok(4))), Some(Ok(6)));
}

#[test]
fn settled_write_of_nothing_ends_it() {
    let mut p = WriteProgress::new(6);
    assert_eq!(p.after_settle::<&str>(Some(Ok(1))), None);
    assert_eq!(p.after_settle::<&str>(Some(Ok(0))), Some(Ok(1)));
}

#[test]
fn echo_steps() {
    assert_eq!(echo_step::<&str>(Ok(5), 1024), EchoStep::Echo(5));
    assert_eq!(echo_step::<&str>(Ok(1024), 1024), EchoStep::Echo(1024));
    assert_eq!(echo_step::<&str>(Ok(0), 1024), EchoStep::Stop);
    assert_eq!(echo_step::<&str>(Err("reset"), 1024), EchoStep::Stop);
}
