use rust_lang_book::channel::{DispatchChannel, DispatchFailure};
use rust_lang_book::message::ControlMessage;
use rust_lang_book::teardown::{Teardown, TeardownStep};
use rust_lang_book::worker::{Worker, WorkerState};
use std::cell::Cell;
use std::rc::Rc;

#[test]
fn worker_starts_running_with_its_identifier() {
    let worker = Worker::new(4);
    assert_eq!(worker.id(), 4);
    assert_eq!(worker.state(), WorkerState::Running);
    assert!(worker.is_running());
}

#[test]
fn worker_executes_work_and_keeps_running() {
    let runs = Rc::new(Cell::new(0));
    let counter = Rc::clone(&runs);
    let mut worker = Worker::new(0);
    worker.handle(ControlMessage::Work(move || counter.set(counter.get() + 1)));
    assert_eq!(runs.get(), 1);
    assert_eq!(worker.state(), WorkerState::Running);
}

#[test]
fn worker_terminates_on_sentinel_and_stays_terminated() {
    let runs = Rc::new(Cell::new(0));
    let counter = Rc::clone(&runs);
    let job = move || counter.set(counter.get() + 1);
    let mut worker = Worker::new(1);
    worker.handle(ControlMessage::<fn()>::Terminate);
    assert_eq!(worker.state(), WorkerState::Terminated);
    assert!(!worker.is_running());

    worker.handle(ControlMessage::Work(job));
    assert_eq!(runs.get(), 0);
    assert_eq!(worker.state(), WorkerState::Terminated);
    assert_eq!(worker.id(), 1);
}

#[test]
fn worker_leaves_its_loop_on_abort() {
    let mut worker = Worker::new(2);
    worker.abort();
    assert_eq!(worker.state(), WorkerState::Terminated);
    assert_eq!(worker.id(), 2);
}

fn tag(message: Option<ControlMessage<u32>>) -> Option<Option<u32>> {
    match message {
        Some(ControlMessage::Work(item)) => Some(Some(item)),
        Some(ControlMessage::Terminate) => Some(None),
        None => None,
    }
}

#[test]
fn channel_hands_messages_out_first_in_first_out() {
    let mut channel: DispatchChannel<u32> = DispatchChannel::new(2);
    assert_eq!(channel.send(ControlMessage::Work(10)), Ok(()));
    assert_eq!(channel.send(ControlMessage::Terminate), Ok(()));
    assert_eq!(channel.send(ControlMessage::Work(30)), Ok(()));
    assert_eq!(channel.len(), 3);

    assert_eq!(tag(channel.recv()), Some(Some(10)));
    assert_eq!(tag(channel.recv()), Some(None));
    assert_eq!(tag(channel.recv()), Some(Some(30)));
    assert_eq!(tag(channel.recv()), None);
    assert_eq!(channel.len(), 0);
}

#[test]
fn channel_refuses_messages_once_no_consumer_is_left() {
    let mut channel: DispatchChannel<u32> = DispatchChannel::new(1);
    assert_eq!(channel.consumers(), 1);
    assert_eq!(channel.send(ControlMessage::Work(1)), Ok(()));

    channel.release();
    assert_eq!(channel.consumers(), 0);
    assert_eq!(channel.send(ControlMessage::Work(2)), Err(DispatchFailure));
    assert_eq!(channel.len(), 1);

    channel.release();
    assert_eq!(channel.consumers(), 0);
}

#[test]
fn teardown_sends_every_sentinel_before_the_first_join() {
    let mut teardown = Teardown::new(3);
    assert!(!teardown.begun());
    let mut steps = Vec::new();
    for _ in 0..8 {
        steps.push(teardown.next());
    }
    assert_eq!(
        steps,
        vec![
            TeardownStep::SendTerminate,
            TeardownStep::SendTerminate,
            TeardownStep::SendTerminate,
            TeardownStep::Join(0),
            TeardownStep::Join(1),
            TeardownStep::Join(2),
            TeardownStep::Done,
            TeardownStep::Done,
        ]
    );
    assert!(teardown.begun());
    assert!(teardown.finished());
}

#[test]
fn teardown_of_nothing_is_done_at_once() {
    let mut teardown = Teardown::new(0);
    assert!(teardown.finished());
    assert_eq!(teardown.next(), TeardownStep::Done);
}
