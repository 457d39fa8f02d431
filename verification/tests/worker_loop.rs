use worker_pool::worker::worker_decide;
use worker_pool::worker::WorkerAction;
use worker_pool::worker::WorkerEvent;

#[test]
fn delivered_job_is_run() {
    let action = worker_decide(WorkerEvent::Delivered(42u32));
    match action {
        WorkerAction::Run(job) => assert_eq!(job, 42),
        WorkerAction::Exit => panic!("a delivered job must be run"),
    }
}

#[test]
fn disconnect_ends_the_loop() {
    let action: WorkerAction<u32> = worker_decide(WorkerEvent::Disconnected);
    match action {
        WorkerAction::Run(_) => panic!("nothing was delivered"),
        WorkerAction::Exit => {}
    }
}
