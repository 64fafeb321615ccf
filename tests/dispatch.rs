use autoflow::fetcher::{LocalQueue, LocalQueueFetcher};
use autoflow::task::{Task, TaskStatus};
use autoflow::worker::{Dispatch, Worker, WorkerStatus};

fn payload(key: &str, value: &str) -> serde_json::Value {
    let mut m = serde_json::Map::new();
    m.insert(key.to_string(), serde_json::Value::String(value.to_string()));
    serde_json::Value::Object(m)
}

#[test]
fn test_enqueue_dequeue() {
    let mut queue = LocalQueue::new();
    assert_eq!(queue.size(), 0);

    let task1 = Task::new("task".to_string(), payload("task", "Task1"));
    let task2 = Task::new("task".to_string(), payload("task", "Task2"));

    queue.enqueue(task1.clone());
    assert_eq!(queue.size(), 1);

    queue.enqueue(task2.clone());
    assert_eq!(queue.size(), 2);

    let dequeued1 = queue.dequeue();
    assert_eq!(dequeued1, Some(task1));
    assert_eq!(queue.size(), 1);

    let dequeued2 = queue.dequeue();
    assert_eq!(dequeued2, Some(task2));
    assert_eq!(queue.size(), 0);

    let dequeued3 = queue.dequeue();
    assert_eq!(dequeued3, None);
}

#[test]
fn test_singleton_enqueue_dequeue() {
    let task1 = Task::new("task".to_string(), payload("task", "SingletonTask1"));
    let task2 = Task::new("task".to_string(), payload("task", "SingletonTask2"));

    let mut fetcher = LocalQueueFetcher::new();
    fetcher.queue.enqueue(task1.clone());
    fetcher.queue.enqueue(task2.clone());

    let fetched_tasks = fetcher.fetch();
    assert_eq!(fetched_tasks, vec![task1]);

    let fetched_tasks = fetcher.fetch();
    assert_eq!(fetched_tasks, vec![task2]);

    let fetched_tasks = fetcher.fetch();
    assert!(fetched_tasks.is_empty());
}

#[test]
fn new_worker_task_is_queued() {
    let t = Task::new("kind".to_string(), payload("k", "v"));
    assert_eq!(t.status, TaskStatus::Queued);
    assert_eq!(t.task_type, "kind");
}

#[test]
fn unknown_task_type_is_reported_and_work_goes_on() {
    let mut worker: Worker<&str> = Worker::new();
    worker.add_handler("task_type_1".to_string(), "h1");
    assert_eq!(worker.accept_task(&"unknown_task".to_string()), Dispatch::Unknown);
    assert_eq!(worker.processed, 1);
    assert_eq!(worker.status(), WorkerStatus::Idle);
    assert_eq!(worker.accept_task(&"task_type_1".to_string()), Dispatch::Run(0));
    assert_eq!(worker.status(), WorkerStatus::Busy);
    assert_eq!(worker.processed, 2);
}

#[test]
fn single_slot_runs_one_task_at_a_time() {
    let mut worker: Worker<&str> = Worker::new();
    worker.add_handler("task_type_1".to_string(), "h1");
    worker.add_handler("task_type_2".to_string(), "h2");
    assert_eq!(worker.accept_task(&"task_type_1".to_string()), Dispatch::Run(0));
    assert_eq!(worker.accept_task(&"task_type_2".to_string()), Dispatch::Wait);
    assert_eq!(worker.in_flight, 1);
    worker.finish();
    assert_eq!(worker.status(), WorkerStatus::Idle);
    assert_eq!(worker.accept_task(&"task_type_2".to_string()), Dispatch::Run(1));
}

#[test]
fn two_slots_let_executions_overlap() {
    let mut worker: Worker<&str> = Worker::new();
    worker.with_concurrency(2);
    worker.learn(vec![("a".to_string(), "ha"), ("b".to_string(), "hb")]);
    assert_eq!(worker.accept_task(&"a".to_string()), Dispatch::Run(0));
    assert_eq!(worker.accept_task(&"b".to_string()), Dispatch::Run(1));
    assert_eq!(worker.in_flight, 2);
    assert_eq!(worker.accept_task(&"a".to_string()), Dispatch::Wait);
}

#[test]
fn later_registration_replaces_handler() {
    let mut worker: Worker<&str> = Worker::new();
    worker.learn(vec![("a".to_string(), "first"), ("a".to_string(), "second")]);
    match worker.accept_task(&"a".to_string()) {
        Dispatch::Run(i) => assert_eq!(worker.handlers[i], "second"),
        other => panic!("unexpected {:?}", other),
    }
}

#[test]
fn task_limit_stops_intake() {
    let mut worker: Worker<&str> = Worker::new();
    assert!(!worker.limit_reached());
    worker.with_limit(2);
    worker.accept_task(&"x".to_string());
    assert!(!worker.limit_reached());
    worker.accept_task(&"y".to_string());
    assert!(worker.limit_reached());
}
