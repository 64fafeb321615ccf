use autoflow::task_executor::{Task, TaskExecutorTrait, TaskHandler, TaskStatus};
use std::cell::Cell;
use std::rc::Rc;

#[test]
fn test_task_success_execution() {
    struct MockTaskHandler;

    impl<T> TaskHandler<T> for MockTaskHandler {
        fn before(&mut self, _data: &T) -> Result<(), String> {
            Ok(())
        }

        fn handle(&mut self, _data: &T) -> Result<(), String> {
            Ok(())
        }

        fn after(&mut self, _data: &T) -> Result<(), String> {
            Ok(())
        }
    }

    let data = "test_data";
    let handler: Box<MockTaskHandler> = Box::new(MockTaskHandler);
    let mut task = Task::new(data, handler, 3);

    let result = task.execute();
    assert!(result.is_ok());
    assert_eq!(task.status, TaskStatus::Success);
    assert_eq!(task.attempts, 0);
}

struct MockFailTaskHandler {
    attempts_before_success: i32,
    current_attempt: i32,
    calls: Rc<Cell<i32>>,
}

impl MockFailTaskHandler {
    fn new(attempts_before_success: i32) -> Self {
        MockFailTaskHandler {
            attempts_before_success,
            current_attempt: 0,
            calls: Rc::new(Cell::new(0)),
        }
    }
}

impl<T> TaskHandler<T> for MockFailTaskHandler {
    fn before(&mut self, _data: &T) -> Result<(), String> {
        self.calls.set(self.calls.get() + 1);
        Ok(())
    }

    fn handle(&mut self, _data: &T) -> Result<(), String> {
        self.current_attempt += 1;
        if self.current_attempt <= self.attempts_before_success {
            Err("Failure".to_string())
        } else {
            Ok(())
        }
    }

    fn after(&mut self, _data: &T) -> Result<(), String> {
        Ok(())
    }
}

#[test]
fn test_task_retry_on_failure() {
    let data = "test_data";
    let handler = Box::new(MockFailTaskHandler::new(2));
    let mut task: Task<&str, Box<MockFailTaskHandler>> = Task::new(data, handler, 3);
    let result = task.execute();

    assert!(result.is_ok());
    assert_eq!(task.status, TaskStatus::Success);
    assert_eq!(task.attempts, 2);
    assert!(task.start_time.is_some());
    assert!(task.end_time.is_some());
}

#[test]
fn test_task_fail_with_zero_max_retries() {
    let data = "test_data";
    let handler = Box::new(MockFailTaskHandler::new(1));
    let calls = handler.calls.clone();
    let mut task: Task<&str, Box<MockFailTaskHandler>> = Task::new(data, handler, 0);
    let result = task.execute();

    assert!(result.is_err());
    assert_eq!(task.status, TaskStatus::Failed);
    assert_eq!(task.attempts, 0);
    assert_eq!(calls.get(), 0);
}

#[test]
fn exhausted_retries_fail_after_max_cycles() {
    let handler = MockFailTaskHandler::new(10);
    let calls = handler.calls.clone();
    let mut task = Task::new(7u32, handler, 3);
    let result = task.execute();

    assert_eq!(result, Err("Maximum retry attempts reached".to_string()));
    assert_eq!(task.status, TaskStatus::Failed);
    assert_eq!(task.attempts, 3);
    assert_eq!(calls.get(), 3);
    assert!(task.end_time.is_none());
}

#[test]
fn new_task_is_pending() {
    let task = Task::new(1u8, MockFailTaskHandler::new(0), 2);
    assert_eq!(task.status, TaskStatus::Pending);
    assert_eq!(task.attempts, 0);
    assert_eq!(task.max_attempts, 2);
    assert!(task.start_time.is_none());
    assert_eq!(task.get_handler().attempts_before_success, 0);
}
