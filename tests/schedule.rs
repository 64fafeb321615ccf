use autoflow::schedule::planner::Planner;
use autoflow::schedule::task::{Task, TaskQueue};
use autoflow::schedule::trigger::Trigger;
use std::cmp::Ordering;

fn now_ms() -> i64 {
    chrono::Utc::now().timestamp_millis()
}

fn create_trigger(id: &str, cron_expr: &str, workflow_id: &str) -> Trigger {
    Trigger::new(id, cron_expr, workflow_id)
}

fn create_task(id: &str, run_at: i64, workflow_id: &str, trigger_id: &str) -> Task {
    Task {
        id: id.to_string(),
        run_at,
        workflow_id: workflow_id.to_string(),
        trigger_id: trigger_id.to_string(),
    }
}

#[test]
fn test_generate_tasks_with_valid_triggers() {
    let triggers = vec![
        create_trigger("trigger1", "*/5 * * * * *", "workflow1"),
        create_trigger("trigger2", "*/10 * * * * *", "workflow2"),
    ];
    let planner = Planner::new(triggers);
    let start = now_ms();
    let future_time = now_ms() + 20_000;

    let tasks = planner.generate_tasks(future_time);

    assert!(!tasks.is_empty(), "Expected tasks to be generated.");
    for task in &tasks {
        assert!(
            task.run_at >= start && task.run_at < future_time,
            "Task run_at time is not within the specified time window."
        );
    }
}

#[test]
fn test_generate_tasks_with_empty_triggers() {
    let planner = Planner::new(Vec::new());
    let future_time = now_ms() + 20_000;
    let tasks = planner.generate_tasks(future_time);
    assert!(tasks.is_empty(), "Expected no tasks to be generated for empty trigger list.");
}

#[test]
fn test_generate_tasks_with_multiple_triggers() {
    let triggers = vec![
        create_trigger("trigger1", "*/5 * * * * *", "workflow1"),
        create_trigger("trigger2", "*/10 * * * * *", "workflow2"),
        create_trigger("trigger3", "*/15 * * * * *", "workflow3"),
    ];
    let planner = Planner::new(triggers);
    let start = now_ms();
    let future_time = now_ms() + 20_000;

    let tasks = planner.generate_tasks(future_time);

    assert!(!tasks.is_empty(), "Expected tasks to be generated for multiple triggers.");
    for task in &tasks {
        assert!(
            task.run_at >= start && task.run_at < future_time,
            "Task run_at time is not within the specified time window."
        );
        assert!(
            task.trigger_id == "trigger1" || task.trigger_id == "trigger2" || task.trigger_id == "trigger3",
            "Unexpected trigger_id in generated task."
        );
    }
    let task_counts = tasks.iter().filter(|task| task.trigger_id == "trigger1").count();
    assert!(task_counts > 0, "Expected tasks from trigger1.");
}

#[test]
fn malformed_trigger_does_not_stop_the_others() {
    let triggers = vec![
        create_trigger("bad", "invalid cron expr", "workflow0"),
        create_trigger("good", "* * * * * *", "workflow1"),
    ];
    let planner = Planner::new(triggers);
    let start: i64 = 1_700_000_000_000;
    let tasks = planner.generate_tasks_between(start, start + 3_000);
    let run_ats: Vec<i64> = tasks.iter().map(|t| t.run_at).collect();
    assert_eq!(run_ats, vec![1_700_000_000_000, 1_700_000_001_000, 1_700_000_002_000]);
    assert!(tasks.iter().all(|t| t.trigger_id == "good" && t.workflow_id == "workflow1"));
    assert_eq!(tasks[1].id, "good-1700000001");
    assert_eq!(planner.malformed_triggers(), vec!["bad".to_string()]);
}

#[test]
fn window_excludes_its_end() {
    let trigger = create_trigger("t", "*/5 * * * * *", "w");
    let start: i64 = 1_700_000_000_500;
    let times = trigger.next_run_times(start, 1_700_000_010_000);
    assert_eq!(times, vec![1_700_000_005_000]);
    let empty = trigger.next_run_times(start, start);
    assert!(empty.is_empty());
}

#[test]
fn task_ids_round_seconds_down() {
    let trigger = create_trigger("t", "* * * * * *", "w");
    let tasks = Planner::tasks_for_runs(&trigger, &vec![1_500, -1_500, 0]);
    assert_eq!(tasks[0].id, "t-1");
    assert_eq!(tasks[1].id, "t--2");
    assert_eq!(tasks[2].id, "t-0");
    assert_eq!(tasks[1].run_at, -1_500);
    assert_eq!(tasks[1].workflow_id, "w");
    assert_eq!(tasks[1].trigger_id, "t");
}

#[test]
fn test_next_run_times_with_valid_cron() {
    let trigger = create_trigger("trigger1", "*/5 * * * * *", "workflow1");
    let start = now_ms();
    let end = start + 20_000;
    let times = trigger.next_run_times(start, end);
    assert!(!times.is_empty(), "Expected run times to be generated.");
    assert!(times.len() >= 1, "Expected at least one run time within the time window.");
    for time in &times {
        assert!(*time >= start && *time < end, "Run time is not within the specified time window.");
    }
}

#[test]
fn test_next_run_times_with_invalid_cron() {
    let trigger = create_trigger("invalid_trigger", "invalid cron expr", "workflow1");
    let start = now_ms();
    let end = start + 20_000;
    let times = trigger.next_run_times(start, end);
    assert!(times.is_empty(), "Expected no run times for an invalid cron expression.");
}

#[test]
fn test_next_run_times_with_edge_of_time_window() {
    let trigger = create_trigger("trigger2", "*/5 * * * * *", "workflow2");
    let start = now_ms();
    let end = start + 10_000;
    let times = trigger.next_run_times(start, end);
    assert!(!times.is_empty(), "Expected run times to be generated.");
    for time in &times {
        assert!(*time >= start && *time < end, "Run time is not within the specified time window.");
    }
    assert!(times.len() <= 2, "Expected at most two run times within a 10-second window.");
}

#[test]
fn test_task_ordering() {
    let now = now_ms();
    let earlier_task = create_task("task1", now, "workflow1", "trigger1");
    let later_task = create_task("task2", now + 10_000, "workflow2", "trigger2");
    assert_eq!(earlier_task.cmp(&later_task), Ordering::Greater, "Earlier task should be considered greater to be at the top of the heap");
    assert_eq!(later_task.cmp(&earlier_task), Ordering::Less, "Later task should be considered less to be below the earlier task in the heap");
    assert!(earlier_task > later_task);
}

#[test]
fn test_task_equality() {
    let now = now_ms();
    let task1 = create_task("task1", now, "workflow1", "trigger1");
    let task2 = create_task("task2", now, "workflow2", "trigger2");
    assert_eq!(task1, task2, "Tasks with the same run_at should be equal");
}

#[test]
fn test_task_sorting_in_binary_heap() {
    let now = now_ms();
    let task1 = create_task("task1", now + 30_000, "workflow1", "trigger1");
    let task2 = create_task("task2", now + 10_000, "workflow2", "trigger2");
    let task3 = create_task("task3", now + 20_000, "workflow3", "trigger3");

    let mut heap = TaskQueue::new();
    heap.push(task1);
    heap.push(task2);
    heap.push(task3);

    let first_task = heap.pop().expect("Expected a task in the heap");
    assert_eq!(first_task.id, "task2", "First task should be the one with earliest run_at");
    let second_task = heap.pop().expect("Expected a task in the heap");
    assert_eq!(second_task.id, "task3", "Second task should be the one with second earliest run_at");
    let third_task = heap.pop().expect("Expected a task in the heap");
    assert_eq!(third_task.id, "task1", "Third task should be the one with latest run_at");
    assert!(heap.pop().is_none());
}

#[test]
fn queue_keeps_arrival_order_for_equal_due_times() {
    let mut queue = TaskQueue::new();
    queue.push(create_task("a", 5, "w", "t"));
    queue.push(create_task("b", 5, "w", "t"));
    queue.push(create_task("c", 1, "w", "t"));
    assert_eq!(queue.len(), 3);
    assert_eq!(queue.pop().unwrap().id, "c");
    assert_eq!(queue.pop().unwrap().id, "a");
    assert_eq!(queue.pop().unwrap().id, "b");
    assert_eq!(queue.len(), 0);
}

#[test]
fn scheduled_task_new_keeps_fields() {
    let t = Task::new("id1", 42, "wf", "tr");
    assert_eq!(t.id, "id1");
    assert_eq!(t.run_at, 42);
    assert_eq!(t.workflow_id, "wf");
    assert_eq!(t.trigger_id, "tr");
}
