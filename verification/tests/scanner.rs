use stalkermap::scanner::actions::ActionIsPortOpen;
use stalkermap::scanner::buffer_pool::BufferPool;
use stalkermap::scanner::formatter::{LogFormatter, LogRecord, StructuredFormatter};
use stalkermap::scanner::{
    compose_addr, run_worker, stream_step, Actions, ConnectOutcome, RecvEvent, Scanner,
    ScannerOptions, Task,
};
use stalkermap::utils::url::UrlParser;
use std::str::FromStr;

fn port_task(url: &str) -> Task<ActionIsPortOpen> {
    Task::new(
        vec![ActionIsPortOpen {}],
        UrlParser::from_str(url).unwrap(),
    )
}

/// Drives the engine until it drains, handing every worker the given
/// outcome, and returns the records along with the highest in-flight
/// gauge observed.
fn drive(
    scanner: &mut Scanner<ActionIsPortOpen>,
    outcome: fn() -> ConnectOutcome,
) -> (Vec<LogRecord>, usize, bool) {
    let fmt = StructuredFormatter;
    let mut records = Vec::new();
    let mut max_gauge = 0usize;
    let mut last_emit = false;
    let mut worker_id = 0u64;
    loop {
        // Begin as many workers as the batch allows, as the driver does.
        let mut begun = Vec::new();
        while let Some(task) = scanner.try_begin_task() {
            begun.push(task);
        }
        if begun.is_empty() {
            break;
        }
        if begun.len() > max_gauge {
            max_gauge = begun.len();
        }
        for task in begun {
            worker_id += 1;
            records.push(run_worker(&task, outcome(), &[], worker_id, &fmt));
            last_emit = scanner.finish_task();
        }
    }
    (records, max_gauge, last_emit)
}

#[test]
fn mod_test_build_scanner_default_and_custom_options() {
    let scanner: Scanner<ActionIsPortOpen> = Scanner::new();
    let scanner_custom: Scanner<ActionIsPortOpen> =
        Scanner::new().with_options(ScannerOptions {
            batch_size: 100,
            timeout_ms: 2_000,
        });

    assert_eq!(scanner.options.batch_size, 100);
    assert_eq!(scanner.options.timeout_ms, 500);
    assert_eq!(scanner_custom.options.batch_size, 100);
    assert_eq!(scanner_custom.options.timeout_ms, 2_000);
}

#[test]
fn scanner_test_scanner_add_task() {
    let mut scanner: Scanner<Actions> = Scanner::new();

    scanner.add_task(
        vec![Actions::PortIsOpen, Actions::ServiceOnPort],
        UrlParser::from_str("https://127.0.0.1:80").unwrap(),
    );
    scanner.add_task(
        vec![Actions::CheckAllPortsAreOpen, Actions::ServiceOnPort],
        UrlParser::from_str("https://127.0.0.1:80").unwrap(),
    );

    assert_eq!(scanner.total_tasks(), 2);
}

#[test]
fn scanner_test_scanner_add_multiple_tasks() {
    let mut scanner: Scanner<Actions> = Scanner::new();

    let l = vec![
        Task::new(
            vec![Actions::PortIsOpen, Actions::ServiceOnPort],
            UrlParser::from_str("https://127.0.0.1:80").unwrap(),
        ),
        Task::new(
            vec![Actions::CheckAllPortsAreOpen, Actions::ServiceOnPort],
            UrlParser::from_str("https://127.0.0.1:80").unwrap(),
        ),
        Task::new(
            vec![Actions::PortIsOpen, Actions::ServiceOnPort],
            UrlParser::from_str("https://127.0.0.1:80").unwrap(),
        ),
    ];

    scanner.add_multiple_tasks(l);

    assert_eq!(scanner.total_tasks(), 3);
}

#[test]
fn test_counters_rise_and_fall_by_one() {
    let mut scanner: Scanner<ActionIsPortOpen> = Scanner::new();
    assert_eq!(scanner.total_tasks_on_queue(), 0);
    scanner.add_task(vec![ActionIsPortOpen {}], UrlParser::new("http://127.0.0.1:1").unwrap());
    assert_eq!(scanner.total_tasks_on_queue(), 1);
    scanner.add_task(vec![ActionIsPortOpen {}], UrlParser::new("http://127.0.0.1:2").unwrap());
    assert_eq!(scanner.total_tasks_on_queue(), 2);

    let _task = scanner.try_begin_task().unwrap();
    // Popping moves one unit from pending to active; the sum is kept.
    assert_eq!(scanner.total_tasks_on_queue(), 2);
    assert_eq!(scanner.total_tasks(), 1);

    let emit = scanner.finish_task();
    assert!(!emit); // one task still pending
    assert_eq!(scanner.total_tasks_on_queue(), 1);

    let _task = scanner.try_begin_task().unwrap();
    let emit = scanner.finish_task();
    assert!(emit); // the last exit makes the engine idle
    assert_eq!(scanner.total_tasks_on_queue(), 0);
}

#[test]
fn test_tasks_pop_in_submission_order() {
    let mut scanner: Scanner<ActionIsPortOpen> = Scanner::new();
    scanner.add_task(vec![ActionIsPortOpen {}], UrlParser::new("http://127.0.0.1:1").unwrap());
    scanner.add_task(vec![ActionIsPortOpen {}], UrlParser::new("http://127.0.0.1:2").unwrap());
    scanner.add_task(vec![ActionIsPortOpen {}], UrlParser::new("http://127.0.0.1:3").unwrap());

    let first = scanner.try_begin_task().unwrap();
    assert_eq!(first.target().port, 1);
    let second = scanner.try_begin_task().unwrap();
    assert_eq!(second.target().port, 2);
    scanner.finish_task();
    scanner.finish_task();
    let third = scanner.try_begin_task().unwrap();
    assert_eq!(third.target().port, 3);
    scanner.finish_task();
}

#[test]
fn test_bounded_concurrency_gauge() {
    let mut scanner: Scanner<ActionIsPortOpen> = Scanner::new().with_options(ScannerOptions {
        batch_size: 4,
        timeout_ms: 100,
    });
    let mut tasks = Vec::new();
    for _ in 0..100 {
        tasks.push(port_task("http://127.0.0.1:1"));
    }
    scanner.add_multiple_tasks(tasks);
    assert_eq!(scanner.total_tasks(), 100);

    let (records, max_gauge, _) = drive(&mut scanner, || {
        ConnectOutcome::Failed("connection refused".to_string())
    });
    assert_eq!(records.len(), 100);
    assert!(max_gauge <= 4);
    assert_eq!(max_gauge, 4);
}

#[test]
fn test_graceful_shutdown_drains() {
    let mut scanner: Scanner<ActionIsPortOpen> = Scanner::new();
    let mut tasks = Vec::new();
    for _ in 0..50 {
        tasks.push(port_task("http://127.0.0.1:1"));
    }
    scanner.add_multiple_tasks(tasks);

    let (records, _, last_emit) = drive(&mut scanner, || {
        ConnectOutcome::Failed("connection refused".to_string())
    });
    // All fifty records are produced before shutdown; the final worker
    // exit reports that the idle sentinel is due.
    assert_eq!(records.len(), 50);
    assert!(last_emit);

    let (done, publish) = scanner.await_idle_poll();
    assert!(done);
    assert!(publish);
    scanner.shutdown_graceful();
    assert!(!scanner.can_subscribe());
    assert!(scanner.is_cancelled());
    assert_eq!(scanner.total_tasks_on_queue(), 0);
}

#[test]
fn test_await_idle_twice_returns_both_times() {
    let mut scanner: Scanner<ActionIsPortOpen> = Scanner::new();
    scanner.add_task(vec![ActionIsPortOpen {}], UrlParser::new("http://127.0.0.1:1").unwrap());
    let _ = scanner.try_begin_task().unwrap();
    let (done, _) = scanner.await_idle_poll();
    assert!(!done);
    scanner.finish_task();

    let (first, publish_first) = scanner.await_idle_poll();
    let (second, publish_second) = scanner.await_idle_poll();
    assert!(first && second);
    assert!(publish_first && publish_second);

    // After shutdown the channel is closed: the wait still completes but
    // no idle record goes to the closed channel.
    scanner.shutdown_graceful();
    let (third, publish_third) = scanner.await_idle_poll();
    assert!(third);
    assert!(!publish_third);
}

#[test]
fn test_idle_then_new_tasks() {
    let mut scanner: Scanner<ActionIsPortOpen> = Scanner::new();
    let mut tasks = Vec::new();
    for _ in 0..3 {
        tasks.push(port_task("http://127.0.0.1:1"));
    }
    scanner.add_multiple_tasks(tasks);
    let (records, _, last_emit) = drive(&mut scanner, || {
        ConnectOutcome::Failed("connection refused".to_string())
    });
    assert_eq!(records.len(), 3);
    let fmt = StructuredFormatter;
    for r in &records {
        assert!(!fmt.is_idle_signal(r));
    }
    assert!(last_emit);
    assert!(scanner.await_idle_poll().0);

    // New tasks bring the engine out of the idle state.
    scanner.add_task(vec![ActionIsPortOpen {}], UrlParser::new("http://127.0.0.1:1").unwrap());
    scanner.add_task(vec![ActionIsPortOpen {}], UrlParser::new("http://127.0.0.1:2").unwrap());
    assert!(!scanner.await_idle_poll().0);
    let (more, _, _) = drive(&mut scanner, || {
        ConnectOutcome::Failed("connection refused".to_string())
    });
    assert_eq!(more.len(), 2);
    for r in &more {
        assert!(!fmt.is_idle_signal(r));
    }
}

#[test]
fn test_worker_reports_closed_port() {
    let task = port_task("http://127.0.0.1:1");
    let record = run_worker(
        &task,
        ConnectOutcome::Failed("connection refused".to_string()),
        &[],
        7,
        &StructuredFormatter,
    );
    let map = &record.header_response.actions_results;
    assert_eq!(map.get("IsPortOpen").unwrap(), "closed");
    assert_eq!(record.data, "connection error: connection refused");
}

#[test]
fn test_worker_reports_timeout() {
    let task = port_task("http://10.255.255.1:80");
    let record = run_worker(
        &task,
        ConnectOutcome::TimedOut("deadline has elapsed".to_string()),
        &[],
        7,
        &StructuredFormatter,
    );
    let map = &record.header_response.actions_results;
    assert_eq!(map.get("IsPortOpen").unwrap(), "timeout");
    assert_eq!(record.data, "connection timed out: deadline has elapsed");
}

#[test]
fn test_worker_reports_open_port() {
    let task = port_task("http://127.0.0.1:8080");
    let record = run_worker(&task, ConnectOutcome::Connected, &[], 3, &StructuredFormatter);
    let map = &record.header_response.actions_results;
    assert_eq!(map.get("IsPortOpen").unwrap(), "open");
    assert_eq!(map.get("target").unwrap(), "127.0.0.1");
    assert_eq!(map.get("port").unwrap(), "8080");
    assert_eq!(record.data, "");
}

#[test]
fn test_compose_addr_defaults_to_eighty() {
    let url = UrlParser::new("http://example.com").unwrap();
    assert_eq!(compose_addr(&url), "example.com:80");
    let url2 = UrlParser::new("http://example.com:8443").unwrap();
    assert_eq!(compose_addr(&url2), "example.com:8443");
}

#[test]
fn test_stream_step_decisions() {
    assert_eq!(stream_step(RecvEvent::Item(5u32)), Some(Some(5)));
    assert_eq!(stream_step(RecvEvent::<u32>::Lagged), None);
    assert_eq!(stream_step(RecvEvent::<u32>::Closed), Some(None));
}

#[test]
fn test_buffer_pool_recycles() {
    let mut pool = BufferPool::new();
    let buf = pool.get();
    assert_eq!(buf.len(), 512);
    pool.put(buf);
    let again = pool.get();
    assert_eq!(again.len(), 512);
}

#[test]
fn test_action_is_port_open_open_port() {
    // A port the listener would hand out; the handshake's success is
    // injected, since this suite runs without a network.
    let port: u16 = 49152;
    let task = port_task(&format!("http://127.0.0.1:{}", port));
    let record = run_worker(&task, ConnectOutcome::Connected, &[], 1, &StructuredFormatter);
    let map = &record.header_response.actions_results;
    assert_eq!(map.get("IsPortOpen").unwrap(), "open");
    assert_eq!(map.get("target").unwrap(), "127.0.0.1");
    assert_eq!(map.get("port").unwrap(), format!("{}", port));
}

#[test]
fn test_scan_closed_port_end_to_end() {
    let rt = tokio::runtime::Builder::new_current_thread()
        .enable_io()
        .enable_time()
        .build()
        .unwrap();
    rt.block_on(async {
        // Bind to an ephemeral port and drop the listener so the port is
        // closed when the probe runs.
        let port = {
            let listener = tokio::net::TcpListener::bind("127.0.0.1:0").await.unwrap();
            listener.local_addr().unwrap().port()
        };
        let task = port_task(&format!("http://127.0.0.1:{}", port));
        let addr = compose_addr(task.target());
        let outcome = match tokio::time::timeout(
            std::time::Duration::from_millis(500),
            tokio::net::TcpStream::connect(addr.as_str()),
        )
        .await
        {
            Ok(Ok(_stream)) => ConnectOutcome::Connected,
            Ok(Err(e)) => ConnectOutcome::Failed(format!("{}", e)),
            Err(e) => ConnectOutcome::TimedOut(format!("{}", e)),
        };
        let record = run_worker(&task, outcome, &[], 1, &StructuredFormatter);
        let map = &record.header_response.actions_results;
        assert_eq!(map.get("IsPortOpen").unwrap(), "closed");
    });
}
