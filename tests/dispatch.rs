use simple_webserver::http10::result_codes::ResultCode;
use simple_webserver::http_server::{examine, on_read, ConnStep, ReadEvent};
use simple_webserver::threadpool::{JobQueue, WorkerAction};

#[test]
fn malformed_request_line_is_rejected() {
    let buf = b"GET HTTP/1.0\r\nHost: x\r\n\r\n".to_vec();
    match examine(&buf, &"HTTP/1.0".to_string(), false) {
        ConnStep::Reject(resp) => {
            assert_eq!(resp.status, ResultCode::BadRequest);
            let text = String::from_utf8(resp.as_bytes()).unwrap();
            assert!(text.starts_with("HTTP/1.0 400 Bad Request\r\n\r\n<html>"));
        },
        other => panic!("unexpected step {:?}", other),
    }
}

#[test]
fn reads_until_frame_complete() {
    let proto = "HTTP/1.0".to_string();
    let mut buf: Vec<u8> = Vec::new();
    assert!(matches!(examine(&buf, &proto, false), ConnStep::ReadMore));
    let step = on_read(&mut buf, ReadEvent::Data(b"GET / HTTP/1.0\r\n".to_vec()), &proto);
    assert!(matches!(step, ConnStep::ReadMore));
    assert!(matches!(on_read(&mut buf, ReadEvent::Interrupted, &proto), ConnStep::ReadMore));
    let step = on_read(&mut buf, ReadEvent::Data(b"Host: x\r\n\r\n".to_vec()), &proto);
    match step {
        ConnStep::Serve(req) => assert_eq!(req.uri, "/"),
        other => panic!("unexpected step {:?}", other),
    }
}

#[test]
fn closed_before_complete_is_rejected() {
    let proto = "HTTP/1.0".to_string();
    let mut buf = b"GET / HTTP/1.0\r\n".to_vec();
    match on_read(&mut buf, ReadEvent::Closed, &proto) {
        ConnStep::Reject(resp) => assert_eq!(resp.status, ResultCode::BadRequest),
        other => panic!("unexpected step {:?}", other),
    }
}

#[test]
fn failed_read_abandons() {
    let proto = "HTTP/1.0".to_string();
    let mut buf = b"GET / HT".to_vec();
    assert!(matches!(on_read(&mut buf, ReadEvent::Failed, &proto), ConnStep::Abandon));
    assert_eq!(buf, b"GET / HT".to_vec());
}

#[test]
fn one_worker_takes_jobs_in_order() {
    let mut q: JobQueue<usize> = JobQueue::new();
    q.push_job(1);
    q.push_job(2);
    q.push_job(3);
    assert_eq!(q.len(), 3);
    let mut seen = Vec::new();
    while let WorkerAction::Run(j) = q.next_job() {
        seen.push(j);
    }
    assert_eq!(seen, vec![1, 2, 3]);
    assert!(q.is_empty());
}

#[test]
fn workers_wait_until_closed() {
    let mut q: JobQueue<usize> = JobQueue::new();
    assert!(matches!(q.next_job(), WorkerAction::Wait));
    q.push_job(7);
    q.close();
    assert!(q.is_closed());
    assert!(matches!(q.next_job(), WorkerAction::Run(7)));
    assert!(matches!(q.next_job(), WorkerAction::Exit));
}

#[test]
fn overlong_body_is_rejected_at_once() {
    let proto = "HTTP/1.0".to_string();
    let buf = b"POST / HTTP/1.0\r\nContent-Length: 2\r\n\r\nabcd".to_vec();
    match examine(&buf, &proto, false) {
        ConnStep::Reject(resp) => assert_eq!(resp.status, ResultCode::BadRequest),
        other => panic!("unexpected step {:?}", other),
    }
    let short = b"POST / HTTP/1.0\r\nContent-Length: 6\r\n\r\nabcd".to_vec();
    assert!(matches!(examine(&short, &proto, false), ConnStep::ReadMore));
}
