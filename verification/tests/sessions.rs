//! Scenario tests: real child processes driven through the registry,
//! with the same three background tasks per session the embedding
//! shell runs, built from the endpoints `start` hands back.

use mcp_stdio::errors::StdioError;
use mcp_stdio::lines::frame_message;
use mcp_stdio::lines::keep_line;
use mcp_stdio::registry::classify_enqueue;
use mcp_stdio::registry::classify_wait;
use mcp_stdio::registry::drain_stale;
use mcp_stdio::registry::PipedChild;
use mcp_stdio::registry::Registry;
use mcp_stdio::registry::TaskEndpoints;
use mcp_stdio::registry::WaitOutcome;
use async_process::Stdio;
use std::time::Duration;
use tokio::io::AsyncBufReadExt;
use tokio::io::AsyncWriteExt;
use tokio::io::BufReader;
use tokio::runtime::Runtime;

fn spawn_tasks(endpoints: TaskEndpoints) {
    let TaskEndpoints { mut stdin, mut outbound_rx, stdout, inbound_tx, stderr } = endpoints;
    tokio::spawn(async move {
        while let Some(message) = outbound_rx.recv().await {
            let framed = frame_message(&message);
            if stdin.write_all(framed.as_bytes()).await.is_err() {
                break;
            }
            if stdin.flush().await.is_err() {
                break;
            }
        }
    });
    tokio::spawn(async move {
        let mut lines = BufReader::new(stdout).lines();
        while let Ok(Some(line)) = lines.next_line().await {
            if keep_line(&line) {
                if inbound_tx.send(line).await.is_err() {
                    break;
                }
            }
        }
    });
    tokio::spawn(async move {
        let mut lines = BufReader::new(stderr).lines();
        while let Ok(Some(_line)) = lines.next_line().await {}
    });
}

async fn launch(registry: &mut Registry, command: &str, args: &[&str]) -> Result<String, StdioError> {
    let mut cmd = tokio::process::Command::new(command);
    cmd.args(args);
    cmd.stdin(Stdio::piped());
    cmd.stdout(Stdio::piped());
    cmd.stderr(Stdio::piped());
    let spawned = match cmd.spawn() {
        Ok(mut child) => {
            let stdin = child.stdin.take();
            let stdout = child.stdout.take();
            let stderr = child.stderr.take();
            Some(PipedChild { child, stdin, stdout, stderr })
        }
        Err(_) => None,
    };
    if !registry.can_start() {
        return Err(StdioError::SpawnError);
    }
    let (id, endpoints) = registry.start(spawned)?;
    spawn_tasks(endpoints);
    Ok(id)
}

async fn send_with_timeout(
    registry: &Registry,
    id: &String,
    message: &str,
    secs: u64,
) -> Result<String, StdioError> {
    let handles = registry.send_begin(id)?;
    let mut rx = handles.inbound_rx.lock().await;
    drain_stale(&mut rx);
    let accepted = handles.outbound_tx.send(message.to_string()).await.is_ok();
    classify_enqueue(accepted)?;
    let outcome = match tokio::time::timeout(Duration::from_secs(secs), rx.recv()).await {
        Ok(Some(line)) => WaitOutcome::Line(line),
        Ok(None) => WaitOutcome::Closed,
        Err(_) => WaitOutcome::TimedOut,
    };
    classify_wait(outcome)
}

#[test]
fn cat_echo_roundtrip() {
    let rt = Runtime::new().unwrap();
    rt.block_on(async {
        let mut registry = Registry::new();
        let id = launch(&mut registry, "cat", &[]).await.unwrap();
        assert!(registry.list().contains(&id));
        let response = send_with_timeout(&registry, &id, "hello", 10).await.unwrap();
        assert_eq!(response, "hello");
        registry.stop(&id);
        assert!(!registry.list().contains(&id));
        assert!(registry.list().is_empty());
    });
}

#[test]
fn spawn_error_produces_no_session() {
    let rt = Runtime::new().unwrap();
    rt.block_on(async {
        let mut registry = Registry::new();
        let before = registry.list();
        let r = launch(&mut registry, "nonexistent-binary-xyz", &[]).await;
        assert_eq!(r, Err(StdioError::SpawnError));
        assert_eq!(registry.list(), before);
    });
}

#[test]
fn missing_pipe_is_reported_and_registers_nothing() {
    let rt = Runtime::new().unwrap();
    rt.block_on(async {
        let mut registry = Registry::new();
        let mut cmd = tokio::process::Command::new("cat");
        cmd.stdin(Stdio::null());
        cmd.stdout(Stdio::piped());
        cmd.stderr(Stdio::piped());
        let mut child = cmd.spawn().unwrap();
        let stdout = child.stdout.take();
        let stderr = child.stderr.take();
        let piped = PipedChild { child, stdin: None, stdout, stderr };
        let r = registry.start(Some(piped));
        assert_eq!(r.err(), Some(StdioError::PipeAcquisitionError));
        assert!(registry.list().is_empty());
    });
}

#[test]
fn stale_output_is_discarded_before_a_send() {
    let rt = Runtime::new().unwrap();
    rt.block_on(async {
        let mut registry = Registry::new();
        let id = launch(&mut registry, "sh", &["-c", "echo A; echo B; cat"]).await.unwrap();
        // Give the child time to write its two stale lines.
        tokio::time::sleep(Duration::from_millis(600)).await;
        let response = send_with_timeout(&registry, &id, "ping", 10).await.unwrap();
        assert_eq!(response, "ping");
        registry.stop(&id);
    });
}

#[test]
fn timeout_leaves_the_session_usable() {
    let rt = Runtime::new().unwrap();
    rt.block_on(async {
        let mut registry = Registry::new();
        let id = launch(&mut registry, "sh", &["-c", "read a; read b; echo pong"]).await.unwrap();
        let first = send_with_timeout(&registry, &id, "one", 1).await;
        assert_eq!(first, Err(StdioError::ResponseTimeout));
        assert!(registry.list().contains(&id));
        let second = send_with_timeout(&registry, &id, "two", 10).await.unwrap();
        assert_eq!(second, "pong");
        registry.stop(&id);
    });
}

#[test]
fn exited_child_reports_process_closed() {
    let rt = Runtime::new().unwrap();
    rt.block_on(async {
        let mut registry = Registry::new();
        let id = launch(&mut registry, "sh", &["-c", "read a"]).await.unwrap();
        let r = send_with_timeout(&registry, &id, "done", 10).await;
        assert_eq!(r, Err(StdioError::ProcessClosed));
        // The entry lingers until an explicit stop.
        assert!(registry.list().contains(&id));
        registry.stop(&id);
        assert!(registry.list().is_empty());
    });
}

#[test]
fn identifiers_are_pairwise_distinct() {
    let rt = Runtime::new().unwrap();
    rt.block_on(async {
        let mut registry = Registry::new();
        let a = launch(&mut registry, "cat", &[]).await.unwrap();
        let b = launch(&mut registry, "cat", &[]).await.unwrap();
        assert_ne!(a, b);
        registry.stop(&a);
        let c = launch(&mut registry, "cat", &[]).await.unwrap();
        // Even the identifier of a stopped session is never reissued.
        assert_ne!(c, a);
        assert_ne!(c, b);
        registry.stop(&b);
        registry.stop(&c);
    });
}

#[test]
fn identifier_has_serial_and_token() {
    let rt = Runtime::new().unwrap();
    rt.block_on(async {
        let mut registry = Registry::new();
        let id = launch(&mut registry, "cat", &[]).await.unwrap();
        // First serial is 0; the token is a 36-character UUID rendering.
        assert!(id.starts_with("0-"));
        assert_eq!(id.len(), 2 + 36);
        registry.stop(&id);
    });
}

#[test]
fn stopped_session_is_gone() {
    let rt = Runtime::new().unwrap();
    rt.block_on(async {
        let mut registry = Registry::new();
        let id = launch(&mut registry, "cat", &[]).await.unwrap();
        registry.stop(&id);
        assert!(!registry.list().contains(&id));
        let r = send_with_timeout(&registry, &id, "hello", 5).await;
        assert_eq!(r, Err(StdioError::SessionNotFound));
        // Stopping again is a harmless no-op.
        registry.stop(&id);
        assert!(registry.list().is_empty());
    });
}

#[test]
fn sessions_are_independent() {
    let rt = Runtime::new().unwrap();
    rt.block_on(async {
        let mut registry = Registry::new();
        let a = launch(&mut registry, "cat", &[]).await.unwrap();
        let b = launch(&mut registry, "cat", &[]).await.unwrap();
        registry.stop(&a);
        // Stopping one session leaves the other registered and usable.
        assert!(registry.list().contains(&b));
        let response = send_with_timeout(&registry, &b, "still here", 10).await.unwrap();
        assert_eq!(response, "still here");
        registry.stop(&b);
    });
}
