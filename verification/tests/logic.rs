//! Tests of the pure decision logic: identifier rendering, the
//! platform invocation policy, search-path enrichment, line handling
//! and the classification of send outcomes.

use mcp_stdio::errors::StdioError;
use mcp_stdio::ids::render_session_id;
use mcp_stdio::ids::u64_to_dec;
use mcp_stdio::launcher::enriched_search_path;
use mcp_stdio::launcher::join_search_path;
use mcp_stdio::launcher::latest_version;
use mcp_stdio::launcher::nvm_node_bin;
use mcp_stdio::launcher::plan_invocation;
use mcp_stdio::launcher::str_lex_le;
use mcp_stdio::launcher::Platform;
use mcp_stdio::lines::frame_message;
use mcp_stdio::lines::keep_line;
use mcp_stdio::registry::classify_enqueue;
use mcp_stdio::registry::classify_wait;
use mcp_stdio::registry::Registry;
use mcp_stdio::registry::WaitOutcome;
use mcp_stdio::registry::INBOUND_CAPACITY;
use mcp_stdio::registry::OUTBOUND_CAPACITY;
use mcp_stdio::registry::RESPONSE_TIMEOUT_SECS;

#[test]
fn decimal_rendering() {
    assert_eq!(u64_to_dec(0), "0");
    assert_eq!(u64_to_dec(7), "7");
    assert_eq!(u64_to_dec(10), "10");
    assert_eq!(u64_to_dec(1234567890), "1234567890");
    assert_eq!(u64_to_dec(u64::MAX), "18446744073709551615");
}

#[test]
fn session_id_rendering() {
    let token = "2f4d".to_string();
    assert_eq!(render_session_id(0, &token), "0-2f4d");
    assert_eq!(render_session_id(41, &token), "41-2f4d");
}

#[test]
fn error_descriptions() {
    assert_eq!(StdioError::SpawnError.describe(), "Failed to spawn MCP process");
    assert_eq!(StdioError::PipeAcquisitionError.describe(), "Failed to get child pipe");
    assert_eq!(StdioError::SessionNotFound.describe(), "Session not found");
    assert_eq!(StdioError::SendFailure.describe(), "Failed to send message");
    assert_eq!(StdioError::ProcessClosed.describe(), "MCP stdio process closed");
    assert_eq!(StdioError::ResponseTimeout.describe(), "MCP stdio response timeout (60s)");
}

#[test]
fn queue_capacities() {
    assert_eq!(OUTBOUND_CAPACITY, 64);
    assert_eq!(INBOUND_CAPACITY, 256);
    assert_eq!(RESPONSE_TIMEOUT_SECS, 60);
}

#[test]
fn shell_wrapped_invocation() {
    let inv = plan_invocation(
        Platform::ShellWrapped,
        "npx".to_string(),
        vec!["-y".to_string(), "server".to_string()],
    );
    assert_eq!(inv.program, "cmd.exe");
    assert_eq!(inv.args, vec!["/C", "npx", "-y", "server"]);
}

#[test]
fn direct_invocation() {
    let inv = plan_invocation(
        Platform::SearchPathEnriched,
        "python3".to_string(),
        vec!["-m".to_string(), "server".to_string()],
    );
    assert_eq!(inv.program, "python3");
    assert_eq!(inv.args, vec!["-m", "server"]);
}

#[test]
fn lexicographic_order() {
    assert!(str_lex_le("", "a"));
    assert!(str_lex_le("a", "a"));
    assert!(str_lex_le("a", "b"));
    assert!(!str_lex_le("b", "a"));
    assert!(str_lex_le("abc", "abd"));
    assert!(str_lex_le("ab", "abc"));
    assert!(!str_lex_le("abc", "ab"));
    assert!(str_lex_le("v18.17.0", "v20.5.1"));
    assert!(str_lex_le("v20.5.1", "v8.0.0"));
}

#[test]
fn latest_version_picks_maximum() {
    let versions = vec!["v18.17.0".to_string(), "v20.5.1".to_string(), "v8.0.0".to_string()];
    assert_eq!(latest_version(&versions), Some("v8.0.0".to_string()));
    let empty: Vec<String> = Vec::new();
    assert_eq!(latest_version(&empty), None);
    let one = vec!["v20.11.1".to_string()];
    assert_eq!(latest_version(&one), Some("v20.11.1".to_string()));
}

#[test]
fn nvm_bin_directory() {
    let home = "/home/u".to_string();
    let versions = vec!["v18.17.0".to_string(), "v20.5.1".to_string()];
    assert_eq!(
        nvm_node_bin(&home, &versions),
        Some("/home/u/.nvm/versions/node/v20.5.1/bin".to_string())
    );
    assert_eq!(nvm_node_bin(&home, &Vec::new()), None);
}

#[test]
fn joined_search_path() {
    assert_eq!(join_search_path(&Vec::new()), "");
    assert_eq!(join_search_path(&vec!["/bin".to_string()]), "/bin");
    assert_eq!(
        join_search_path(&vec!["/a".to_string(), "/b".to_string(), "/c".to_string()]),
        "/a:/b:/c"
    );
}

#[test]
fn enriched_search_path_full() {
    let home = "/home/u".to_string();
    let current = "/usr/bin:/bin".to_string();
    let nvm = Some("/home/u/.nvm/versions/node/v20.5.1/bin".to_string());
    let expected = "/home/u/.nvm/versions/node/v20.5.1/bin:\
/opt/homebrew/bin:/opt/homebrew/sbin:/usr/local/bin:/usr/local/sbin:\
/home/u/.local/bin:/home/u/.cargo/bin:/home/u/.volta/bin:\
/home/u/.fnm/aliases/default/bin:\
/usr/bin:/bin:/usr/sbin:/sbin:/usr/bin:/bin";
    assert_eq!(enriched_search_path(&home, &current, nvm), expected);
}

#[test]
fn enriched_search_path_empty_inherited() {
    let home = "/home/u".to_string();
    let current = String::new();
    let expected = "/opt/homebrew/bin:/opt/homebrew/sbin:/usr/local/bin:/usr/local/sbin:\
/home/u/.local/bin:/home/u/.cargo/bin:/home/u/.volta/bin:\
/home/u/.fnm/aliases/default/bin:\
/usr/bin:/bin:/usr/sbin:/sbin";
    assert_eq!(enriched_search_path(&home, &current, None), expected);
}

#[test]
fn blank_lines_dropped() {
    assert!(!keep_line(&String::new()));
    assert!(!keep_line(&"   ".to_string()));
    assert!(!keep_line(&"\t \u{00A0}".to_string()));
    assert!(keep_line(&"{\"id\":1}".to_string()));
    assert!(keep_line(&"  x ".to_string()));
}

#[test]
fn message_framing() {
    assert_eq!(frame_message(&"{\"id\":1}".to_string()), "{\"id\":1}\n");
    assert_eq!(frame_message(&String::new()), "\n");
}

#[test]
fn enqueue_classification() {
    assert_eq!(classify_enqueue(true), Ok(()));
    assert_eq!(classify_enqueue(false), Err(StdioError::SendFailure));
}

#[test]
fn wait_classification() {
    assert_eq!(classify_wait(WaitOutcome::Line("pong".to_string())), Ok("pong".to_string()));
    assert_eq!(classify_wait(WaitOutcome::Closed), Err(StdioError::ProcessClosed));
    assert_eq!(classify_wait(WaitOutcome::TimedOut), Err(StdioError::ResponseTimeout));
}

#[test]
fn spawn_failure_registers_nothing() {
    let mut reg = Registry::new();
    assert!(reg.can_start());
    let r = reg.start(None);
    assert_eq!(r.err(), Some(StdioError::SpawnError));
    assert!(reg.list().is_empty());
}

#[test]
fn unknown_identifier_not_found() {
    let reg = Registry::new();
    assert!(!reg.contains(&"0-anything".to_string()));
    let r = reg.send_begin(&"0-anything".to_string());
    assert!(matches!(r.err(), Some(StdioError::SessionNotFound)));
}

#[test]
fn stop_is_idempotent_on_empty_registry() {
    let mut reg = Registry::new();
    reg.stop(&"0-anything".to_string());
    reg.stop(&"0-anything".to_string());
    assert!(reg.list().is_empty());
}

#[test]
fn drained_stale_lines_are_discarded() {
    let (tx, mut rx) = tokio::sync::mpsc::channel::<String>(8);
    tx.try_send("stale one".to_string()).unwrap();
    tx.try_send("stale two".to_string()).unwrap();
    let drained = mcp_stdio::registry::drain_stale(&mut rx);
    assert_eq!(drained, 2);
    assert!(rx.try_recv().is_err());
}
