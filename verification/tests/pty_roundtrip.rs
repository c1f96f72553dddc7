//! An end-to-end check: a command built by the library spawns a real child
//! on a real pseudo-terminal, and the child sees exactly the environment and
//! arguments the library constructed. The child's output flows back through
//! the verified output reader.

use std::io::Read;

use portable_pty::native_pty_system;
use portable_pty::PtySize;

use clawrunner::command_from_spec;
use clawrunner::EnvMap;
use clawrunner::ExecSpec;
use clawrunner::OutputReader;
use clawrunner::SessionStatus;

#[test]
fn spawned_child_sees_the_built_environment() {
    let spec = ExecSpec {
        program: "/bin/sh".to_string(),
        args: vec![
            "-c".to_string(),
            // print the injected secret, and whether HOME leaked through
            "printf '%s|%s' \"$GREETING_API_KEY\" \"${HOME:-cleared}\"".to_string(),
        ],
        cwd: None,
        env: EnvMap {
            entries: vec![
                ("GREETING_API_KEY".to_string(), "hi-from-env".to_string()),
                ("PATH".to_string(), "/usr/bin:/bin".to_string()),
            ],
        },
    };
    let cmd = command_from_spec(&spec);

    let pty = native_pty_system();
    let pair = pty
        .openpty(PtySize { rows: 24, cols: 80, pixel_width: 0, pixel_height: 0 })
        .expect("open a pseudo-terminal");
    let mut child = pair.slave.spawn_command(cmd).expect("spawn the child");
    drop(pair.slave);
    let mut pty_reader = pair.master.try_clone_reader().expect("clone the reader side");

    let mut reader = OutputReader::new(1);
    let mut text = String::new();
    let mut buf = [0u8; 8192];
    loop {
        match pty_reader.read(&mut buf) {
            Ok(0) => break,
            Ok(n) => {
                if let Some(ev) = reader.on_read(&buf[..n]) {
                    assert_eq!(ev.session_id, 1);
                    text.push_str(&String::from_utf8_lossy(&ev.bytes));
                }
            },
            Err(_) => break,
        }
    }
    let _ = child.wait();
    let (residue, status) = reader.on_close(None);
    if let Some(ev) = residue {
        text.push_str(&String::from_utf8_lossy(&ev.bytes));
    }
    assert_eq!(status.session_id, 1);
    assert!(matches!(status.status, SessionStatus::Stopped));

    // the injected secret reached the child; the test process's own HOME did
    // not, because the builder starts from an empty environment
    assert!(text.contains("hi-from-env|cleared"), "child output was: {text:?}");
}
