use podping_tray::config::{
    default_announce, default_buffer, default_endorse, default_sse_enabled, default_sse_port, Paths,
    Settings, MAX_PEER_ANNOUNCE_INTERVAL, MAX_PEER_ENDORSE_INTERVAL, MAX_SSE_BUFFER_SIZE, MAX_SSE_PORT,
    MIN_PEER_ANNOUNCE_INTERVAL, MIN_PEER_ENDORSE_INTERVAL, MIN_SSE_BUFFER_SIZE, MIN_SSE_PORT,
    TRUST_FILE_TEXT,
};
use std::path::{Path, MAIN_SEPARATOR};

fn paths() -> Paths {
    Paths::resolve('/')
}

#[test]
fn defaults() {
    let s = Settings::default();
    assert!(s.sse_enabled && default_sse_enabled());
    assert_eq!((s.sse_port, default_sse_port()), (8089, 8089));
    assert_eq!((s.peer_announce_interval, default_announce()), (300, 300));
    assert_eq!((s.peer_endorse_interval, default_endorse()), (45, 45));
    assert_eq!((s.sse_buffer_size, default_buffer()), (1000, 1000));
    assert_eq!(s.node_friendly_name, "");
    assert_eq!(s.watcher_exe, "");
    assert_eq!(s.bootstrap_peer_ids, "");
    assert!(!s.archive_enabled && !s.catchup_enabled && !s.trace_to_file && !s.start_with_windows);
    assert_eq!(s.validate(false), Vec::<String>::new());
}

#[test]
fn loading_falls_back_to_the_defaults() {
    assert_eq!(Settings::load_or_default(None), Settings::default());
    let mut s = Settings::default();
    s.sse_port = 1;
    assert_eq!(Settings::load_or_default(Some(s.clone())), s);
}

#[test]
fn every_complaint_in_order() {
    let mut s = Settings::default();
    s.sse_port = 0;
    s.watcher_exe = "  C:\\no such.exe ".to_string();
    s.node_friendly_name = "x".repeat(65);
    assert_eq!(
        s.validate(false),
        vec![
            "SSE port must be non-zero".to_string(),
            "Watcher executable not found: C:\\no such.exe".to_string(),
            "Node name will be truncated to 64 characters".to_string(),
        ]
    );
    assert_eq!(s.validate(true).len(), 2);
    s.sse_enabled = false;
    s.node_friendly_name = "x".repeat(64);
    assert_eq!(s.validate(true), Vec::<String>::new());
}

#[test]
fn name_length_counts_bytes() {
    let mut s = Settings::default();
    s.node_friendly_name = "é".repeat(32);
    assert_eq!(s.validate(false), Vec::<String>::new());
    s.node_friendly_name = "é".repeat(33);
    assert_eq!(s.validate(false).len(), 1);
}

#[test]
fn environment_of_the_defaults() {
    let env = Settings::default().to_env(&paths());
    let data = "PodpingGossipWatcher/data";
    let expected = [
        ("SSE_ENABLED", "true".to_string()),
        ("SSE_BIND_ADDR", "127.0.0.1:8089".to_string()),
        ("SSE_BUFFER_SIZE", "1000".to_string()),
        ("IROH_NODE_KEY_FILE", format!("{}/node.key", data)),
        ("KNOWN_PEERS_FILE", format!("{}/known_peers.txt", data)),
        ("TRUSTED_PUBLISHERS_FILE", format!("{}/trusted_publishers.txt", data)),
        ("TRUSTED_MONITORS_FILE", format!("{}/trusted_monitors.txt", data)),
        ("ARCHIVE_PATH", format!("{}/listener_archive.db", data)),
        ("ARCHIVE_ENABLED", "false".to_string()),
        ("CATCHUP_ENABLED", "false".to_string()),
        ("PEER_ANNOUNCE_INTERVAL", "300".to_string()),
        ("PEER_ENDORSE_INTERVAL", "45".to_string()),
    ];
    assert_eq!(env.len(), expected.len());
    for (name, value) in expected {
        assert_eq!(env.get(name), Some(&value), "{}", name);
    }
}

#[test]
fn environment_of_optional_settings() {
    let mut s = Settings::default();
    s.sse_enabled = false;
    s.archive_enabled = true;
    s.catchup_enabled = true;
    s.node_friendly_name = " my node\n".to_string();
    s.bootstrap_peer_ids = "\ta,b ".to_string();
    s.trace_to_file = true;
    let env = s.to_env(&paths());
    assert_eq!(env.get("SSE_ENABLED"), Some(&"false".to_string()));
    assert_eq!(env.get("SSE_BIND_ADDR"), None);
    assert_eq!(env.get("SSE_BUFFER_SIZE"), None);
    assert_eq!(env.get("ARCHIVE_ENABLED"), Some(&"true".to_string()));
    assert_eq!(env.get("CATCHUP_ENABLED"), Some(&"true".to_string()));
    assert_eq!(env.get("NODE_FRIENDLY_NAME"), Some(&"my node".to_string()));
    assert_eq!(env.get("BOOTSTRAP_PEER_IDS"), Some(&"a,b".to_string()));
    assert_eq!(env.get("TRACE_FILE"), Some(&paths().trace_log));
    assert_eq!(env.len(), 13);
    s.node_friendly_name = " \t".to_string();
    s.bootstrap_peer_ids = "\n".to_string();
    s.trace_to_file = false;
    assert_eq!(s.to_env(&paths()).len(), 10);
}

#[test]
fn paths_in_the_configuration_directory() {
    let p = Paths::resolve('\\');
    assert_eq!(p.root, "PodpingGossipWatcher");
    assert_eq!(p.data, "PodpingGossipWatcher\\data");
    assert_eq!(p.settings_file, "PodpingGossipWatcher\\settings.toml");
    assert_eq!(p.node_key, "PodpingGossipWatcher\\data\\node.key");
    assert_eq!(p.known_peers, "PodpingGossipWatcher\\data\\known_peers.txt");
    assert_eq!(p.trusted_publishers, "PodpingGossipWatcher\\data\\trusted_publishers.txt");
    assert_eq!(p.trusted_monitors, "PodpingGossipWatcher\\data\\trusted_monitors.txt");
    assert_eq!(p.archive_db, "PodpingGossipWatcher\\data\\listener_archive.db");
    assert_eq!(p.trace_log, "PodpingGossipWatcher\\data\\trace.log");
}

#[test]
fn paths_are_those_that_std_joins() {
    let p = Paths::resolve(MAIN_SEPARATOR);
    let root = Path::new("PodpingGossipWatcher");
    let data = root.join("data");
    assert_eq!(Path::new(&p.root), root);
    assert_eq!(Path::new(&p.data), data);
    for base in ["", "/home/me/.config", "/trailing/", "relative"] {
        let base = Path::new(base);
        assert_eq!(base.join(&p.settings_file), base.join(root).join("settings.toml"));
        assert_eq!(base.join(&p.node_key), base.join(&data).join("node.key"));
        assert_eq!(
            base.join(&p.trace_log).to_string_lossy(),
            base.join(root).join("data").join("trace.log").to_string_lossy()
        );
    }
}

#[test]
fn files_do_not_collide() {
    let p = paths();
    let files = [
        &p.settings_file,
        &p.node_key,
        &p.known_peers,
        &p.trusted_publishers,
        &p.trusted_monitors,
        &p.archive_db,
        &p.trace_log,
    ];
    for i in 0..files.len() {
        for j in 0..i {
            assert_ne!(files[i], files[j]);
        }
    }
}

#[test]
fn missing_trust_files_are_created() {
    let p = paths();
    let publishers = p.trusted_publishers.clone();
    let monitors = p.trusted_monitors.clone();
    assert_eq!(p.ensure_trust_files(true, true), Vec::<String>::new());
    assert_eq!(p.ensure_trust_files(false, true), vec![publishers.clone()]);
    assert_eq!(p.ensure_trust_files(true, false), vec![monitors.clone()]);
    assert_eq!(p.ensure_trust_files(false, false), vec![publishers, monitors]);
    assert_eq!(TRUST_FILE_TEXT, "# One ed25519 hex pubkey per line\n");
}

#[test]
fn form_holds_the_defaults() {
    let s = Settings::default();
    assert!((MIN_SSE_PORT..=MAX_SSE_PORT).contains(&s.sse_port));
    assert!((MIN_SSE_BUFFER_SIZE..=MAX_SSE_BUFFER_SIZE).contains(&s.sse_buffer_size));
    let announce = MIN_PEER_ANNOUNCE_INTERVAL..=MAX_PEER_ANNOUNCE_INTERVAL;
    assert!(announce.contains(&s.peer_announce_interval));
    let endorse = MIN_PEER_ENDORSE_INTERVAL..=MAX_PEER_ENDORSE_INTERVAL;
    assert!(endorse.contains(&s.peer_endorse_interval));
    assert_eq!((MIN_SSE_PORT, MAX_SSE_PORT), (1, 65535));
    assert_eq!((MIN_SSE_BUFFER_SIZE, MAX_SSE_BUFFER_SIZE), (16, 100_000));
    assert_eq!(announce, 0..=86400);
    assert_eq!(endorse, 1..=86400);
}
