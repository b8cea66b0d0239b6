use clay::modes::InputContext;
use clay::output::OutputBuffer;
use clay::project::{detect_project_type, get_default_pnpm_config, get_default_rust_config, ProjectType};

#[test]
fn drains_hand_out_each_byte_once_in_order() {
    let mut b = OutputBuffer::new();
    assert_eq!(b.drain(), None);
    let sent: Vec<u8> = (0..=255u8).chain(b"echo hello\n".iter().copied()).collect();
    let mut received: Vec<u8> = Vec::new();
    for (i, chunk) in sent.chunks(7).enumerate() {
        b.append(chunk);
        if i % 3 == 0 {
            if let Some(out) = b.drain() {
                received.extend(out);
            }
        }
    }
    if let Some(out) = b.drain() {
        received.extend(out);
    }
    assert!(b.is_empty());
    assert_eq!(b.drain(), None);
    assert_eq!(received, sent);
}

#[test]
fn default_project_scripts() {
    let rust = get_default_rust_config();
    assert_eq!(rust.scripts.len(), 8);
    assert_eq!(rust.script(&"install".to_string()), Some(&"cargo install --path .".to_string()));
    assert_eq!(rust.script(&"dev".to_string()), Some(&"cargo run".to_string()));
    let pnpm = get_default_pnpm_config();
    assert_eq!(pnpm.script(&"lint".to_string()), Some(&"pnpm lint".to_string()));
    assert_eq!(pnpm.script(&"missing".to_string()), None);
}

#[test]
fn project_type_prefers_cargo() {
    assert_eq!(detect_project_type(true, true), ProjectType::Rust);
    assert_eq!(detect_project_type(false, true), ProjectType::Pnpm);
    assert_eq!(detect_project_type(false, false), ProjectType::Unknown);
}

#[test]
fn input_contexts_name_their_scripts() {
    assert_eq!(InputContext::AddPackage.script(), ("add", "Adding dependencies"));
    assert_eq!(InputContext::CommitMessage.script(), ("commit", "Committing"));
}
