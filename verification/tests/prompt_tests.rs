use microclaw::prompt::{
    base64_encode, build_system_prompt, guess_image_kind, guess_image_media_type, image_payload,
    ImageKind,
};

#[test]
fn test_build_system_prompt_basic() {
    let prompt = build_system_prompt("testbot", "", 12345, "");
    assert!(prompt.contains("testbot"));
    assert!(prompt.contains("12345"));
    assert!(prompt.contains("bash commands"));
    assert!(!prompt.contains("# Memories"));
    assert!(!prompt.contains("# Agent Skills"));
}

#[test]
fn test_build_system_prompt_with_memory() {
    let memory = "<global_memory>\nUser likes Rust\n</global_memory>";
    let prompt = build_system_prompt("testbot", memory, 42, "");
    assert!(prompt.contains("# Memories"));
    assert!(prompt.contains("User likes Rust"));
}

#[test]
fn test_build_system_prompt_with_skills() {
    let catalog = "<available_skills>\n- pdf: Convert to PDF\n</available_skills>";
    let prompt = build_system_prompt("testbot", "", 42, catalog);
    assert!(prompt.contains("# Agent Skills"));
    assert!(prompt.contains("activate_skill"));
    assert!(prompt.contains("pdf: Convert to PDF"));
}

#[test]
fn test_build_system_prompt_without_skills() {
    let prompt = build_system_prompt("testbot", "", 42, "");
    assert!(!prompt.contains("# Agent Skills"));
}

#[test]
fn test_build_system_prompt_mentions_sub_agent() {
    let prompt = build_system_prompt("testbot", "", 12345, "");
    assert!(prompt.contains("sub_agent"));
}

#[test]
fn test_build_system_prompt_mentions_xml_security() {
    let prompt = build_system_prompt("testbot", "", 12345, "");
    assert!(prompt.contains("user_message"));
    assert!(prompt.contains("untrusted"));
}

#[test]
fn test_build_system_prompt_with_memory_and_skills() {
    let memory = "<global_memory>\nTest\n</global_memory>";
    let skills = "- translate: Translate text";
    let prompt = build_system_prompt("bot", memory, 42, skills);
    assert!(prompt.contains("# Memories"));
    assert!(prompt.contains("Test"));
    assert!(prompt.contains("# Agent Skills"));
    assert!(prompt.contains("translate: Translate text"));
}

#[test]
fn test_build_system_prompt_mentions_todo() {
    let prompt = build_system_prompt("testbot", "", 12345, "");
    assert!(prompt.contains("todo_read"));
    assert!(prompt.contains("todo_write"));
}

#[test]
fn test_build_system_prompt_mentions_export() {
    let prompt = build_system_prompt("testbot", "", 12345, "");
    assert!(prompt.contains("export_chat"));
}

#[test]
fn test_build_system_prompt_mentions_schedule() {
    let prompt = build_system_prompt("testbot", "", 12345, "");
    assert!(prompt.contains("schedule_task"));
    assert!(prompt.contains("6-field cron"));
}

#[test]
fn test_build_system_prompt_exact_frame() {
    let prompt = build_system_prompt("bot", "M", -7, "S");
    assert!(prompt.starts_with(
        "You are bot, a helpful AI assistant on Telegram. You can execute tools to help users with tasks.\n\n"
    ));
    assert!(prompt.contains("The current chat_id is -7. Use this when calling send_message"));
    assert!(prompt.ends_with(
        "show the relevant results to the user.\n\n# Memories\n\nM\n# Agent Skills\n\nThe following skills are available. When a task matches a skill, use the `activate_skill` tool to load its full instructions before proceeding.\n\nS\n"
    ));
    let min = build_system_prompt("b", "", i64::MIN, "");
    assert!(min.contains("The current chat_id is -9223372036854775808."));
    let zero = build_system_prompt("b", "", 0, "");
    assert!(zero.contains("The current chat_id is 0."));
}

#[test]
fn test_guess_image_media_type_jpeg() {
    let data = vec![0xFF, 0xD8, 0xFF, 0xE0];
    assert_eq!(guess_image_media_type(&data), "image/jpeg");
}

#[test]
fn test_guess_image_media_type_png() {
    let data = vec![0x89, 0x50, 0x4E, 0x47, 0x0D, 0x0A];
    assert_eq!(guess_image_media_type(&data), "image/png");
}

#[test]
fn test_guess_image_media_type_gif() {
    let data = b"GIF89a".to_vec();
    assert_eq!(guess_image_media_type(&data), "image/gif");
}

#[test]
fn test_guess_image_media_type_webp() {
    let mut data = b"RIFF".to_vec();
    data.extend_from_slice(&[0, 0, 0, 0]);
    data.extend_from_slice(b"WEBP");
    assert_eq!(guess_image_media_type(&data), "image/webp");
}

#[test]
fn test_guess_image_media_type_unknown_defaults_jpeg() {
    let data = vec![0x00, 0x01, 0x02];
    assert_eq!(guess_image_media_type(&data), "image/jpeg");
}

#[test]
fn test_guess_image_media_type_webp_too_short() {
    let data = b"RIFF".to_vec();
    assert_eq!(guess_image_media_type(&data), "image/jpeg");
}

#[test]
fn test_guess_image_media_type_empty() {
    assert_eq!(guess_image_media_type(&[]), "image/jpeg");
}

#[test]
fn test_guess_image_kind_riff_without_webp() {
    let mut data = b"RIFF".to_vec();
    data.extend_from_slice(&[0, 0, 0, 0]);
    data.extend_from_slice(b"WAVE");
    assert_eq!(guess_image_kind(&data), ImageKind::Jpeg);
    assert_eq!(guess_image_kind(b"GI"), ImageKind::Jpeg);
}

#[test]
fn test_base64_encode() {
    let data = b"hello world";
    let encoded = base64_encode(data);
    assert_eq!(encoded, "aGVsbG8gd29ybGQ=");
}

#[test]
fn test_image_payload_encodes_and_names_type() {
    let data = vec![0x89, 0x50, 0x4E, 0x47];
    assert_eq!(
        image_payload(&data),
        Some(("iVBORw==".to_string(), "image/png".to_string()))
    );
    assert_eq!(image_payload(&[]), Some(("".to_string(), "image/jpeg".to_string())));
}
