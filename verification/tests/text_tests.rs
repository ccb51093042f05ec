use vibevoice_tts_provider::tui::text::{clip_possible, preview_possible, truncate, truncate_text};

#[test]
fn short_text_is_kept() {
    assert_eq!(truncate_text("Hello, world!", 40), "Hello, world!");
}

#[test]
fn newlines_become_spaces() {
    assert_eq!(truncate_text("line one\nline two", 40), "line one line two");
}

#[test]
fn long_text_is_cut_with_dots() {
    let text = "abcdefghijklmnopqrstuvwxyz0123456789ABCDEFGHIJ";
    let shown = truncate_text(text, 40);
    assert_eq!(shown, "abcdefghijklmnopqrstuvwxyz0123456789A...");
    assert_eq!(shown.len(), 40);
}

#[test]
fn exactly_forty_bytes_is_kept() {
    let text = "a".repeat(40);
    assert_eq!(truncate_text(&text, 40), text);
}

#[test]
fn multibyte_text_on_boundary() {
    // 36 ASCII bytes, then a two-byte character ending at byte 38 > 37: cut falls inside it.
    let mut text = "a".repeat(36);
    text.push('é');
    text.push_str("bbbbbbbbbb");
    assert!(!preview_possible(&text, 40));
    // 35 ASCII bytes, then 'é' ends exactly at byte 37.
    let mut ok = "a".repeat(35);
    ok.push('é');
    ok.push_str("bbbbbbbbbb");
    assert!(preview_possible(&ok, 40));
    let shown = truncate_text(&ok, 40);
    assert_eq!(shown, format!("{}é...", "a".repeat(35)));
}

#[test]
fn column_clip_uses_ellipsis() {
    assert_eq!(truncate("primavera", 12), "primavera");
    assert_eq!(truncate("a-very-long-voice-name", 12), "a-very-long…");
    assert!(clip_possible("a-very-long-voice-name", 12));
    assert!(!clip_possible("aaaaaaaaaaéé", 12));
}

#[test]
fn previews_fit_and_hold_no_newline() {
    let texts = vec!["short".to_string(), "a\nb\nc".to_string(), "x\n".repeat(30), "é".repeat(30)];
    for t in texts.iter() {
        if preview_possible(t, 40) {
            let p = truncate_text(t, 40);
            assert!(p.len() <= 40);
            assert!(!p.contains('\n'));
        }
    }
}
