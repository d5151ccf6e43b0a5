use lazypkg::cheatsheet::help::{cheatsheet_from_text, strip_ansi, HelpProvider};
use lazypkg::cheatsheet::tldr::TldrProvider;
use lazypkg::cheatsheet::{
    load_cheatsheet, missing_cheatsheet_message, pick_cheatsheet, CheatsheetProvider,
};
use std::cell::Cell;

#[test]
fn strip_ansi_removes_color_codes() {
    assert_eq!(strip_ansi("\x1b[1;31mError\x1b[0m: bad"), "Error: bad");
    assert_eq!(strip_ansi("plain text"), "plain text");
    assert_eq!(strip_ansi(""), "");
}

#[test]
fn strip_ansi_other_escapes_drop_one_char() {
    assert_eq!(strip_ansi("a\x1b(Bb"), "aBb");
    assert_eq!(strip_ansi("a\x1bXb"), "ab");
    assert_eq!(strip_ansi("end\x1b"), "end");
}

#[test]
fn strip_ansi_unterminated_sequence_drops_rest() {
    assert_eq!(strip_ansi("x\x1b[12;34"), "x");
}

#[test]
fn strip_ansi_is_idempotent_and_leaves_no_escape() {
    let s = "\x1b[\x1bm\x1b\x1b\x1bhello\x1b[32mworld";
    let once = strip_ansi(s);
    assert!(!once.contains('\x1b'));
    assert_eq!(strip_ansi(&once), once);
}

#[test]
fn help_text_keeps_thirty_lines() {
    let text: String = (0..40).map(|i| format!("line {}\r\n", i)).collect();
    let sheet = cheatsheet_from_text(&text).unwrap();
    let lines: Vec<&str> = sheet.split('\n').collect();
    assert_eq!(lines.len(), 30);
    assert_eq!(lines[0], "line 0");
    assert_eq!(lines[29], "line 29");
}

#[test]
fn help_text_blank_is_none() {
    assert_eq!(cheatsheet_from_text("  \n\t"), None);
    assert_eq!(cheatsheet_from_text(""), None);
}

#[test]
fn help_text_short_is_joined() {
    assert_eq!(
        cheatsheet_from_text("\x1b[1mUsage\x1b[0m: x [OPTIONS]\n\n  -h  help\n"),
        Some("Usage: x [OPTIONS]\n\n  -h  help".to_string())
    );
}

#[test]
fn help_output_prefers_stdout() {
    assert_eq!(
        HelpProvider::cheatsheet_from_output(b"out\n", b"err\n"),
        Some("out".to_string())
    );
    assert_eq!(
        HelpProvider::cheatsheet_from_output(b"", b"usage: tool\n"),
        Some("usage: tool".to_string())
    );
    assert_eq!(HelpProvider::cheatsheet_from_output(b"", b""), None);
    assert_eq!(HelpProvider::cheatsheet_from_output(b"   ", b"ignored"), None);
}

#[test]
fn tldr_is_preferred_over_help() {
    assert_eq!(
        pick_cheatsheet(Some("tldr".to_string()), Some("help".to_string())),
        Some("tldr".to_string())
    );
    assert_eq!(pick_cheatsheet(None, Some("help".to_string())), Some("help".to_string()));
    assert_eq!(pick_cheatsheet(None, None), None);
}

/// A source that always gives the same answer and counts how often it was asked.
struct Fixed {
    answer: Result<Option<String>, String>,
    asked: Cell<usize>,
}

impl Fixed {
    fn new(answer: Result<Option<&str>, &str>) -> Fixed {
        Fixed {
            answer: answer.map(|o| o.map(|s| s.to_string())).map_err(|e| e.to_string()),
            asked: Cell::new(0),
        }
    }
}

impl CheatsheetProvider for Fixed {
    fn fetch(&self, tool_name: &str) -> Result<Option<String>, String> {
        assert_eq!(tool_name, "fd");
        self.asked.set(self.asked.get() + 1);
        self.answer.clone()
    }
}

#[test]
fn help_is_asked_only_without_a_tldr_page() {
    let tldr = Fixed::new(Ok(Some("page")));
    let help = Fixed::new(Ok(Some("usage")));
    assert_eq!(load_cheatsheet(&tldr, |n: &str| help.fetch(n), "fd"), Some("page".to_string()));
    assert_eq!((tldr.asked.get(), help.asked.get()), (1, 0));

    let tldr = Fixed::new(Ok(None));
    let help = Fixed::new(Ok(Some("usage")));
    assert_eq!(load_cheatsheet(&tldr, |n: &str| help.fetch(n), "fd"), Some("usage".to_string()));
    assert_eq!((tldr.asked.get(), help.asked.get()), (1, 1));

    let tldr = Fixed::new(Err("offline"));
    let help = Fixed::new(Err("no such command"));
    assert_eq!(load_cheatsheet(&tldr, |n: &str| help.fetch(n), "fd"), None);
    assert_eq!((tldr.asked.get(), help.asked.get()), (1, 1));
}

#[test]
fn missing_cheatsheet_text() {
    assert_eq!(missing_cheatsheet_message("fd"), "No cheatsheet found for 'fd'");
}

#[test]
fn tldr_cache_and_urls() {
    let _ = TldrProvider::new();
    let _ = HelpProvider::new();
    assert_eq!(
        TldrProvider::cache_candidates("/home/u", "tar"),
        vec![
            "/home/u/.local/share/tealdeer/tldr-pages/pages/common/tar.md".to_string(),
            "/home/u/.local/share/tealdeer/tldr-pages/pages/linux/tar.md".to_string(),
            "/home/u/.cache/tealdeer/tar.md".to_string(),
        ]
    );
    assert_eq!(
        TldrProvider::github_urls("tar"),
        vec![
            "https://raw.githubusercontent.com/tldr-pages/tldr/main/pages/common/tar.md"
                .to_string(),
            "https://raw.githubusercontent.com/tldr-pages/tldr/main/pages/linux/tar.md".to_string(),
        ]
    );
}
