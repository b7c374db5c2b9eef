use checkers::interface::ui::TermColor;
use checkers::interface::welcome_screen::{welcome_screen_runs, wrap_text};

#[test]
fn test_wrap_text_short() {
    let text = "This is a short line.";
    let wrapped = wrap_text(text, 30);
    assert_eq!(wrapped, vec!["This is a short line."]);
}

#[test]
fn test_wrap_text_long() {
    let text = "This is a very long line that needs to be wrapped because it exceeds the maximum width.";
    let wrapped = wrap_text(text, 30);
    assert_eq!(wrapped.len(), 3);
    assert!(wrapped[0].len() <= 30);
    assert!(wrapped[1].len() <= 30);
    assert!(wrapped[2].len() <= 30);
}

#[test]
fn test_wrap_text_with_newlines() {
    let text = "First paragraph.\n\nSecond paragraph.";
    let wrapped = wrap_text(text, 30);
    assert_eq!(wrapped.len(), 3);
    assert_eq!(wrapped[0], "First paragraph.");
    assert_eq!(wrapped[1], "");
    assert_eq!(wrapped[2], "Second paragraph.");
}

#[test]
fn wrap_text_keeps_overlong_words_whole() {
    let wrapped = wrap_text("abcdefghij xy", 5);
    assert_eq!(wrapped, vec!["abcdefghij", "xy"]);
}

#[test]
fn wrap_text_counts_bytes() {
    // "é" takes two bytes: "éé éé" is nine bytes, above eight
    let wrapped = wrap_text("éé éé", 8);
    assert_eq!(wrapped, vec!["éé", "éé"]);
    let wrapped = wrap_text("éé éé", 9);
    assert_eq!(wrapped, vec!["éé éé"]);
}

#[test]
fn wrap_text_blank_paragraphs() {
    assert_eq!(wrap_text("", 10), vec![""]);
    assert_eq!(wrap_text("  \t ", 10), vec![""]);
    assert_eq!(wrap_text("a\n", 10), vec!["a", ""]);
}

#[test]
fn printed_welcome_screen() {
    let message = "Did You Know?\nKings move both ways.\n\nTip of the Day\nKeep your back row.\n\nChallenge\nWin fast.";
    let runs = welcome_screen_runs(message, 80);
    assert_eq!(runs.len(), 11);
    assert!(runs[0].text.starts_with(&format!("\n{}╔═╗╦ ╦╔═╗", " ".repeat(28))));
    assert_eq!(runs[0].color, Some(TermColor::Red));
    assert_eq!(runs[1].text, "\n");
    let fact = format!("{}│ Kings move both ways.{} │\n", " ".repeat(7), " ".repeat(61 - 21));
    assert!(runs[2].text.contains(&fact));
    assert_eq!(runs[2].color, Some(TermColor::Blue));
    assert_eq!(runs[4].text, format!("{}💡 Tip of the Day\n", " ".repeat(7)));
    assert_eq!(runs[4].color, None);
    assert_eq!(runs[5].color, Some(TermColor::Blue));
    assert_eq!(runs[6].text, format!("{}Keep your back row.\n\n", " ".repeat(7)));
    assert_eq!(runs[9].text, format!("{}Win fast.\n\n", " ".repeat(7)));
    assert_eq!(runs[10].text, format!("{}Press ENTER to begin or Q/ESC to quit...\n", " ".repeat(7)));
    assert_eq!(runs[10].color, Some(TermColor::DarkGrey));
    let narrow = welcome_screen_runs("short", 10);
    assert!(narrow[2].text.contains("│ The game of checkers has been played for thousands of years!"));
}
