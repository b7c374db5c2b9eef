use checkers::markdown::style::TextColor;
use checkers::utils::markdown::elements::emphasis::Emphasis;
use checkers::utils::markdown::elements::link::Link;
use checkers::utils::markdown::style::StyleWriter;
use crossterm::style::{Color, ResetColor, SetForegroundColor};

#[test]
fn test_emphasis_render_bold() {
    let emphasis = Emphasis::new("bold text".to_string(), true);
    let mut writer = StyleWriter::new();
    emphasis.render(&mut writer);
    let result = writer.into_string();
    assert_eq!(result, format!("{}bold text{}", SetForegroundColor(Color::Green), ResetColor));
}

#[test]
fn test_emphasis_render_italic() {
    let emphasis = Emphasis::new("italic text".to_string(), false);
    let mut writer = StyleWriter::new();
    emphasis.render(&mut writer);
    let result = writer.into_string();
    assert_eq!(result, format!("{}italic text{}", SetForegroundColor(Color::Cyan), ResetColor));
}

#[test]
fn test_emphasis_render_nested() {
    let emphasis = Emphasis::new("bold *italic* text".to_string(), true);
    let mut writer = StyleWriter::new();
    emphasis.render(&mut writer);
    let result = writer.into_string();
    assert_eq!(
        result,
        format!(
            "{}bold {}italic{} text{}",
            SetForegroundColor(Color::Green),
            SetForegroundColor(Color::Cyan),
            SetForegroundColor(Color::Green),
            ResetColor
        )
    );
}

#[test]
fn test_emphasis_render_nested_bold() {
    let emphasis = Emphasis::new("italic **bold** text".to_string(), false);
    let mut writer = StyleWriter::new();
    emphasis.render(&mut writer);
    let result = writer.into_string();
    assert_eq!(
        result,
        format!(
            "{}italic {}bold{} text{}",
            SetForegroundColor(Color::Cyan),
            SetForegroundColor(Color::Green),
            SetForegroundColor(Color::Cyan),
            ResetColor
        )
    );
}

#[test]
fn test_link_render() {
    let link = Link::new("Click here".to_string(), "https://example.com".to_string());
    let mut writer = StyleWriter::new();
    link.render(&mut writer);
    let result = writer.into_string();
    assert_eq!(result, format!("{}Click here{}", SetForegroundColor(Color::Blue), ResetColor));
}

#[test]
fn test_link_with_empty_url() {
    let link = Link::new("Text only".to_string(), "".to_string());
    let mut writer = StyleWriter::new();
    link.render(&mut writer);
    let result = writer.into_string();
    assert_eq!(result, format!("{}Text only{}", SetForegroundColor(Color::Blue), ResetColor));
}

#[test]
fn test_link_with_spaces() {
    let link = Link::new("  Link with spaces  ".to_string(), "url".to_string());
    let mut writer = StyleWriter::new();
    link.render(&mut writer);
    let result = writer.into_string();
    assert_eq!(result, format!("{}  Link with spaces  {}", SetForegroundColor(Color::Blue), ResetColor));
}

#[test]
fn writer_switches_colour_only_on_change() {
    let mut writer = StyleWriter::new();
    writer.write_colored("a", TextColor::Green);
    writer.write_colored("b", TextColor::Green);
    writer.write_plain("c");
    writer.write_plain("d");
    assert_eq!(writer.into_string(), format!("{}ab{}cd", SetForegroundColor(Color::Green), ResetColor));
}

#[test]
fn emphasis_runs_split_at_markers() {
    let e = Emphasis::new("a**b**c".to_string(), false);
    let runs: Vec<(String, TextColor)> = e.runs();
    assert_eq!(runs.len(), 3);
    assert_eq!(runs[0].0, "a");
    assert_eq!(runs[0].1, TextColor::Cyan);
    assert_eq!(runs[1].0, "b");
    assert_eq!(runs[1].1, TextColor::Green);
    assert_eq!(runs[2].0, "c");
    assert_eq!(runs[2].1, TextColor::Cyan);
}

#[test]
fn empty_nested_run_still_switches_colour() {
    let emphasis = Emphasis::new("x**".to_string(), false);
    let mut writer = StyleWriter::new();
    emphasis.render(&mut writer);
    assert_eq!(
        writer.into_string(),
        format!("{}x{}{}", SetForegroundColor(Color::Cyan), SetForegroundColor(Color::Green), ResetColor)
    );
}
