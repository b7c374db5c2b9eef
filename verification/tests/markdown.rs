use checkers::markdown::parser::{
    CodeBlockParser, EmphasisParser, HeaderParser, LinkParser, ListItemParser, MarkdownRenderer,
};
use checkers::markdown::style::StyleWriter;
use checkers::markdown::{CodeBlock, Header, Link, ListItem};
use crossterm::style::{Color, ResetColor, SetForegroundColor};

fn strip_color_codes(s: &str) -> String {
    let without_reset = s.replace(&format!("{}", ResetColor), "");
    without_reset
        .replace(&format!("{}", SetForegroundColor(Color::Magenta)), "")
        .replace(&format!("{}", SetForegroundColor(Color::White)), "")
        .replace(&format!("{}", SetForegroundColor(Color::Cyan)), "")
        .replace(&format!("{}", SetForegroundColor(Color::Yellow)), "")
        .replace(&format!("{}", SetForegroundColor(Color::Green)), "")
        .replace(&format!("{}", SetForegroundColor(Color::Blue)), "")
}

fn chars(s: &str) -> Vec<char> {
    s.chars().collect()
}

#[test]
fn test_inline_code() {
    let code = CodeBlock::new_inline("let x = 42;".to_string());
    let mut writer = StyleWriter::new();
    code.render(&mut writer);
    let result = writer.into_string();
    assert_eq!(result, format!("{}let x = 42;{}", SetForegroundColor(Color::Green), ResetColor));
}

#[test]
fn test_block_code() {
    let code = CodeBlock::new_block("fn main() {\n    println!(\"Hello\");\n}".to_string());
    let mut writer = StyleWriter::new();
    code.render(&mut writer);
    let result = writer.into_string();
    assert_eq!(
        result,
        format!(
            "\n{}fn main() {{\n    println!(\"Hello\");\n}}{}\n",
            SetForegroundColor(Color::Yellow),
            ResetColor
        )
    );
}

#[test]
fn test_block_code_with_whitespace() {
    let code = CodeBlock::new_block("\n  code with spaces  \n".to_string());
    let mut writer = StyleWriter::new();
    code.render(&mut writer);
    let result = writer.into_string();
    assert_eq!(result, format!("\n{}code with spaces{}\n", SetForegroundColor(Color::Yellow), ResetColor));
}

#[test]
fn test_empty_code_block() {
    let code = CodeBlock::new_block("".to_string());
    let mut writer = StyleWriter::new();
    code.render(&mut writer);
    let result = writer.into_string();
    assert_eq!(result, format!("\n{}{}\n", SetForegroundColor(Color::Yellow), ResetColor));
}

#[test]
fn test_plain_list_item() {
    let item = ListItem::new("Plain item".to_string());
    let mut writer = StyleWriter::new();
    item.render(&mut writer);
    let result = writer.into_string();
    assert_eq!(result, format!("{}Plain item{}\n", SetForegroundColor(Color::White), ResetColor));
}

#[test]
fn test_bold_list_item() {
    let item = ListItem::with_formatting("Bold item".to_string(), true, false);
    let mut writer = StyleWriter::new();
    item.render(&mut writer);
    let result = writer.into_string();
    assert_eq!(result, format!("{}Bold item{}\n", SetForegroundColor(Color::Green), ResetColor));
}

#[test]
fn test_italic_list_item() {
    let item = ListItem::with_formatting("Italic item".to_string(), false, true);
    let mut writer = StyleWriter::new();
    item.render(&mut writer);
    let result = writer.into_string();
    assert_eq!(result, format!("{}Italic item{}\n", SetForegroundColor(Color::Cyan), ResetColor));
}

#[test]
fn test_bold_and_italic_list_item() {
    let item = ListItem::with_formatting("Bold and italic".to_string(), true, true);
    let mut writer = StyleWriter::new();
    item.render(&mut writer);
    let result = writer.into_string();
    assert_eq!(result, format!("{}Bold and italic{}\n", SetForegroundColor(Color::Green), ResetColor));
}

#[test]
fn test_list_item_with_whitespace() {
    let item = ListItem::new("  Item with spaces  ".to_string());
    let mut writer = StyleWriter::new();
    item.render(&mut writer);
    let result = writer.into_string();
    assert_eq!(result, format!("{}  Item with spaces  {}\n", SetForegroundColor(Color::White), ResetColor));
}

#[test]
fn test_header_parser() {
    let parser = HeaderParser;
    let input = chars("# Header 1\n");
    let (element, _) = parser.try_parse(&input, 0);
    let element = element.unwrap();
    let mut writer = StyleWriter::new();
    element.render(&mut writer);
    let result = strip_color_codes(&writer.into_string());
    assert_eq!(result, "HEADER 1\n");
}

#[test]
fn test_list_item_parser() {
    let parser = ListItemParser;
    let input = chars("- Simple list item\n");
    let (element, _) = parser.try_parse(&input, 0);
    let element = element.unwrap();
    let mut writer = StyleWriter::new();
    element.render(&mut writer);
    let result = strip_color_codes(&writer.into_string());
    assert_eq!(result, "Simple list item\n");
}

#[test]
fn test_code_block_parser_inline() {
    let parser = CodeBlockParser;
    let input = chars("`inline code`");
    let (element, _) = parser.try_parse(&input, 0);
    let element = element.unwrap();
    let mut writer = StyleWriter::new();
    element.render(&mut writer);
    let result = strip_color_codes(&writer.into_string());
    assert_eq!(result, "inline code");
}

#[test]
fn test_code_block_parser_block() {
    let parser = CodeBlockParser;
    let input = chars("```\ncode block\n```");
    let (element, _) = parser.try_parse(&input, 0);
    let element = element.unwrap();
    let mut writer = StyleWriter::new();
    element.render(&mut writer);
    let result = strip_color_codes(&writer.into_string());
    assert_eq!(result, "\ncode block\n");
}

#[test]
fn test_link_parser() {
    let parser = LinkParser;
    let input = chars("[link text](https://example.com)");
    let (element, _) = parser.try_parse(&input, 0);
    let element = element.unwrap();
    let mut writer = StyleWriter::new();
    element.render(&mut writer);
    let result = strip_color_codes(&writer.into_string());
    assert_eq!(result, "link text");
}

#[test]
fn test_emphasis_parser_bold() {
    let parser = EmphasisParser;
    let input = chars("**bold text**");
    let (element, _) = parser.try_parse(&input, 0);
    let element = element.unwrap();
    let mut writer = StyleWriter::new();
    element.render(&mut writer);
    let result = strip_color_codes(&writer.into_string());
    assert_eq!(result, "bold text");
}

#[test]
fn test_emphasis_parser_italic() {
    let parser = EmphasisParser;
    let input = chars("*italic text*");
    let (element, _) = parser.try_parse(&input, 0);
    let element = element.unwrap();
    let mut writer = StyleWriter::new();
    element.render(&mut writer);
    let result = strip_color_codes(&writer.into_string());
    assert_eq!(result, "italic text");
}

#[test]
fn test_markdown_renderer_mixed() {
    let mut renderer = MarkdownRenderer::new();
    let markdown =
        "# Title\n\n**Bold** and *italic* and `code`\n\n```\ncode block\n```\n\n- List item\n[Link](url)";
    let result = strip_color_codes(&renderer.render(markdown));
    assert!(result.contains("TITLE"));
    assert!(result.contains("Bold"));
    assert!(result.contains("italic"));
    assert!(result.contains("code"));
    assert!(result.contains("code block"));
    assert!(result.contains("List item"));
    assert!(result.contains("Link"));
    assert!(!result.contains("url"));
}

#[test]
fn test_markdown_renderer_nested_formatting() {
    let mut renderer = MarkdownRenderer::new();
    let markdown = "- List with **bold** and *italic*\n";
    let result = strip_color_codes(&renderer.render(markdown));
    assert!(result.contains("List with bold and italic"));
    assert!(!result.contains('*'));
    assert!(!result.contains('-'));
}

#[test]
fn test_markdown_renderer_empty() {
    let mut renderer = MarkdownRenderer::new();
    let result = renderer.render("");
    assert_eq!(strip_color_codes(&result), "");
}

#[test]
fn test_markdown_renderer_plain_text() {
    let mut renderer = MarkdownRenderer::new();
    let markdown = "Just some plain text\nwith a newline";
    let result = strip_color_codes(&renderer.render(markdown));
    assert_eq!(result, "Just some plain text\nwith a newline");
}

#[test]
fn header_levels_are_indented() {
    let header = Header::new(3, "  deep  ".to_string());
    let mut writer = StyleWriter::new();
    header.render(&mut writer);
    assert_eq!(
        writer.into_string(),
        format!("{}    DEEP{}\n", SetForegroundColor(Color::Magenta), ResetColor)
    );
    let top = Header::new(1, "top".to_string());
    let mut writer = StyleWriter::new();
    top.render(&mut writer);
    assert_eq!(writer.into_string(), format!("{}TOP{}\n", SetForegroundColor(Color::Magenta), ResetColor));
    let past = Header::new(9, "x".to_string());
    let mut writer = StyleWriter::new();
    past.render(&mut writer);
    assert_eq!(writer.into_string(), format!("{}X{}\n", SetForegroundColor(Color::Magenta), ResetColor));
}

#[test]
fn link_writes_text_only() {
    let link = Link::new("docs".to_string(), "https://example.com".to_string());
    let mut writer = StyleWriter::new();
    link.render(&mut writer);
    assert_eq!(writer.into_string(), format!("{}docs{}", SetForegroundColor(Color::Blue), ResetColor));
}

#[test]
fn lone_dash_is_passed_over_by_list_reader() {
    let input = chars("-x");
    let (element, next) = ListItemParser.try_parse(&input, 0);
    assert!(element.is_none());
    assert_eq!(next, 1);
}

#[test]
fn two_backticks_are_passed_over_by_code_reader() {
    let input = chars("``x");
    let (element, next) = CodeBlockParser.try_parse(&input, 0);
    assert!(element.is_none());
    assert_eq!(next, 2);
}

#[test]
fn list_item_reader_records_markers() {
    let input = chars("- **a** *b*\nrest");
    let (element, next) = ListItemParser.try_parse(&input, 0);
    assert!(element.is_some());
    assert_eq!(next, 12);
    let mut writer = StyleWriter::new();
    element.unwrap().render(&mut writer);
    assert_eq!(writer.into_string(), format!("{}a b{}\n", SetForegroundColor(Color::White), ResetColor));
}

#[test]
fn renderer_keeps_earlier_output() {
    let mut renderer = MarkdownRenderer::new();
    let first = renderer.render("a");
    assert_eq!(first, "a");
    let second = renderer.render("b");
    assert_eq!(second, "ab");
}

#[test]
fn renderer_writes_the_peeked_character_after_a_lone_dash() {
    let mut renderer = MarkdownRenderer::new();
    assert_eq!(renderer.render("-x"), "-");
}

#[test]
fn link_without_address() {
    let input = chars("[only]");
    let (element, next) = LinkParser.try_parse(&input, 0);
    assert_eq!(next, 6);
    let mut writer = StyleWriter::new();
    element.unwrap().render(&mut writer);
    assert_eq!(writer.into_string(), format!("{}only{}", SetForegroundColor(Color::Blue), ResetColor));
}
