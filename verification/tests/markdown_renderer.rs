use checkers::markdown_renderer::MarkdownRenderer;
use crossterm::style::{Color, ResetColor, SetForegroundColor};

fn fg(c: Color) -> String {
    format!("{}", SetForegroundColor(c))
}

fn reset() -> String {
    format!("{}", ResetColor)
}

#[test]
fn heading_in_capitals() {
    let mut r = MarkdownRenderer::new();
    let out = r.render("# Hello **world**");
    assert_eq!(out, format!("{}HELLO WORLD\n{}", fg(Color::Magenta), reset()));
}

#[test]
fn deeper_heading_is_indented() {
    let mut r = MarkdownRenderer::new();
    let out = r.render("### Deep\nnext");
    assert_eq!(out, format!("{}  DEEP\n{}next", fg(Color::Magenta), reset()));
}

#[test]
fn list_item_with_bold() {
    let mut r = MarkdownRenderer::new();
    let out = r.render("- item **b**\n");
    let g = fg(Color::Green);
    assert_eq!(out, format!("• item {}{}b{}{}\n", g, g, reset(), reset()));
}

#[test]
fn plus_item_gets_its_prefix() {
    let mut r = MarkdownRenderer::new();
    assert_eq!(r.render("+ x"), "• Third with x\n");
}

#[test]
fn inline_code_and_links() {
    let mut r = MarkdownRenderer::new();
    assert_eq!(r.render("`code`"), format!("{}code{}", fg(Color::Green), reset()));
    assert_eq!(r.render("[a](u)"), format!("{}a{}", fg(Color::Blue), reset()));
    assert_eq!(r.render("[a] x"), "[a] x");
}

#[test]
fn italic_runs_to_a_double_star() {
    let mut r = MarkdownRenderer::new();
    let c = fg(Color::Cyan);
    assert_eq!(r.render("*it* x"), format!("{}{}it x{}{}", c, c, reset(), reset()));
}

#[test]
fn fenced_block() {
    let mut r = MarkdownRenderer::new();
    assert_eq!(r.render("```\nfn\n```"), format!("\n{}fn{}\n", fg(Color::Yellow), reset()));
}

#[test]
fn plain_text_passes_through() {
    let mut r = MarkdownRenderer::new();
    assert_eq!(r.render("plain words\nand more"), "plain words\nand more");
    assert_eq!(r.render(""), "");
}
