//! The decisions of the running application: what the welcome screen says,
//! and when the computer plays instead of waiting for a key.

use vstd::prelude::*;

use crate::ai::error::AIError;
use crate::game_core::piece::Color;
use crate::state::StateType;
use crate::state::states::welcome::WelcomeContent;
use crate::text::{
    chars_of, chars_view, replace_all, replace_chars, split_chars_on, split_str, string_of, strip_first,
    strip_first_of,
};

verus! {

/// The openings the fact section may have, tried in this order.
pub open spec fn fact_headings() -> Seq<Seq<char>> {
    seq!["Did You Know?\n"@, "**Did You Know?**\n"@]
}

/// The openings the tip section may have, tried in this order.
pub open spec fn tip_headings() -> Seq<Seq<char>> {
    seq!["Tip of the Day\n"@, "**Tip of the Day**\n"@]
}

/// The openings the challenge section may have, tried in this order.
pub open spec fn challenge_headings() -> Seq<Seq<char>> {
    seq!["Challenge\n"@, "**Challenge**\n"@, "**Today's Challenge**\n"@]
}

/// A section of the model's text without its opening and without the bold
/// markers `**`.
pub open spec fn section_text(part: Seq<char>, headings: Seq<Seq<char>>) -> Seq<char> {
    replace_all(strip_first(part, headings), "**"@, seq![])
}

/// The welcome texts shown when the model gives none.
pub open spec fn default_welcome() -> (Seq<char>, Seq<char>, Seq<char>) {
    (
        "The game of checkers has been played for thousands of years!"@,
        "Always try to control the center of the board."@,
        "Try to win a game without losing any pieces!"@,
    )
}

/// The welcome texts made of the model's text: its first three parts
/// (parted by blank lines) as the fact, the tip and the challenge, or the
/// defaults when it has fewer than three parts.
pub open spec fn welcome_from_rules(rules: Seq<char>) -> (Seq<char>, Seq<char>, Seq<char>) {
    let parts = split_str(rules, "\n\n"@);
    if parts.len() >= 3 {
        (
            section_text(parts[0], fact_headings()),
            section_text(parts[1], tip_headings()),
            section_text(parts[2], challenge_headings()),
        )
    } else {
        default_welcome()
    }
}

pub fn default_welcome_content() -> (w: WelcomeContent)
    ensures
        w@ == default_welcome(),
{
    WelcomeContent {
        did_you_know: String::from_str("The game of checkers has been played for thousands of years!"),
        tip_of_the_day: String::from_str("Always try to control the center of the board."),
        todays_challenge: String::from_str("Try to win a game without losing any pieces!"),
    }
}

fn literal_list2(a: &str, b: &str) -> (v: Vec<Vec<char>>)
    ensures
        chars_view(v@) == seq![a@, b@],
{
    let mut v: Vec<Vec<char>> = Vec::new();
    v.push(chars_of(a));
    v.push(chars_of(b));
    assert(chars_view(v@) =~= seq![a@, b@]);
    v
}

fn section_of(part: &Vec<char>, headings: &Vec<Vec<char>>) -> (s: String)
    ensures
        s@ == section_text(part@, chars_view(headings@)),
{
    let body = strip_first_of(part, headings);
    let bold = chars_of("**");
    let nothing: Vec<char> = Vec::new();
    proof {
        reveal_strlit("**");
    }
    let cleaned = replace_chars(&body, &bold, &nothing);
    assert(nothing@ =~= Seq::<char>::empty());
    string_of(&cleaned)
}

/// The welcome texts made of the model's text about checkers.
pub fn welcome_content_from_rules(rules: &str) -> (w: WelcomeContent)
    ensures
        w@ == welcome_from_rules(rules@),
{
    let chars = chars_of(rules);
    let sep = chars_of("\n\n");
    proof {
        reveal_strlit("\n\n");
    }
    let parts = split_chars_on(&chars, &sep);
    if parts.len() >= 3 {
        let facts = literal_list2("Did You Know?\n", "**Did You Know?**\n");
        let tips = literal_list2("Tip of the Day\n", "**Tip of the Day**\n");
        let mut challenges = literal_list2("Challenge\n", "**Challenge**\n");
        let ghost c2 = chars_view(challenges@);
        challenges.push(chars_of("**Today's Challenge**\n"));
        assert(chars_view(challenges@) =~= c2.push("**Today's Challenge**\n"@));
        assert(chars_view(challenges@) =~= challenge_headings());
        WelcomeContent {
            did_you_know: section_of(&parts[0], &facts),
            tip_of_the_day: section_of(&parts[1], &tips),
            todays_challenge: section_of(&parts[2], &challenges),
        }
    } else {
        default_welcome_content()
    }
}

/// The welcome texts for what the request for them gave: the model's text
/// made into sections, or the defaults when the request failed (whether for
/// want of a key or a model name, or for another reason).
pub fn welcome_content_for(result: Result<String, AIError>) -> (w: WelcomeContent)
    ensures
        match result {
            Ok(rules) => w@ == welcome_from_rules(rules@),
            Err(_) => w@ == default_welcome(),
        },
{
    match result {
        Ok(rules) => welcome_content_from_rules(rules.as_str()),
        Err(_) => default_welcome_content(),
    }
}

/// Whether the computer moves now rather than waiting for a key, as the
/// application object tests it: in the computer's turn or while the game is
/// played, and in either case with black to move.
pub open spec fn ai_moves_now(state: StateType, player: Color) -> bool {
    (state == StateType::AITurn || state == StateType::Playing) && player == Color::Black
}

pub fn should_process_ai(state: StateType, player: Color) -> (res: bool)
    ensures
        res == ai_moves_now(state, player),
{
    match state {
        StateType::AITurn | StateType::Playing => player == Color::Black,
        _ => false,
    }
}

/// Whether the game's main loop lets the computer act instead of waiting
/// for a key: in the computer's turn whoever is to move, or while the game
/// is played with black to move.
pub open spec fn loop_drives_ai(state: StateType, player: Color) -> bool {
    state == StateType::AITurn || (state == StateType::Playing && player == Color::Black)
}

pub fn ai_turn_due(state: StateType, player: Color) -> (res: bool)
    ensures
        res == loop_drives_ai(state, player),
{
    match state {
        StateType::AITurn => true,
        StateType::Playing => player == Color::Black,
        _ => false,
    }
}

/// Whether the computer asks the model for its moves: only outside test
/// mode, with both a key and a model name set, and with an async runtime
/// to make the call in.
pub fn real_ai_enabled(test_mode: bool, has_key: bool, has_model: bool, has_runtime: bool) -> (res: bool)
    ensures
        res == (!test_mode && has_key && has_model && has_runtime),
{
    !test_mode && has_key && has_model && has_runtime
}

} // verus!
