use vstd::prelude::*;
use vstd::string::{StrSliceExecFns, StringExecFns};
use crate::text::push_char;

pub mod logging;

use self::logging::{CommonLogger, Level};

verus! {

/// The colours that a message may ask for by name.
#[derive(Debug, PartialEq, Eq, Clone, Copy)]
pub enum ConsoleColor {
    Blue,
    Green,
    Red,
    Yellow,
    White,
    Cyan,
    Magenta,
    BrightBlue,
    BrightGreen,
    BrightRed,
    BrightYellow,
    BrightWhite,
    BrightCyan,
    BrightMagenta,
    /// The terminal's own colour.
    Reset,
}

/// One thing to do on the console.
#[derive(Debug, PartialEq, Eq, Clone, Copy)]
pub enum ConsoleAction {
    /// Write the character.
    Write(char),
    /// Write what follows in the colour.
    SetColor(ConsoleColor),
}

/// The colour that a name stands for, if it stands for one.
pub open spec fn color_named(name: Seq<char>) -> Option<ConsoleColor> {
    if name == "BLUE"@ { Some(ConsoleColor::Blue) }
    else if name == "GREEN"@ { Some(ConsoleColor::Green) }
    else if name == "RED"@ { Some(ConsoleColor::Red) }
    else if name == "YELLOW"@ { Some(ConsoleColor::Yellow) }
    else if name == "WHITE"@ { Some(ConsoleColor::White) }
    else if name == "CYAN"@ { Some(ConsoleColor::Cyan) }
    else if name == "MAGENTA"@ { Some(ConsoleColor::Magenta) }
    else if name == "BRIGHT_BLUE"@ { Some(ConsoleColor::BrightBlue) }
    else if name == "BRIGHT_GREEN"@ { Some(ConsoleColor::BrightGreen) }
    else if name == "BRIGHT_RED"@ { Some(ConsoleColor::BrightRed) }
    else if name == "BRIGHT_YELLOW"@ { Some(ConsoleColor::BrightYellow) }
    else if name == "BRIGHT_WHITE"@ { Some(ConsoleColor::BrightWhite) }
    else if name == "BRIGHT_CYAN"@ { Some(ConsoleColor::BrightCyan) }
    else if name == "BRIGHT_MAGENTA"@ { Some(ConsoleColor::BrightMagenta) }
    else if name == "DEFAULT"@ { Some(ConsoleColor::Reset) }
    else { None }
}

/// Where the reading of a message stands: whether it is in text or in a colour token, the
/// token read so far, whether a named colour was set, and what is to be done so far.
pub struct RenderState {
    pub reading_text: bool,
    pub color: Seq<char>,
    pub changed_color: bool,
    pub actions: Seq<ConsoleAction>,
}

/// Before the first character.
pub open spec fn render_start() -> RenderState {
    RenderState { reading_text: true, color: seq![], changed_color: false, actions: seq![] }
}

/// Reads one character. An escape character opens or closes a colour token and is kept in
/// it; when it closes a token, the colour that the whole token names is set, or the
/// terminal's own colour when it names none. Other characters are written in text and kept
/// in a token.
pub open spec fn render_step(state: RenderState, c: char) -> RenderState {
    if c == '\u{1b}' {
        let token = state.color.push(c);
        if !state.reading_text {
            let named = color_named(token);
            RenderState {
                reading_text: true,
                color: seq![],
                changed_color: state.changed_color || named is Some,
                actions: state.actions.push(ConsoleAction::SetColor(
                    match named {
                        Some(color) => color,
                        None => ConsoleColor::Reset,
                    },
                )),
            }
        } else {
            RenderState { reading_text: false, color: token, ..state }
        }
    } else if state.reading_text {
        RenderState { actions: state.actions.push(ConsoleAction::Write(c)), ..state }
    } else {
        RenderState { color: state.color.push(c), ..state }
    }
}

/// The state after reading all of `message`.
pub open spec fn render_run(message: Seq<char>) -> RenderState
    decreases message.len(),
{
    if message.len() == 0 {
        render_start()
    } else {
        render_step(render_run(message.drop_last()), message.last())
    }
}

/// What is done on the console for `message`: the actions of the reading, then a return to
/// the terminal's own colour if a named colour was set.
pub open spec fn render(message: Seq<char>) -> Seq<ConsoleAction> {
    let state = render_run(message);
    if state.changed_color {
        state.actions.push(ConsoleAction::SetColor(ConsoleColor::Reset))
    } else {
        state.actions
    }
}

/// The colour that `name` stands for, if it stands for one.
fn color_for(name: &String) -> (color: Option<ConsoleColor>)
    ensures
        color == color_named(name@),
{
    if *name == String::from_str("BLUE") { Some(ConsoleColor::Blue) }
    else if *name == String::from_str("GREEN") { Some(ConsoleColor::Green) }
    else if *name == String::from_str("RED") { Some(ConsoleColor::Red) }
    else if *name == String::from_str("YELLOW") { Some(ConsoleColor::Yellow) }
    else if *name == String::from_str("WHITE") { Some(ConsoleColor::White) }
    else if *name == String::from_str("CYAN") { Some(ConsoleColor::Cyan) }
    else if *name == String::from_str("MAGENTA") { Some(ConsoleColor::Magenta) }
    else if *name == String::from_str("BRIGHT_BLUE") { Some(ConsoleColor::BrightBlue) }
    else if *name == String::from_str("BRIGHT_GREEN") { Some(ConsoleColor::BrightGreen) }
    else if *name == String::from_str("BRIGHT_RED") { Some(ConsoleColor::BrightRed) }
    else if *name == String::from_str("BRIGHT_YELLOW") { Some(ConsoleColor::BrightYellow) }
    else if *name == String::from_str("BRIGHT_WHITE") { Some(ConsoleColor::BrightWhite) }
    else if *name == String::from_str("BRIGHT_CYAN") { Some(ConsoleColor::BrightCyan) }
    else if *name == String::from_str("BRIGHT_MAGENTA") { Some(ConsoleColor::BrightMagenta) }
    else if *name == String::from_str("DEFAULT") { Some(ConsoleColor::Reset) }
    else { None }
}

/// A logger that writes to the console, with colours named in the messages.
pub struct ConsoleLogger {
    common_logger: CommonLogger,
}

impl ConsoleLogger {
    /// The level the logger was made with.
    pub closed spec fn spec_log_level(&self) -> Level {
        self.common_logger.spec_log_level()
    }

    pub fn new(level: Level) -> (logger: Self)
        ensures
            logger.spec_log_level() == level,
    {
        ConsoleLogger { common_logger: CommonLogger::new(level) }
    }

    /// The logger that this console logger is built on.
    pub fn common_logger(&self) -> (logger: &CommonLogger)
        ensures
            logger.spec_log_level() == self.spec_log_level(),
    {
        &self.common_logger
    }

    /// What is done on the console to write `message`: each character of text is written, and
    /// each colour token, a name between two escape characters, sets the colour it names.
    pub fn do_log_string(&self, message: &str) -> (actions: Vec<ConsoleAction>)
        ensures
            actions@ == render(message@),
    {
        let n = message.unicode_len();
        let mut reading_text = true;
        let mut changed_color = false;
        let mut color = String::new();
        let mut actions: Vec<ConsoleAction> = Vec::new();
        let mut i: usize = 0;
        while i < n
            invariant
                i <= n,
                n == message@.len(),
                render_run(message@.take(i as int)) == (RenderState {
                    reading_text,
                    color: color@,
                    changed_color,
                    actions: actions@,
                }),
            decreases n - i,
        {
            let c = message.get_char(i);
            assert(message@.take(i + 1).drop_last() =~= message@.take(i as int));
            assert(message@.take(i + 1).last() == c);
            if c == '\u{1b}' {
                reading_text = !reading_text;
                push_char(&mut color, c);
                if reading_text {
                    match color_for(&color) {
                        Some(named) => {
                            actions.push(ConsoleAction::SetColor(named));
                            changed_color = true;
                        },
                        None => {
                            actions.push(ConsoleAction::SetColor(ConsoleColor::Reset));
                        },
                    }
                    color = String::new();
                }
            } else if reading_text {
                actions.push(ConsoleAction::Write(c));
            } else {
                push_char(&mut color, c);
            }
            i = i + 1;
        }
        assert(message@.take(n as int) =~= message@);
        if changed_color {
            actions.push(ConsoleAction::SetColor(ConsoleColor::Reset));
        }
        actions
    }
}

/// Each character of `message` written, in order.
pub open spec fn text_writes(message: Seq<char>) -> Seq<ConsoleAction>
    decreases message.len(),
{
    if message.len() == 0 {
        seq![]
    } else {
        text_writes(message.drop_last()).push(ConsoleAction::Write(message.last()))
    }
}

/// The reading of a message without escape characters: still in text, with no token and no
/// colour set, and each character written in order.
proof fn lemma_render_run_plain(message: Seq<char>)
    requires
        forall|i: int| 0 <= i < message.len() ==> message[i] != '\u{1b}',
    ensures
        render_run(message) == (RenderState {
            reading_text: true,
            color: seq![],
            changed_color: false,
            actions: text_writes(message),
        }),
    decreases message.len(),
{
    if message.len() > 0 {
        lemma_render_run_plain(message.drop_last());
    }
}

/// A message without escape characters is written character by character, in order, and the
/// colour is never changed.
pub proof fn law_plain_text_is_written_as_is(message: Seq<char>)
    requires
        forall|i: int| 0 <= i < message.len() ==> message[i] != '\u{1b}',
    ensures
        render(message) == text_writes(message),
{
    lemma_render_run_plain(message);
}

/// No colour's name starts with an escape character.
proof fn lemma_escaped_token_names_nothing(token: Seq<char>)
    requires
        token.len() > 0,
        token[0] == '\u{1b}',
    ensures
        color_named(token) is None,
{
    reveal_strlit("BLUE");
    reveal_strlit("GREEN");
    reveal_strlit("RED");
    reveal_strlit("YELLOW");
    reveal_strlit("WHITE");
    reveal_strlit("CYAN");
    reveal_strlit("MAGENTA");
    reveal_strlit("BRIGHT_BLUE");
    reveal_strlit("BRIGHT_GREEN");
    reveal_strlit("BRIGHT_RED");
    reveal_strlit("BRIGHT_YELLOW");
    reveal_strlit("BRIGHT_WHITE");
    reveal_strlit("BRIGHT_CYAN");
    reveal_strlit("BRIGHT_MAGENTA");
    reveal_strlit("DEFAULT");
}

/// What the reading keeps true: no token is open while reading text, an open token starts with the
/// escape character that opened it, no named colour has been set, and every colour set so far is
/// the terminal's own.
spec fn resets_only(state: RenderState) -> bool {
    &&& state.reading_text ==> state.color.len() == 0
    &&& !state.reading_text ==> state.color.len() > 0 && state.color[0] == '\u{1b}'
    &&& !state.changed_color
    &&& forall|k: int| 0 <= k < state.actions.len() && (#[trigger] state.actions[k] is SetColor)
            ==> state.actions[k] == ConsoleAction::SetColor(ConsoleColor::Reset)
}

/// Reading one more character keeps `resets_only`.
proof fn lemma_step_resets_only(state: RenderState, c: char)
    requires
        resets_only(state),
    ensures
        resets_only(render_step(state, c)),
{
    let after = render_step(state, c);
    if c == '\u{1b}' {
        if !state.reading_text {
            lemma_escaped_token_names_nothing(state.color.push(c));
        } else {
            assert(after.color[0] == '\u{1b}');
        }
    } else if !state.reading_text {
        assert(after.color[0] == state.color[0]);
    }
    assert forall|k: int| 0 <= k < after.actions.len() && #[trigger] after.actions[k] is SetColor
        implies after.actions[k] == ConsoleAction::SetColor(ConsoleColor::Reset) by {
        if k < state.actions.len() {
            assert(after.actions[k] == state.actions[k]);
        }
    }
}

/// `resets_only` holds after reading any message.
proof fn lemma_render_run_resets_only(message: Seq<char>)
    ensures
        resets_only(render_run(message)),
    decreases message.len(),
{
    if message.len() > 0 {
        lemma_render_run_resets_only(message.drop_last());
        lemma_step_resets_only(render_run(message.drop_last()), message.last());
    }
}

/// A colour token keeps the escape characters around its name, so no token names a colour:
/// every colour that a message sets is the terminal's own, and no colour is left to reset at
/// the end.
pub proof fn law_tokens_set_only_the_terminal_color(message: Seq<char>)
    ensures
        !render_run(message).changed_color,
        forall|k: int| 0 <= k < render(message).len()
            ==> (#[trigger] render(message)[k] is SetColor
                ==> render(message)[k] == ConsoleAction::SetColor(ConsoleColor::Reset)),
{
    lemma_render_run_resets_only(message);
}

/// The number of escape characters in `message`.
pub open spec fn escape_count(message: Seq<char>) -> nat
    decreases message.len(),
{
    if message.len() == 0 {
        0
    } else {
        escape_count(message.drop_last()) + if message.last() == '\u{1b}' { 1nat } else { 0nat }
    }
}

/// The characters of `message` outside colour tokens: those that are not escape characters
/// and come after an even number of escape characters.
pub open spec fn text_outside_tokens(message: Seq<char>) -> Seq<char>
    decreases message.len(),
{
    if message.len() == 0 {
        seq![]
    } else {
        let prefix = message.drop_last();
        let c = message.last();
        if c != '\u{1b}' && escape_count(prefix) % 2 == 0 {
            text_outside_tokens(prefix).push(c)
        } else {
            text_outside_tokens(prefix)
        }
    }
}

/// The characters that `actions` write, in order.
pub open spec fn written_text(actions: Seq<ConsoleAction>) -> Seq<char>
    decreases actions.len(),
{
    if actions.len() == 0 {
        seq![]
    } else {
        let rest = written_text(actions.drop_last());
        match actions.last() {
            ConsoleAction::Write(c) => rest.push(c),
            ConsoleAction::SetColor(_) => rest,
        }
    }
}

/// The number of colour settings among `actions`.
pub open spec fn color_settings(actions: Seq<ConsoleAction>) -> nat
    decreases actions.len(),
{
    if actions.len() == 0 {
        0
    } else {
        color_settings(actions.drop_last()) + if actions.last() is SetColor { 1nat } else { 0nat }
    }
}

/// What one character adds to the actions: the write of a character of text, the setting
/// of a colour when it closes a token, and nothing else.
proof fn lemma_step_actions(state: RenderState, c: char)
    ensures
        render_step(state, c).reading_text == (if c == '\u{1b}' { !state.reading_text } else { state.reading_text }),
        (c == '\u{1b}' && !state.reading_text) ==> {
            &&& render_step(state, c).actions.len() == state.actions.len() + 1
            &&& render_step(state, c).actions.drop_last() == state.actions
            &&& render_step(state, c).actions.last() is SetColor
        },
        (c != '\u{1b}' && state.reading_text) ==> {
            &&& render_step(state, c).actions.len() == state.actions.len() + 1
            &&& render_step(state, c).actions.drop_last() == state.actions
            &&& render_step(state, c).actions.last() == ConsoleAction::Write(c)
        },
        ((c == '\u{1b}' && state.reading_text) || (c != '\u{1b}' && !state.reading_text)) ==>
            render_step(state, c).actions == state.actions,
{
    let after = render_step(state, c);
    if (c == '\u{1b}' && !state.reading_text) || (c != '\u{1b}' && state.reading_text) {
        assert(after.actions.drop_last() =~= state.actions);
    }
}

/// The reading is in text exactly after an even number of escape characters; what it has
/// written is the text outside the tokens, and it has set one colour per closed token.
proof fn lemma_render_run_counts(message: Seq<char>)
    ensures
        render_run(message).reading_text == (escape_count(message) % 2 == 0),
        written_text(render_run(message).actions) == text_outside_tokens(message),
        color_settings(render_run(message).actions) == escape_count(message) / 2,
    decreases message.len(),
{
    if message.len() > 0 {
        let prefix = message.drop_last();
        let c = message.last();
        lemma_render_run_counts(prefix);
        let before = render_run(prefix);
        lemma_step_actions(before, c);
        let after = render_step(before, c);
        if c != '\u{1b}' && before.reading_text {
            assert(written_text(after.actions) == text_outside_tokens(prefix).push(c));
        }
    }
}

/// What is done for a message is what its reading did: no colour is left to reset.
proof fn lemma_render_is_run(message: Seq<char>)
    ensures
        render(message) == render_run(message).actions,
{
    lemma_render_run_resets_only(message);
}

/// The characters that the console logger writes for a message are exactly the characters
/// outside its colour tokens, in order.
pub proof fn law_written_text_is_outside_tokens(message: Seq<char>)
    ensures
        written_text(render(message)) == text_outside_tokens(message),
{
    lemma_render_is_run(message);
    lemma_render_run_counts(message);
}

/// The console logger sets one colour for each closed colour token, and no other.
pub proof fn law_one_color_setting_per_closed_token(message: Seq<char>)
    ensures
        color_settings(render(message)) == escape_count(message) / 2,
{
    lemma_render_is_run(message);
    lemma_render_run_counts(message);
}

/// One more character: a character of text adds its write, an escape character that closes
/// a token adds the setting of the terminal's own colour, and any other character adds
/// nothing.
pub proof fn law_render_push(message: Seq<char>, c: char)
    ensures
        render(message.push(c)) == if c == '\u{1b}' {
            if escape_count(message) % 2 == 1 {
                render(message).push(ConsoleAction::SetColor(ConsoleColor::Reset))
            } else {
                render(message)
            }
        } else if escape_count(message) % 2 == 0 {
            render(message).push(ConsoleAction::Write(c))
        } else {
            render(message)
        },
{
    let longer = message.push(c);
    assert(longer.drop_last() =~= message);
    assert(longer.last() == c);
    lemma_render_is_run(message);
    lemma_render_is_run(longer);
    lemma_render_run_counts(message);
    lemma_render_run_resets_only(message);
    let state = render_run(message);
    if c == '\u{1b}' && !state.reading_text {
        lemma_escaped_token_names_nothing(state.color.push(c));
    }
}

} // verus!
