use vstd::prelude::*;
use vstd::string::{StrSliceExecFns, StringExecFns};
use crate::logger::time::{
    chrono_date_text, chrono_time_text, date_text, is_valid_date, is_valid_time, time_text,
};
use crate::text::{pad_right, push_char};

verus! {

/// How serious a log message is, from the least to the most.
#[derive(PartialEq, Ord, PartialOrd, Eq, Copy, Clone)]
pub enum Level {
    Debug,
    Info,
    Warn,
    Error,
    Fatal,
}

impl Level {
    /// The names of the levels, in the order of the levels.
    pub const LEVEL_NAMES: [&'static str; 5] = ["DEBUG", "INFO", "WARN", "ERROR", "FATAL"];

    /// The place of the level in the order from `Debug` (0) to `Fatal` (4).
    pub open spec fn rank(self) -> nat {
        match self {
            Level::Debug => 0,
            Level::Info => 1,
            Level::Warn => 2,
            Level::Error => 3,
            Level::Fatal => 4,
        }
    }

    /// The name of the level.
    pub open spec fn name(self) -> Seq<char> {
        match self {
            Level::Debug => seq!['D', 'E', 'B', 'U', 'G'],
            Level::Info => seq!['I', 'N', 'F', 'O'],
            Level::Warn => seq!['W', 'A', 'R', 'N'],
            Level::Error => seq!['E', 'R', 'R', 'O', 'R'],
            Level::Fatal => seq!['F', 'A', 'T', 'A', 'L'],
        }
    }

    /// The place of the level in the order of the levels.
    pub fn index(&self) -> (i: usize)
        ensures
            i == self.rank(),
    {
        match self {
            Level::Debug => 0,
            Level::Info => 1,
            Level::Warn => 2,
            Level::Error => 3,
            Level::Fatal => 4,
        }
    }

    /// The name of the level, as `LEVEL_NAMES` holds it.
    pub fn level_name(&self) -> (name: &'static str)
        ensures
            name@ == self.name(),
    {
        let names = Level::LEVEL_NAMES;
        let name = names[self.index()];
        proof {
            reveal_strlit("DEBUG");
            reveal_strlit("INFO");
            reveal_strlit("WARN");
            reveal_strlit("ERROR");
            reveal_strlit("FATAL");
        }
        name
    }
}

/// A date and time of day, as `chrono::NaiveDateTime` holds them: a valid calendar date and a
/// valid time of day (whose nanoseconds may reach into a leap second).
pub struct LogTime {
    year: i32,
    month: u32,
    day: u32,
    hour: u32,
    minute: u32,
    second: u32,
    nanosecond: u32,
}

impl LogTime {
    #[verifier::type_invariant]
    spec fn is_valid(self) -> bool {
        &&& is_valid_date(self.year, self.month, self.day)
        &&& is_valid_time(self.hour, self.minute, self.second, self.nanosecond)
    }

    pub closed spec fn spec_year(self) -> i32 { self.year }
    pub closed spec fn spec_month(self) -> u32 { self.month }
    pub closed spec fn spec_day(self) -> u32 { self.day }
    pub closed spec fn spec_hour(self) -> u32 { self.hour }
    pub closed spec fn spec_minute(self) -> u32 { self.minute }
    pub closed spec fn spec_second(self) -> u32 { self.second }
    pub closed spec fn spec_nanosecond(self) -> u32 { self.nanosecond }

    /// How the date is written, `YYYY-MM-DD`.
    pub open spec fn date_view(self) -> Seq<char> {
        date_text(self.spec_year(), self.spec_month(), self.spec_day())
    }

    /// How the time of day is written, `HH:MM:SS` and the fraction of the second.
    pub open spec fn time_view(self) -> Seq<char> {
        time_text(self.spec_hour(), self.spec_minute(), self.spec_second(), self.spec_nanosecond())
    }

    /// The date and time with these parts, when they make a valid date and time of day.
    pub fn new(
        year: i32,
        month: u32,
        day: u32,
        hour: u32,
        minute: u32,
        second: u32,
        nanosecond: u32,
    ) -> (t: Option<LogTime>)
        ensures
            t is Some <==> is_valid_date(year, month, day)
                && is_valid_time(hour, minute, second, nanosecond),
            t matches Some(t) ==> {
                &&& t.spec_year() == year
                &&& t.spec_month() == month
                &&& t.spec_day() == day
                &&& t.spec_hour() == hour
                &&& t.spec_minute() == minute
                &&& t.spec_second() == second
                &&& t.spec_nanosecond() == nanosecond
            },
    {
        let date = chrono_date_text(year, month, day);
        let time = chrono_time_text(hour, minute, second, nanosecond);
        if date.is_some() && time.is_some() {
            Some(LogTime { year, month, day, hour, minute, second, nanosecond })
        } else {
            None
        }
    }

    /// The year.
    pub fn year(&self) -> (y: i32)
        ensures
            y == self.spec_year(),
    {
        self.year
    }

    /// The month, from 1 to 12.
    pub fn month(&self) -> (m: u32)
        ensures
            m == self.spec_month(),
    {
        self.month
    }

    /// The day of the month.
    pub fn day(&self) -> (d: u32)
        ensures
            d == self.spec_day(),
    {
        self.day
    }

    /// The hour, from 0 to 23.
    pub fn hour(&self) -> (h: u32)
        ensures
            h == self.spec_hour(),
    {
        self.hour
    }

    /// The minute, from 0 to 59.
    pub fn minute(&self) -> (m: u32)
        ensures
            m == self.spec_minute(),
    {
        self.minute
    }

    /// The second, from 0 to 59.
    pub fn second(&self) -> (s: u32)
        ensures
            s == self.spec_second(),
    {
        self.second
    }

    /// The nanoseconds past the second; a second or more of them is a leap second.
    pub fn nanosecond(&self) -> (n: u32)
        ensures
            n == self.spec_nanosecond(),
    {
        self.nanosecond
    }

    /// The date, written as `chrono` writes it.
    pub fn date_string(&self) -> (s: String)
        ensures
            s@ == self.date_view(),
    {
        proof { use_type_invariant(self); }
        match chrono_date_text(self.year, self.month, self.day) {
            Some(text) => text,
            None => String::new(),
        }
    }

    /// The time of day, written as `chrono` writes it.
    pub fn time_string(&self) -> (s: String)
        ensures
            s@ == self.time_view(),
    {
        proof { use_type_invariant(self); }
        match chrono_time_text(self.hour, self.minute, self.second, self.nanosecond) {
            Some(text) => text,
            None => String::new(),
        }
    }
}

/// What a directive `%c` of a pattern is replaced by: `%C` by the category, `%D` by the date,
/// `%T` by the time of day, `%L` by the level's name padded with spaces to seven characters;
/// any other character after `%` stands for itself.
pub open spec fn directive(
    c: char,
    category: Seq<char>,
    date: Seq<char>,
    time: Seq<char>,
    level: Level,
) -> Seq<char> {
    if c == 'C' {
        category
    } else if c == 'D' {
        date
    } else if c == 'T' {
        time
    } else if c == 'L' {
        pad_right(level.name(), 7)
    } else {
        seq![c]
    }
}

/// The text of a pattern with each directive replaced; a `%` at the very end is dropped.
pub open spec fn expand_pattern(
    pattern: Seq<char>,
    category: Seq<char>,
    date: Seq<char>,
    time: Seq<char>,
    level: Level,
) -> Seq<char>
    decreases pattern.len(),
{
    if pattern.len() == 0 {
        seq![]
    } else if pattern[0] == '%' {
        if pattern.len() == 1 {
            seq![]
        } else {
            directive(pattern[1], category, date, time, level)
                + expand_pattern(pattern.skip(2), category, date, time, level)
        }
    } else {
        seq![pattern[0]] + expand_pattern(pattern.skip(1), category, date, time, level)
    }
}

/// The name of `level` padded with spaces to seven characters.
fn padded_level_name(level: Level) -> (text: String)
    ensures
        text@ == pad_right(level.name(), 7),
{
    let mut text = String::from_str(level.level_name());
    while text.as_str().unicode_len() < 7
        invariant
            level.name().len() <= text@.len() <= 7,
            text@ == level.name() + Seq::new((text@.len() - level.name().len()) as nat, |i: int| ' '),
        decreases 7 - text@.len(),
    {
        push_char(&mut text, ' ');
        assert(text@ =~= level.name() + Seq::new((text@.len() - level.name().len()) as nat, |i: int| ' '));
    }
    assert(text@ =~= pad_right(level.name(), 7));
    text
}

/// The text starts with the escape character.
fn starts_with_escape(text: &str) -> (starts: bool)
    ensures
        starts == (text@.len() > 0 && text@[0] == '\u{1b}'),
{
    text.unicode_len() > 0 && text.get_char(0) == '\u{1b}'
}

/// Where the first escape character of the text is, or the length of the text when it holds
/// none.
fn first_escape(text: &str) -> (pos: usize)
    ensures
        pos <= text@.len(),
        pos < text@.len() ==> text@[pos as int] == '\u{1b}',
        forall|j: int| 0 <= j < pos ==> text@[j] != '\u{1b}',
{
    let n = text.unicode_len();
    let mut i: usize = 0;
    while i < n
        invariant
            i <= n,
            n == text@.len(),
            forall|j: int| 0 <= j < i ==> text@[j] != '\u{1b}',
        decreases n - i,
    {
        if text.get_char(i) == '\u{1b}' {
            return i;
        }
        i = i + 1;
    }
    i
}

/// What a `CommonLogger` is: the most serious level it writes, the pattern put before each
/// message, and the categories it does not write.
pub struct CommonLoggerView {
    pub log_level: Level,
    pub pattern: Seq<char>,
    pub disabled_categories: Set<Seq<char>>,
}

/// A logger that writes the messages of the enabled categories up to a level, each with a
/// header made from a pattern.
pub struct CommonLogger {
    log_level: Level,
    pattern: String,
    /// The disabled categories, held as a list with no name twice (the type invariant
    /// `categories_distinct`) rather than as a `HashSet<String>`: vstd specifies `HashSet` only
    /// for key types known to obey its key model, and `String` is not one of them without an
    /// assumption; the list's view, taken as a set, is exactly the set of disabled categories.
    disabled_categories: Vec<String>,
}

impl View for CommonLogger {
    type V = CommonLoggerView;

    closed spec fn view(&self) -> CommonLoggerView {
        CommonLoggerView {
            log_level: self.log_level,
            pattern: self.pattern@,
            disabled_categories: self.category_names().to_set(),
        }
    }
}

impl CommonLogger {
    /// The disabled categories, in the order in which they were disabled.
    closed spec fn category_names(self) -> Seq<Seq<char>> {
        self.disabled_categories@.map_values(|c: String| c@)
    }

    /// No category is held twice.
    #[verifier::type_invariant]
    spec fn categories_distinct(self) -> bool {
        forall|i: int, j: int|
            0 <= i < j < self.disabled_categories@.len()
                ==> #[trigger] self.disabled_categories@[i]@ != #[trigger] self.disabled_categories@[j]@
    }

    /// A logger that writes up to `level`, with the pattern `"%D %T %L [%C] "` and every
    /// category enabled.
    pub fn new(level: Level) -> (logger: Self)
        ensures
            logger@.log_level == level,
            logger@.pattern == seq!['%', 'D', ' ', '%', 'T', ' ', '%', 'L', ' ', '[', '%', 'C', ']', ' '],
            logger@.disabled_categories == Set::<Seq<char>>::empty(),
    {
        let pattern = String::from_str("%D %T %L [%C] ");
        proof {
            reveal_strlit("%D %T %L [%C] ");
        }
        let logger = CommonLogger { log_level: level, pattern, disabled_categories: Vec::new() };
        assert(logger.category_names() =~= Seq::<Seq<char>>::empty());
        logger
    }

    /// Replaces the pattern.
    pub fn set_pattern(&mut self, pattern: &str)
        ensures
            final(self)@.pattern == pattern@,
            final(self)@.log_level == old(self)@.log_level,
            final(self)@.disabled_categories == old(self)@.disabled_categories,
    {
        proof { use_type_invariant(&*self); }
        self.pattern = String::from_str(pattern);
    }

    /// Where `category` is held among the disabled categories, if it is.
    fn find_category(&self, category: &String) -> (found: Option<usize>)
        ensures
            found matches Some(i) ==> i < self.disabled_categories@.len()
                && self.disabled_categories@[i as int]@ == category@,
            found is None ==> !self@.disabled_categories.contains(category@),
    {
        let mut i: usize = 0;
        while i < self.disabled_categories.len()
            invariant
                i <= self.disabled_categories@.len(),
                forall|j: int| 0 <= j < i ==> #[trigger] self.disabled_categories@[j]@ != category@,
            decreases self.disabled_categories@.len() - i,
        {
            if self.disabled_categories[i] == *category {
                return Some(i);
            }
            i = i + 1;
        }
        assert(!self.category_names().contains(category@)) by {
            if self.category_names().contains(category@) {
                let j = choose|j: int| 0 <= j < self.category_names().len()
                    && self.category_names()[j] == category@;
                assert(self.disabled_categories@[j]@ == category@);
            }
        }
        None
    }

    /// The category is disabled.
    pub fn is_disabled(&self, category: &str) -> (disabled: bool)
        ensures
            disabled == self@.disabled_categories.contains(category@),
    {
        let category = String::from_str(category);
        match self.find_category(&category) {
            Some(i) => {
                assert(self.category_names()[i as int] == category@);
                true
            },
            None => false,
        }
    }

    /// Writes the messages of `category` again.
    pub fn enable_category(&mut self, category: &str)
        ensures
            final(self)@.disabled_categories == old(self)@.disabled_categories.remove(category@),
            final(self)@.log_level == old(self)@.log_level,
            final(self)@.pattern == old(self)@.pattern,
    {
        proof { use_type_invariant(&*self); }
        let category = String::from_str(category);
        match self.find_category(&category) {
            Some(i) => {
                let ghost before = self.category_names();
                let mut categories: Vec<String> = Vec::new();
                std::mem::swap(&mut categories, &mut self.disabled_categories);
                categories.remove(i);
                self.disabled_categories = categories;
                assert(self.category_names() =~= before.remove(i as int));
                assert(self.category_names().to_set() =~= before.to_set().remove(category@)) by {
                    assert forall|x: Seq<char>| #[trigger] before.remove(i as int).contains(x)
                        <==> before.contains(x) && x != category@ by {
                        if before.contains(x) && x != category@ {
                            let j = choose|j: int| 0 <= j < before.len() && before[j] == x;
                            if j < i {
                                assert(before.remove(i as int)[j] == x);
                            } else {
                                assert(before.remove(i as int)[j - 1] == x);
                            }
                        }
                        if before.remove(i as int).contains(x) {
                            let j = choose|j: int| 0 <= j < before.len() - 1 && before.remove(i as int)[j] == x;
                            if j < i {
                                assert(before[j] == x);
                                assert(j != i);
                            } else {
                                assert(before[j + 1] == x);
                                assert(j + 1 != i);
                            }
                        }
                    }
                }
            },
            None => {
                assert(self@.disabled_categories =~= old(self)@.disabled_categories.remove(category@));
            },
        }
    }

    /// Stops writing the messages of `category`.
    pub fn disable_category(&mut self, category: &str)
        ensures
            final(self)@.disabled_categories == old(self)@.disabled_categories.insert(category@),
            final(self)@.log_level == old(self)@.log_level,
            final(self)@.pattern == old(self)@.pattern,
    {
        proof { use_type_invariant(&*self); }
        let category = String::from_str(category);
        match self.find_category(&category) {
            Some(i) => {
                assert(self.category_names()[i as int] == category@);
                assert(self@.disabled_categories =~= old(self)@.disabled_categories.insert(category@));
            },
            None => {
                let ghost before = self.category_names();
                let ghost name = category@;
                let mut categories: Vec<String> = Vec::new();
                std::mem::swap(&mut categories, &mut self.disabled_categories);
                categories.push(category);
                assert forall|a: int, b: int| 0 <= a < b < categories@.len()
                    implies #[trigger] categories@[a]@ != #[trigger] categories@[b]@ by {
                    if b == categories@.len() - 1 {
                        assert(before[a] == categories@[a]@);
                    }
                }
                self.disabled_categories = categories;
                assert(self.category_names() =~= before.push(name));
                assert(self.category_names().to_set() =~= before.to_set().insert(name)) by {
                    before.lemma_push_to_set_commute(name);
                }
            },
        }
    }

    /// The header that the pattern makes for a message of `category` at `level` and `time`.
    pub fn format_pattern(&self, category: &str, level: Level, time: &LogTime) -> (header: String)
        ensures
            header@ == expand_pattern(self@.pattern, category@, time.date_view(), time.time_view(), level),
    {
        let pattern = self.pattern.as_str();
        let ghost p = pattern@;
        let ghost date = time.date_view();
        let ghost clock = time.time_view();
        let n = pattern.unicode_len();
        let mut header = String::new();
        let mut i: usize = 0;
        assert(p.skip(0) =~= p);
        while i < n
            invariant
                i <= n,
                n == p.len(),
                pattern@ == p,
                date == time.date_view(),
                clock == time.time_view(),
                header@ + expand_pattern(p.skip(i as int), category@, date, clock, level)
                    == expand_pattern(p, category@, date, clock, level),
            decreases n - i,
        {
            let c = pattern.get_char(i);
            let ghost rest = p.skip(i as int);
            assert(rest[0] == c);
            if c == '%' {
                if i + 1 < n {
                    let d = pattern.get_char(i + 1);
                    assert(rest[1] == d);
                    assert(rest.skip(2) =~= p.skip(i + 2));
                    let ghost before = header@;
                    if d == 'C' {
                        header.append(category);
                    } else if d == 'D' {
                        let text = time.date_string();
                        header.append(text.as_str());
                    } else if d == 'T' {
                        let text = time.time_string();
                        header.append(text.as_str());
                    } else if d == 'L' {
                        let text = padded_level_name(level);
                        header.append(text.as_str());
                    } else {
                        push_char(&mut header, d);
                    }
                    assert(header@ == before + directive(d, category@, date, clock, level));
                    i = i + 2;
                } else {
                    assert(rest.len() == 1);
                    assert(p.skip(i + 1).len() == 0);
                    i = i + 1;
                }
            } else {
                assert(rest.skip(1) =~= p.skip(i + 1));
                push_char(&mut header, c);
                i = i + 1;
            }
        }
        assert(p.skip(n as int).len() == 0);
        header
    }

    /// The line that the logger writes for a message, or `None` when it writes nothing: the
    /// message is written when its level is at most the logger's level and its category is not
    /// disabled, and the header that the pattern makes, if the pattern is not empty, comes
    /// before the body.
    pub fn log(&self, category: &str, level: Level, time: LogTime, body: &str) -> (line: Option<String>)
        ensures
            line is Some <==> level.rank() <= self@.log_level.rank()
                && !self@.disabled_categories.contains(category@),
            line matches Some(l) ==> l@ == if self@.pattern.len() == 0 {
                body@
            } else {
                expand_pattern(self@.pattern, category@, time.date_view(), time.time_view(), level)
                    + body@
            },
    {
        if level.index() <= self.log_level.index() && !self.is_disabled(category) {
            let mut line = String::from_str(body);
            if self.pattern.as_str().unicode_len() > 0 {
                let header = self.format_pattern(category, level, &time);
                let insert_pos = if starts_with_escape(body) {
                    first_escape(body)
                } else {
                    0
                };
                let n = body.unicode_len();
                let head = body.substring_char(0, insert_pos);
                let tail = body.substring_char(insert_pos, n);
                line = String::from_str(head);
                line.append(header.as_str());
                line.append(tail);
                assert(insert_pos == 0);
                assert(head@ =~= seq![]);
                assert(tail@ =~= body@);
            }
            Some(line)
        } else {
            None
        }
    }

    /// Replaces the most serious level that is written.
    pub fn set_max_level(&mut self, level: Level)
        ensures
            final(self)@.log_level == level,
            final(self)@.pattern == old(self)@.pattern,
            final(self)@.disabled_categories == old(self)@.disabled_categories,
    {
        proof { use_type_invariant(&*self); }
        self.log_level = level;
    }
}

/// Disabling a category that was enabled and then enabling it again leaves the disabled
/// categories as they were.
pub proof fn law_enable_undoes_disable(disabled: Set<Seq<char>>, category: Seq<char>)
    requires
        !disabled.contains(category),
    ensures
        disabled.insert(category).remove(category) == disabled,
{
    assert(disabled.insert(category).remove(category) =~= disabled);
}

/// Enabling a category and then disabling it again leaves it disabled, and every other
/// category as it was.
pub proof fn law_disable_after_enable(disabled: Set<Seq<char>>, category: Seq<char>)
    ensures
        disabled.remove(category).insert(category) == disabled.insert(category),
{
    assert(disabled.remove(category).insert(category) =~= disabled.insert(category));
}

/// The number of `%` characters that the pattern ends with.
pub open spec fn trailing_percents(pattern: Seq<char>) -> nat
    decreases pattern.len(),
{
    if pattern.len() == 0 || pattern.last() != '%' {
        0
    } else {
        1 + trailing_percents(pattern.drop_last())
    }
}

/// Reading the pattern from the start, every `%` has the character of its directive after it.
pub open spec fn pairs_every_percent(pattern: Seq<char>) -> bool
    decreases pattern.len(),
{
    if pattern.len() == 0 {
        true
    } else if pattern[0] == '%' {
        pattern.len() >= 2 && pairs_every_percent(pattern.skip(2))
    } else {
        pairs_every_percent(pattern.skip(1))
    }
}

/// The `%` characters at the end of `a + b`: those of `b`, and those of `a` too when `b` is
/// made of `%` only.
proof fn lemma_trailing_percents_concat(a: Seq<char>, b: Seq<char>)
    ensures
        trailing_percents(a + b) == if trailing_percents(b) == b.len() {
            trailing_percents(a) + b.len()
        } else {
            trailing_percents(b)
        },
    decreases b.len(),
{
    if b.len() == 0 {
        assert(a + b =~= a);
    } else {
        assert((a + b).drop_last() =~= a + b.drop_last());
        assert((a + b).last() == b.last());
        lemma_trailing_percents_concat(a, b.drop_last());
        lemma_trailing_percents_bound(b.drop_last());
    }
}

/// A pattern ends with no more `%` characters than it has.
proof fn lemma_trailing_percents_bound(pattern: Seq<char>)
    ensures
        trailing_percents(pattern) <= pattern.len(),
    decreases pattern.len(),
{
    if pattern.len() > 0 {
        lemma_trailing_percents_bound(pattern.drop_last());
    }
}

/// Every `%` of a pattern has its directive's character exactly when the pattern ends with an
/// even number of `%` characters.
pub proof fn lemma_pairs_every_percent_iff_even_ending(pattern: Seq<char>)
    ensures
        pairs_every_percent(pattern) <==> trailing_percents(pattern) % 2 == 0,
    decreases pattern.len(),
{
    if pattern.len() == 0 {
    } else if pattern[0] == '%' && pattern.len() == 1 {
        assert(pattern.last() == '%');
        assert(trailing_percents(pattern.drop_last()) == 0);
        assert(trailing_percents(pattern) == 1);
    } else {
        let k: int = if pattern[0] == '%' { 2 } else { 1 };
        let head = pattern.take(k);
        let rest = pattern.skip(k);
        assert(pattern =~= head + rest);
        lemma_pairs_every_percent_iff_even_ending(rest);
        lemma_trailing_percents_concat(head, rest);
        if k == 1 {
            assert(head.last() == pattern[0]);
            assert(trailing_percents(head) == 0);
        } else {
            let one = head.drop_last();
            assert(head.last() == pattern[1]);
            assert(one.len() == 1 && one.last() == pattern[0]);
            assert(one.drop_last().len() == 0);
            assert(trailing_percents(one.drop_last()) == 0);
            assert(trailing_percents(one) == 1);
            assert(trailing_percents(head) % 2 == 0);
        }
        assert(pairs_every_percent(pattern) == pairs_every_percent(rest));
        assert(trailing_percents(pattern) % 2 == trailing_percents(rest) % 2);
    }
}

/// Expanding two patterns one after the other gives the expansion of the joined pattern, when
/// the first ends with an even number of `%` characters, so that none of them pairs with the
/// first character of the second.
pub proof fn law_expand_pattern_concat(
    first: Seq<char>,
    second: Seq<char>,
    category: Seq<char>,
    date: Seq<char>,
    time: Seq<char>,
    level: Level,
)
    requires
        trailing_percents(first) % 2 == 0,
    ensures
        expand_pattern(first + second, category, date, time, level)
            == expand_pattern(first, category, date, time, level)
                + expand_pattern(second, category, date, time, level),
{
    lemma_pairs_every_percent_iff_even_ending(first);
    lemma_expand_pattern_concat(first, second, category, date, time, level);
}

/// `law_expand_pattern_concat`, for a first pattern whose every `%` has its character.
proof fn lemma_expand_pattern_concat(
    first: Seq<char>,
    second: Seq<char>,
    category: Seq<char>,
    date: Seq<char>,
    time: Seq<char>,
    level: Level,
)
    requires
        pairs_every_percent(first),
    ensures
        expand_pattern(first + second, category, date, time, level)
            == expand_pattern(first, category, date, time, level)
                + expand_pattern(second, category, date, time, level),
    decreases first.len(),
{
    let joined = first + second;
    if first.len() == 0 {
        assert(joined =~= second);
        assert(expand_pattern(first, category, date, time, level) =~= seq![]);
    } else {
        let k: int = if first[0] == '%' { 2 } else { 1 };
        assert(joined.skip(k) =~= first.skip(k) + second);
        assert(joined[0] == first[0]);
        if k == 2 {
            assert(joined[1] == first[1]);
        }
        lemma_expand_pattern_concat(first.skip(k), second, category, date, time, level);
        let head = if k == 2 {
            directive(first[1], category, date, time, level)
        } else {
            seq![first[0]]
        };
        assert(head + (expand_pattern(first.skip(k), category, date, time, level)
            + expand_pattern(second, category, date, time, level))
            =~= (head + expand_pattern(first.skip(k), category, date, time, level))
            + expand_pattern(second, category, date, time, level));
    }
}

/// The levels are ordered as they are declared, `Debug < Info < Warn < Error < Fatal`, and a
/// level's place is its index in `LEVEL_NAMES`: the place of `Debug` is 0, that of `Fatal` 4.
pub proof fn law_level_places()
    ensures
        Level::Debug.rank() == 0,
        Level::Info.rank() == 1,
        Level::Warn.rank() == 2,
        Level::Error.rank() == 3,
        Level::Fatal.rank() == 4,
        forall|l: Level| #[trigger] l.rank() < Level::LEVEL_NAMES.len(),
{
}

/// `%L` writes the name that `LEVEL_NAMES` holds at the level's place, padded with spaces to
/// seven characters: `DEBUG  `, `INFO   `, `WARN   `, `ERROR  ` or `FATAL  `.
pub proof fn law_level_directive(category: Seq<char>, date: Seq<char>, time: Seq<char>, level: Level)
    ensures
        directive('L', category, date, time, level) == pad_right(
            Level::LEVEL_NAMES[level.rank() as int]@,
            7,
        ),
        directive('L', category, date, time, level) == match level {
            Level::Debug => seq!['D', 'E', 'B', 'U', 'G', ' ', ' '],
            Level::Info => seq!['I', 'N', 'F', 'O', ' ', ' ', ' '],
            Level::Warn => seq!['W', 'A', 'R', 'N', ' ', ' ', ' '],
            Level::Error => seq!['E', 'R', 'R', 'O', 'R', ' ', ' '],
            Level::Fatal => seq!['F', 'A', 'T', 'A', 'L', ' ', ' '],
        },
{
    reveal_strlit("DEBUG");
    reveal_strlit("INFO");
    reveal_strlit("WARN");
    reveal_strlit("ERROR");
    reveal_strlit("FATAL");
    let padded = directive('L', category, date, time, level);
    assert(padded =~= match level {
        Level::Debug => seq!['D', 'E', 'B', 'U', 'G', ' ', ' '],
        Level::Info => seq!['I', 'N', 'F', 'O', ' ', ' ', ' '],
        Level::Warn => seq!['W', 'A', 'R', 'N', ' ', ' ', ' '],
        Level::Error => seq!['E', 'R', 'R', 'O', 'R', ' ', ' '],
        Level::Fatal => seq!['F', 'A', 'T', 'A', 'L', ' ', ' '],
    });
}

/// One step of the expansion of `p` from the place `k`: a directive and what follows it, or
/// a character and what follows it.
proof fn lemma_expand_step(
    p: Seq<char>,
    k: int,
    category: Seq<char>,
    date: Seq<char>,
    time: Seq<char>,
    level: Level,
)
    requires
        0 <= k < p.len(),
    ensures
        p[k] == '%' && k + 1 < p.len() ==> expand_pattern(p.skip(k), category, date, time, level)
            == directive(p[k + 1], category, date, time, level)
                + expand_pattern(p.skip(k + 2), category, date, time, level),
        p[k] != '%' ==> expand_pattern(p.skip(k), category, date, time, level)
            == seq![p[k]] + expand_pattern(p.skip(k + 1), category, date, time, level),
{
    let q = p.skip(k);
    assert(q[0] == p[k]);
    if k + 1 < p.len() {
        assert(q[1] == p[k + 1]);
    }
    if p[k] == '%' && k + 1 < p.len() {
        assert(q.skip(2) =~= p.skip(k + 2));
    }
    assert(q.skip(1) =~= p.skip(k + 1));
}

/// The header of the default pattern `%D %T %L [%C] `: the date, a space, the time of day, a
/// space, the level's name padded to seven characters, a space, and the category in brackets
/// followed by a space.
pub proof fn law_default_header(category: Seq<char>, date: Seq<char>, time: Seq<char>, level: Level)
    ensures
        expand_pattern(
            seq!['%', 'D', ' ', '%', 'T', ' ', '%', 'L', ' ', '[', '%', 'C', ']', ' '],
            category,
            date,
            time,
            level,
        ) == date + seq![' '] + time + seq![' '] + pad_right(
            Level::LEVEL_NAMES[level.rank() as int]@,
            7,
        ) + seq![' ', '['] + category + seq![']', ' '],
{
    let p = seq!['%', 'D', ' ', '%', 'T', ' ', '%', 'L', ' ', '[', '%', 'C', ']', ' '];
    law_level_directive(category, date, time, level);
    let lv = directive('L', category, date, time, level);
    assert(p.skip(14).len() == 0);
    assert(expand_pattern(p.skip(14), category, date, time, level) =~= seq![]);
    lemma_expand_step(p, 13, category, date, time, level);
    lemma_expand_step(p, 12, category, date, time, level);
    lemma_expand_step(p, 10, category, date, time, level);
    lemma_expand_step(p, 9, category, date, time, level);
    lemma_expand_step(p, 8, category, date, time, level);
    lemma_expand_step(p, 6, category, date, time, level);
    lemma_expand_step(p, 5, category, date, time, level);
    lemma_expand_step(p, 3, category, date, time, level);
    lemma_expand_step(p, 2, category, date, time, level);
    lemma_expand_step(p, 0, category, date, time, level);
    assert(p.skip(0) =~= p);
    assert(expand_pattern(p, category, date, time, level) =~= date + seq![' '] + time + seq![' ']
        + lv + seq![' ', '['] + category + seq![']', ' ']);
}

} // verus!
