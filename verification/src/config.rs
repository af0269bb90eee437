//! The configuration and its text format: sections in square brackets, one
//! value to a line.

use crate::text::{
    chars_of, lowercase_text, optional_text, str_equal, string_of, texts, to_lowercase,
    trim_bounds, trimmed,
};
use vstd::prelude::*;
use vstd::string::StringExecFns;

verus! {

/// The configuration of the service.
#[derive(Debug, PartialEq, Eq)]
pub struct Config {
    /// Where the schedule lies.
    pub excel_path: String,
    /// The names of the managed sheets, in the order of the file.
    pub manage_games: Vec<String>,
    /// The title of a notification, if one is set.
    pub notification_title: Option<String>,
    /// The message of a notification, if one is set; `{count}` in it stands
    /// for the number of missing entries.
    pub notification_message_template: Option<String>,
}

/// Why a text is no configuration.
#[derive(Clone, Copy, Debug, PartialEq, Eq, Structural)]
pub enum ConfigError {
    /// No path stands in a section `[target_path]`.
    MissingTargetPath,
    /// No sheet name stands in a section `[manage_game]`.
    NoManagedSheets,
}

/// The sections of the format.
#[derive(Clone, Copy, Debug, PartialEq, Eq, Structural)]
pub enum SectionKind {
    TargetPath,
    ManageGame,
    Title,
    Message,
    /// Any other section, and the text before the first header.
    Other,
}

/// A configuration as mathematical values.
pub struct ConfigView {
    pub excel_path: Seq<char>,
    pub manage_games: Seq<Seq<char>>,
    pub notification_title: Option<Seq<char>>,
    pub notification_message_template: Option<Seq<char>>,
}

/// What has been read of a configuration, as mathematical values.
pub struct DraftView {
    pub section: SectionKind,
    pub excel_path: Option<Seq<char>>,
    pub manage_games: Seq<Seq<char>>,
    pub notification_title: Option<Seq<char>>,
    pub notification_message_template: Option<Seq<char>>,
}

impl View for Config {
    type V = ConfigView;

    open spec fn view(&self) -> ConfigView {
        ConfigView {
            excel_path: self.excel_path@,
            manage_games: texts(self.manage_games@),
            notification_title: optional_text(self.notification_title),
            notification_message_template: optional_text(self.notification_message_template),
        }
    }
}

/// The section that a header names, the name given in lower case.
pub open spec fn section_named(lowered: Seq<char>) -> SectionKind {
    if lowered == "target_path"@ {
        SectionKind::TargetPath
    } else if lowered == "manage_game"@ {
        SectionKind::ManageGame
    } else if lowered == "title"@ {
        SectionKind::Title
    } else if lowered == "message"@ {
        SectionKind::Message
    } else {
        SectionKind::Other
    }
}

/// Whether a trimmed line says nothing: it is empty or a comment.
pub open spec fn is_skipped(line: Seq<char>) -> bool {
    line.len() == 0 || line[0] == ';' || line[0] == '#'
}

/// Whether a trimmed line is a section header.
pub open spec fn is_header(line: Seq<char>) -> bool {
    line.len() > 0 && line[0] == '[' && line.last() == ']'
}

/// The name inside a header, trimmed.
pub open spec fn header_name(line: Seq<char>) -> Seq<char> {
    trimmed(line.subrange(1, line.len() - 1))
}

/// The draft before anything was read.
pub open spec fn empty_draft() -> DraftView {
    DraftView {
        section: SectionKind::Other,
        excel_path: None,
        manage_games: Seq::empty(),
        notification_title: None,
        notification_message_template: None,
    }
}

/// The draft after a value line in its current section: a sheet name is
/// added; of a path, a title and a message only the first counts.
pub open spec fn with_value(d: DraftView, line: Seq<char>) -> DraftView {
    match d.section {
        SectionKind::TargetPath => if d.excel_path is None {
            DraftView { excel_path: Some(line), ..d }
        } else {
            d
        },
        SectionKind::ManageGame => DraftView { manage_games: d.manage_games.push(line), ..d },
        SectionKind::Title => if d.notification_title is None {
            DraftView { notification_title: Some(line), ..d }
        } else {
            d
        },
        SectionKind::Message => if d.notification_message_template is None {
            DraftView { notification_message_template: Some(line), ..d }
        } else {
            d
        },
        SectionKind::Other => d,
    }
}

/// The draft after a trimmed line.
pub open spec fn after_line(d: DraftView, line: Seq<char>) -> DraftView {
    if is_skipped(line) {
        d
    } else if is_header(line) {
        DraftView { section: section_named(lowercase_text(header_name(line))), ..d }
    } else {
        with_value(d, line)
    }
}

/// The end of the line that starts at `from`: the place of the next line
/// feed, or the end of the text.
pub open spec fn line_end(s: Seq<char>, from: int) -> int
    decreases s.len() - from,
{
    if from < 0 || from >= s.len() || s[from] == '\n' {
        from
    } else {
        line_end(s, from + 1)
    }
}

/// The draft after the lines of `s` from `from` on, each taken trimmed.
pub open spec fn after_lines(s: Seq<char>, from: int, d: DraftView) -> DraftView
    decreases s.len() - from,
{
    if 0 <= from < s.len() {
        let end = line_end(s, from);
        let d = after_line(d, trimmed(s.subrange(from, end)));
        if from <= end < s.len() {
            after_lines(s, end + 1, d)
        } else {
            d
        }
    } else {
        d
    }
}

/// The configuration that a finished draft holds: it needs a path, and then
/// a sheet.
pub open spec fn finished(d: DraftView) -> Result<ConfigView, ConfigError> {
    if d.excel_path is None {
        Err(ConfigError::MissingTargetPath)
    } else if d.manage_games.len() == 0 {
        Err(ConfigError::NoManagedSheets)
    } else {
        Ok(
            ConfigView {
                excel_path: d.excel_path->0,
                manage_games: d.manage_games,
                notification_title: d.notification_title,
                notification_message_template: d.notification_message_template,
            },
        )
    }
}

/// The configuration that a text holds.
pub open spec fn config_of(text: Seq<char>) -> Result<ConfigView, ConfigError> {
    finished(after_lines(text, 0, empty_draft()))
}

/// A line ends at or after its start, at a line feed or at the end of the
/// text, and holds no line feed.
pub proof fn lemma_line_end_bounds(s: Seq<char>, from: int)
    requires
        0 <= from <= s.len(),
    ensures
        from <= line_end(s, from) <= s.len(),
        line_end(s, from) < s.len() ==> s[line_end(s, from)] == '\n',
        forall|j: int| from <= j < line_end(s, from) ==> s[j] != '\n',
    decreases s.len() - from,
{
    if from < s.len() && s[from] != '\n' {
        lemma_line_end_bounds(s, from + 1);
    }
}

/// What has been read of a configuration.
pub struct ConfigDraft {
    pub section: SectionKind,
    pub excel_path: Option<String>,
    pub manage_games: Vec<String>,
    pub notification_title: Option<String>,
    pub notification_message_template: Option<String>,
}

impl View for ConfigDraft {
    type V = DraftView;

    open spec fn view(&self) -> DraftView {
        DraftView {
            section: self.section,
            excel_path: optional_text(self.excel_path),
            manage_games: texts(self.manage_games@),
            notification_title: optional_text(self.notification_title),
            notification_message_template: optional_text(self.notification_message_template),
        }
    }
}

/// The section that a header names, the name given in lower case.
pub fn section_of(lowered: &str) -> (r: SectionKind)
    ensures
        r == section_named(lowered@),
{
    if str_equal(lowered, "target_path") {
        SectionKind::TargetPath
    } else if str_equal(lowered, "manage_game") {
        SectionKind::ManageGame
    } else if str_equal(lowered, "title") {
        SectionKind::Title
    } else if str_equal(lowered, "message") {
        SectionKind::Message
    } else {
        SectionKind::Other
    }
}

impl ConfigDraft {
    /// The draft before anything was read.
    pub fn new() -> (d: ConfigDraft)
        ensures
            d@ == empty_draft(),
    {
        let d = ConfigDraft {
            section: SectionKind::Other,
            excel_path: None,
            manage_games: Vec::new(),
            notification_title: None,
            notification_message_template: None,
        };
        assert(texts(d.manage_games@) =~= Seq::<Seq<char>>::empty());
        d
    }

    /// Takes a value line into the current section.
    pub fn add_value(&mut self, line: String)
        ensures
            final(self)@ == with_value(old(self)@, line@),
    {
        match self.section {
            SectionKind::TargetPath => {
                if self.excel_path.is_none() {
                    self.excel_path = Some(line);
                }
            },
            SectionKind::ManageGame => {
                let ghost held = texts(self.manage_games@);
                self.manage_games.push(line);
                assert(texts(self.manage_games@) =~= held.push(line@));
            },
            SectionKind::Title => {
                if self.notification_title.is_none() {
                    self.notification_title = Some(line);
                }
            },
            SectionKind::Message => {
                if self.notification_message_template.is_none() {
                    self.notification_message_template = Some(line);
                }
            },
            SectionKind::Other => {},
        }
    }

    /// The configuration of the draft, or what it lacks.
    pub fn finish(self) -> (r: Result<Config, ConfigError>)
        ensures
            match r {
                Ok(c) => finished(self@) == Ok::<ConfigView, ConfigError>(c@),
                Err(e) => finished(self@) == Err::<ConfigView, ConfigError>(e),
            },
    {
        match self.excel_path {
            None => Err(ConfigError::MissingTargetPath),
            Some(excel_path) => {
                if self.manage_games.len() == 0 {
                    Err(ConfigError::NoManagedSheets)
                } else {
                    Ok(
                        Config {
                            excel_path,
                            manage_games: self.manage_games,
                            notification_title: self.notification_title,
                            notification_message_template: self.notification_message_template,
                        },
                    )
                }
            },
        }
    }
}

/// Reads a configuration from the text of its file. Lines are taken
/// trimmed; empty lines and lines that begin with `;` or `#` say nothing; a
/// line in square brackets opens the section of that name, in whatever case
/// it is written; any other line is a value of the section it stands in.
pub fn read_config(text: &str) -> (r: Result<Config, ConfigError>)
    ensures
        match r {
            Ok(c) => config_of(text@) == Ok::<ConfigView, ConfigError>(c@),
            Err(e) => config_of(text@) == Err::<ConfigView, ConfigError>(e),
        },
{
    let chars = chars_of(text);
    let mut draft = ConfigDraft::new();
    let mut from: usize = 0;
    while from < chars.len()
        invariant
            chars@ == text@,
            from <= chars.len(),
            after_lines(text@, 0, empty_draft()) == after_lines(text@, from as int, draft@),
        decreases chars.len() - from,
    {
        let mut end: usize = from;
        while end < chars.len() && chars[end] != '\n'
            invariant
                from <= end <= chars.len(),
                line_end(chars@, from as int) == line_end(chars@, end as int),
            decreases chars.len() - end,
        {
            end += 1;
        }
        let (a, b) = trim_bounds(&chars, from, end);
        let ghost line = chars@.subrange(a as int, b as int);
        let ghost held = draft@;
        if a < b && chars[a] != ';' && chars[a] != '#' {
            assert(line[0] == chars@[a as int]);
            assert(line.last() == chars@[b - 1]);
            if chars[a] == '[' && chars[b - 1] == ']' {
                let (c, d) = trim_bounds(&chars, a + 1, b - 1);
                assert(chars@.subrange(a + 1, b - 1) =~= line.subrange(1, line.len() - 1));
                let name = string_of(&chars, c, d);
                let lowered = to_lowercase(name.as_str());
                draft.section = section_of(lowered.as_str());
            } else {
                let value = string_of(&chars, a, b);
                draft.add_value(value);
            }
        }
        assert(draft@ == after_line(held, line));
        proof {
            lemma_line_end_bounds(chars@, from as int);
            lemma_line_end_bounds(chars@, end as int);
        }
        from = if end < chars.len() {
            end + 1
        } else {
            end
        };
    }
    draft.finish()
}

} // verus!
