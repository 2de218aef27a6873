//! Project configuration: `system.ini`, project paths and the boot script.
use crate::name_map::{copy_text_map, text_map, NameMap};
use crate::paths::{clean, clean_parts, PartRule};
use crate::strs::{
    char_count, chars_of, concat, copy_opt, copy_text, decimal, decimal_text, find, find_from,
    is_white, lines, list_has, lower, opt_text, parse_u32, push_char, same_text, split_lines,
    string_of_range, texts, to_lower, to_upper, trim, trimmed, upper,
};
use vstd::prelude::*;
use vstd::string::*;

verus! {

/// What went wrong before a script could run.
pub enum CoreError {
    MissingIniSection { section: String },
    MissingIniKey { section: String, key: String },
    InvalidIniNumber { section: String, key: String, value: String },
    InvalidProjectPath { path: String },
}

/// What an error says.
pub enum ErrorRecord {
    MissingIniSection { section: Seq<char> },
    MissingIniKey { section: Seq<char>, key: Seq<char> },
    InvalidIniNumber { section: Seq<char>, key: Seq<char>, value: Seq<char> },
    InvalidProjectPath { path: Seq<char> },
}

impl View for CoreError {
    type V = ErrorRecord;

    open spec fn view(&self) -> ErrorRecord {
        match self {
            CoreError::MissingIniSection { section } => ErrorRecord::MissingIniSection {
                section: section@,
            },
            CoreError::MissingIniKey { section, key } => ErrorRecord::MissingIniKey {
                section: section@,
                key: key@,
            },
            CoreError::InvalidIniNumber { section, key, value } => ErrorRecord::InvalidIniNumber {
                section: section@,
                key: key@,
                value: value@,
            },
            CoreError::InvalidProjectPath { path } => ErrorRecord::InvalidProjectPath {
                path: path@,
            },
        }
    }
}

/// A text between quotes, with escapes, as Rust prints it for debugging.
pub uninterp spec fn debug_quoted(text: Seq<char>) -> Seq<char>;

/// Writes a text between quotes, with escapes.
///
/// Calls the `Debug` printing of `str`; the result depends on the text alone.
#[verifier::external_body]
pub(crate) fn debug_text(text: &str) -> (out: String)
    ensures
        out@ == debug_quoted(text@),
{
    format!("{:?}", text)
}

/// The message of an error.
pub open spec fn error_text(error: ErrorRecord) -> Seq<char> {
    match error {
        ErrorRecord::MissingIniSection { section } => "system.ini section ["@ + section
            + "] was not found"@,
        ErrorRecord::MissingIniKey { section, key } => "system.ini ["@ + section
            + "] is missing key "@ + key,
        ErrorRecord::InvalidIniNumber { section, key, value } => "system.ini ["@ + section
            + "] key "@ + key + " has invalid number "@ + debug_quoted(value),
        ErrorRecord::InvalidProjectPath { path } => "project path "@ + debug_quoted(path)
            + " must be relative and stay inside the project"@,
    }
}

impl CoreError {
    /// The message that is shown for the error.
    pub fn message(&self) -> (out: String)
        ensures
            out@ == error_text(self@),
    {
        match self {
            CoreError::MissingIniSection { section } => {
                let head = concat("system.ini section [", section.as_str());
                concat(head.as_str(), "] was not found")
            },
            CoreError::MissingIniKey { section, key } => {
                let head = concat("system.ini [", section.as_str());
                let middle = concat(head.as_str(), "] is missing key ");
                concat(middle.as_str(), key.as_str())
            },
            CoreError::InvalidIniNumber { section, key, value } => {
                let head = concat("system.ini [", section.as_str());
                let middle = concat(head.as_str(), "] key ");
                let named = concat(middle.as_str(), key.as_str());
                let tail = concat(named.as_str(), " has invalid number ");
                let shown = debug_text(value.as_str());
                concat(tail.as_str(), shown.as_str())
            },
            CoreError::InvalidProjectPath { path } => {
                let shown = debug_text(path.as_str());
                let head = concat("project path ", shown.as_str());
                concat(head.as_str(), " must be relative and stay inside the project")
            },
        }
    }
}

// ── Reading an INI file ────────────────────────────────────────

/// What was read of an INI file: its sections, and the one that is open.
pub struct IniState {
    pub sections: Map<Seq<char>, Map<Seq<char>, Seq<char>>>,
    pub current: Option<Seq<char>>,
}

/// Whether a line opens a section.
pub open spec fn is_section_line(line: Seq<char>) -> bool {
    line.len() >= 2 && line[0] == '[' && line.last() == ']'
}

/// The name of the section that a line opens.
pub open spec fn section_name(line: Seq<char>) -> Seq<char> {
    upper(trim(line.subrange(1, line.len() - 1)))
}

/// The state after one more line. Blank lines and comments change nothing; a
/// value before the first section is ignored; a later value replaces an earlier
/// one.
pub open spec fn ini_line(state: IniState, raw: Seq<char>) -> IniState {
    let line = trim(raw);
    if line.len() == 0 || line[0] == ';' || line[0] == '#' {
        state
    } else if is_section_line(line) {
        let name = section_name(line);
        IniState {
            sections: if state.sections.contains_key(name) {
                state.sections
            } else {
                state.sections.insert(name, Map::empty())
            },
            current: Some(name),
        }
    } else {
        let at = find(line, '=');
        match state.current {
            Some(section) => if at < line.len() {
                let key = upper(trim(line.take(at)));
                let value = trim(line.skip(at + 1));
                IniState {
                    sections: state.sections.insert(
                        section,
                        state.sections[section].insert(key, value),
                    ),
                    ..state
                }
            } else {
                state
            },
            None => state,
        }
    }
}

/// The state after the given lines.
pub open spec fn ini_after(raw: Seq<Seq<char>>) -> IniState
    decreases raw.len(),
{
    if raw.len() == 0 {
        IniState { sections: Map::empty(), current: None }
    } else {
        ini_line(ini_after(raw.drop_last()), raw.last())
    }
}

/// The sections of an INI file.
pub open spec fn ini_sections(contents: Seq<char>) -> Map<Seq<char>, Map<Seq<char>, Seq<char>>> {
    ini_after(lines(contents)).sections
}

/// The view of a map of sections.
pub open spec fn sections_view(sections: NameMap<NameMap<String>>) -> Map<
    Seq<char>,
    Map<Seq<char>, Seq<char>>,
> {
    sections@.map_values(|values: NameMap<String>| text_map(values))
}

/// Every section is well formed.
pub open spec fn sections_wf(sections: NameMap<NameMap<String>>) -> bool {
    &&& sections.wf()
    &&& forall|k: Seq<char>| #[trigger] sections@.contains_key(k) ==> sections@[k].wf()
}

/// Reads the sections of an INI file.
pub fn parse_ini(contents: &str) -> (out: NameMap<NameMap<String>>)
    ensures
        sections_wf(out),
        sections_view(out) == ini_sections(contents@),
{
    let all = split_lines(contents);
    let ghost views = texts(all@);
    let mut sections: NameMap<NameMap<String>> = NameMap::new();
    let mut current: Option<String> = None;
    let mut i: usize = 0;
    assert(sections_view(sections) =~= ini_after(views.take(0)).sections);
    while i < all.len()
        invariant
            i <= all.len(),
            views == texts(all@),
            sections_wf(sections),
            sections_view(sections) == ini_after(views.take(i as int)).sections,
            match current {
                Some(name) => ini_after(views.take(i as int)).current == Some(name@)
                    && sections@.contains_key(name@),
                None => ini_after(views.take(i as int)).current is None,
            },
        decreases all.len() - i,
    {
        let ghost state = ini_after(views.take(i as int));
        proof {
            assert(views.take(i + 1).drop_last() =~= views.take(i as int));
            assert(views.take(i + 1).last() == all@[i as int]@);
        }
        let line = trimmed(all[i].as_str());
        let chars = chars_of(line.as_str());
        let n: usize = chars.len();
        if n == 0 || chars[0] == ';' || chars[0] == '#' {
            i += 1;
            continue;
        }
        if n >= 2 && chars[0] == '[' && chars[n - 1] == ']' {
            let inner = string_of_range(&chars, 1, n - 1);
            let plain = trimmed(inner.as_str());
            let name = to_upper(plain.as_str());
            assert(name@ == section_name(line@));
            if !sections.contains_key(name.as_str()) {
                let ghost before = sections;
                let values: NameMap<String> = NameMap::new();
                sections.insert(name.as_str(), values);
                proof {
                    assert(text_map(values) =~= Map::empty());
                    assert(sections_view(sections) =~= sections_view(before).insert(
                        name@,
                        Map::empty(),
                    ));
                }
            }
            current = Some(name);
            i += 1;
            continue;
        }
        if let Some(name) = &current {
            let at = find_from(&chars, 0, '=');
            assert(chars@.skip(0) =~= line@);
            if at < n {
                let raw_key = string_of_range(&chars, 0, at);
                let raw_value = string_of_range(&chars, at + 1, n);
                let plain_key = trimmed(raw_key.as_str());
                let key = to_upper(plain_key.as_str());
                let value = trimmed(raw_value.as_str());
                proof {
                    assert(raw_key@ =~= line@.take(at as int));
                    assert(raw_value@ =~= line@.skip(at + 1));
                }
                let ghost before = sections;
                if let Some(mut values) = sections.remove(name.as_str()) {
                    let ghost old_values = values;
                    values.insert(key.as_str(), value);
                    sections.insert(name.as_str(), values);
                    proof {
                        assert(text_map(values) =~= text_map(old_values).insert(key@, value@));
                        assert(sections_view(sections) =~= sections_view(before).insert(
                            name@,
                            sections_view(before)[name@].insert(key@, value@),
                        ));
                    }
                }
            }
        }
        i += 1;
    }
    assert(views.take(i as int) =~= views);
    sections
}

/// The value under a key that must be there and not be empty.
pub open spec fn required(values: Map<Seq<char>, Seq<char>>, section: Seq<char>, key: Seq<char>) -> Result<
    Seq<char>,
    ErrorRecord,
> {
    if values.contains_key(key) && values[key].len() > 0 {
        Ok(values[key])
    } else {
        Err(ErrorRecord::MissingIniKey { section, key })
    }
}

/// A value read as a number.
pub open spec fn number(section: Seq<char>, key: Seq<char>, value: Seq<char>) -> Result<
    u32,
    ErrorRecord,
> {
    match decimal(trim(value)) {
        Some(n) if n <= u32::MAX => Ok(n as u32),
        _ => Err(ErrorRecord::InvalidIniNumber { section, key, value }),
    }
}

pub open spec fn required_number(
    values: Map<Seq<char>, Seq<char>>,
    section: Seq<char>,
    key: Seq<char>,
) -> Result<u32, ErrorRecord> {
    match required(values, section, key) {
        Ok(value) => number(section, key, value),
        Err(error) => Err(error),
    }
}

pub open spec fn optional_number(
    values: Map<Seq<char>, Seq<char>>,
    section: Seq<char>,
    key: Seq<char>,
) -> Result<Option<u32>, ErrorRecord> {
    if values.contains_key(key) {
        match number(section, key, values[key]) {
            Ok(n) => Ok(Some(n)),
            Err(error) => Err(error),
        }
    } else {
        Ok(None)
    }
}

/// Whether a key is switched on.
pub open spec fn switched_on(values: Map<Seq<char>, Seq<char>>, key: Seq<char>) -> bool {
    values.contains_key(key) && {
        let word = lower(trim(values[key]));
        word == "1"@ || word == "true"@ || word == "on"@ || word == "yes"@
    }
}

pub open spec fn optional(values: Map<Seq<char>, Seq<char>>, key: Seq<char>) -> Option<Seq<char>> {
    if values.contains_key(key) {
        Some(values[key])
    } else {
        None
    }
}

fn required_string(values: &NameMap<String>, section: &str, key: &str) -> (out: Result<
    String,
    CoreError,
>)
    requires
        values.wf(),
    ensures
        match required(text_map(*values), section@, key@) {
            Ok(value) => out matches Ok(v) && v@ == value,
            Err(error) => out matches Err(e) && e@ == error,
        },
{
    if let Some(value) = values.get(key) {
        if !value.as_str().is_empty() {
            return Ok(copy_text(value.as_str()));
        }
    }
    Err(CoreError::MissingIniKey { section: copy_text(section), key: copy_text(key) })
}

fn read_number(section: &str, key: &str, value: &str) -> (out: Result<u32, CoreError>)
    ensures
        match number(section@, key@, value@) {
            Ok(n) => out matches Ok(m) && m == n,
            Err(error) => out matches Err(e) && e@ == error,
        },
{
    let plain = trimmed(value);
    match parse_u32(plain.as_str()) {
        Some(n) => Ok(n),
        None => Err(
            CoreError::InvalidIniNumber {
                section: copy_text(section),
                key: copy_text(key),
                value: copy_text(value),
            },
        ),
    }
}

fn required_u32(values: &NameMap<String>, section: &str, key: &str) -> (out: Result<u32, CoreError>)
    requires
        values.wf(),
    ensures
        match required_number(text_map(*values), section@, key@) {
            Ok(n) => out matches Ok(m) && m == n,
            Err(error) => out matches Err(e) && e@ == error,
        },
{
    match required_string(values, section, key) {
        Ok(value) => read_number(section, key, value.as_str()),
        Err(error) => Err(error),
    }
}

fn optional_u32(values: &NameMap<String>, section: &str, key: &str) -> (out: Result<
    Option<u32>,
    CoreError,
>)
    requires
        values.wf(),
    ensures
        match optional_number(text_map(*values), section@, key@) {
            Ok(n) => out matches Ok(m) && m == n,
            Err(error) => out matches Err(e) && e@ == error,
        },
{
    match values.get(key) {
        Some(value) => match read_number(section, key, value.as_str()) {
            Ok(n) => Ok(Some(n)),
            Err(error) => Err(error),
        },
        None => Ok(None),
    }
}

fn ini_bool(values: &NameMap<String>, key: &str) -> (out: bool)
    requires
        values.wf(),
    ensures
        out == switched_on(text_map(*values), key@),
{
    match values.get(key) {
        Some(value) => {
            let plain = trimmed(value.as_str());
            let word = to_lower(plain.as_str());
            let word = word.as_str();
            same_text(word, "1") || same_text(word, "true") || same_text(word, "on") || same_text(
                word,
                "yes",
            )
        },
        None => false,
    }
}

fn optional_string(values: &NameMap<String>, key: &str) -> (out: Option<String>)
    requires
        values.wf(),
    ensures
        match optional(text_map(*values), key@) {
            Some(value) => out matches Some(v) && v@ == value,
            None => out is None,
        },
{
    match values.get(key) {
        Some(value) => Some(copy_text(value.as_str())),
        None => None,
    }
}

// ── Configuration ──────────────────────────────────────────────

/// The startup configuration of one platform section of `system.ini`.
pub struct ProjectConfig {
    pub platform: String,
    pub stage_width: u32,
    pub stage_height: u32,
    pub fps: u32,
    pub charset: String,
    pub boot_script: String,
    pub frameless: bool,
    pub resizable: bool,
    pub fixed_aspect_ratio: bool,
    pub sidecut: bool,
    pub power_saving: bool,
    pub no_save: bool,
    pub savepath: Option<String>,
    pub side_picture: Option<String>,
    pub process_id: Option<String>,
    pub raw: NameMap<String>,
}

/// What a configuration holds.
#[verifier::ext_equal]
pub struct ConfigRecord {
    pub platform: Seq<char>,
    pub stage_width: u32,
    pub stage_height: u32,
    pub fps: u32,
    pub charset: Seq<char>,
    pub boot_script: Seq<char>,
    pub frameless: bool,
    pub resizable: bool,
    pub fixed_aspect_ratio: bool,
    pub sidecut: bool,
    pub power_saving: bool,
    pub no_save: bool,
    pub savepath: Option<Seq<char>>,
    pub side_picture: Option<Seq<char>>,
    pub process_id: Option<Seq<char>>,
    pub raw: Map<Seq<char>, Seq<char>>,
}

impl View for ProjectConfig {
    type V = ConfigRecord;

    open spec fn view(&self) -> ConfigRecord {
        ConfigRecord {
            platform: self.platform@,
            stage_width: self.stage_width,
            stage_height: self.stage_height,
            fps: self.fps,
            charset: self.charset@,
            boot_script: self.boot_script@,
            frameless: self.frameless,
            resizable: self.resizable,
            fixed_aspect_ratio: self.fixed_aspect_ratio,
            sidecut: self.sidecut,
            power_saving: self.power_saving,
            no_save: self.no_save,
            savepath: opt_text(self.savepath),
            side_picture: opt_text(self.side_picture),
            process_id: opt_text(self.process_id),
            raw: text_map(self.raw),
        }
    }
}

/// The configuration that the values of a section stand for.
pub open spec fn configured(section: Seq<char>, values: Map<Seq<char>, Seq<char>>) -> Result<
    ConfigRecord,
    ErrorRecord,
> {
    let width = required_number(values, section, "WIDTH"@);
    let height = required_number(values, section, "HEIGHT"@);
    let boot = required(values, section, "BOOT"@);
    let fps = optional_number(values, section, "FPS"@);
    match (width, height, boot, fps) {
        (Err(error), _, _, _) => Err(error),
        (_, Err(error), _, _) => Err(error),
        (_, _, Err(error), _) => Err(error),
        (_, _, _, Err(error)) => Err(error),
        (Ok(width), Ok(height), Ok(boot), Ok(fps)) => Ok(
            ConfigRecord {
                platform: section,
                stage_width: width,
                stage_height: height,
                fps: match fps {
                    Some(n) => n,
                    None => 60,
                },
                charset: match optional(values, "CHARSET"@) {
                    Some(name) => name,
                    None => "UTF-8"@,
                },
                boot_script: boot,
                frameless: switched_on(values, "FRAMELESS"@),
                resizable: switched_on(values, "RESIZABLE"@),
                fixed_aspect_ratio: switched_on(values, "FIXED_ASPECT_RATIO"@),
                sidecut: switched_on(values, "SIDECUT"@),
                power_saving: switched_on(values, "POWER_SAVING"@),
                no_save: switched_on(values, "NO_SAVE"@),
                savepath: optional(values, "SAVEPATH"@),
                side_picture: optional(values, "SIDE_PICTURE"@),
                process_id: optional(values, "PREVENT_MULTIPLE_PROCESS"@),
                raw: values,
            },
        ),
    }
}

/// The configuration of a platform in the text of a `system.ini`.
pub open spec fn system_ini(contents: Seq<char>, platform: Seq<char>) -> Result<
    ConfigRecord,
    ErrorRecord,
> {
    let section = upper(trim(platform));
    let sections = ini_sections(contents);
    if sections.contains_key(section) {
        configured(section, sections[section])
    } else {
        Err(ErrorRecord::MissingIniSection { section })
    }
}

/// The encoding of script files.
#[derive(Clone, Copy, PartialEq, Eq, Debug, Structural)]
pub enum ScriptEncoding {
    ShiftJis,
    Utf8,
}

/// The environment of the script interpreter.
pub struct InterpreterConfig {
    pub encoding: ScriptEncoding,
    pub stage_width: u32,
    pub stage_height: u32,
    pub fps: u32,
    pub frameless: bool,
    pub resizable: bool,
    pub fixed_aspect_ratio: bool,
    pub sidecut: bool,
    pub side_picture: Option<String>,
    pub power_saving: bool,
    pub no_save: bool,
    pub savepath: Option<String>,
    pub datapath: Option<String>,
    pub title: Option<String>,
    pub process_id: Option<String>,
    pub env: NameMap<String>,
    pub platform: String,
}

/// The script encoding that a character set stands for.
pub open spec fn script_encoding(charset: Seq<char>) -> ScriptEncoding {
    let key = upper(charset);
    if key == "SHIFT_JIS"@ || key == "SHIFT-JIS"@ || key == "SJIS"@ {
        ScriptEncoding::ShiftJis
    } else {
        ScriptEncoding::Utf8
    }
}

impl ProjectConfig {
    /// The raw values have no key twice.
    pub open spec fn wf(self) -> bool {
        self.raw.wf()
    }

    /// Reads a `system.ini` text and selects a platform section such as
    /// `WINDOWS`, `ANDROID`, `IOS` or `WASM`.
    pub fn from_system_ini(contents: &str, platform: &str) -> (out: Result<Self, CoreError>)
        ensures
            match system_ini(contents@, platform@) {
                Ok(record) => out matches Ok(config) && config@ == record && config.wf(),
                Err(error) => out matches Err(e) && e@ == error,
            },
    {
        let mut sections = parse_ini(contents);
        let plain = trimmed(platform);
        let section = to_upper(plain.as_str());
        let ghost all = sections@;
        let values = match sections.remove(section.as_str()) {
            Some(values) => values,
            None => {
                return Err(CoreError::MissingIniSection { section });
            },
        };
        assert(all.contains_key(section@));
        let name = section.as_str();
        let stage_width: u32 = match required_u32(&values, name, "WIDTH") {
            Ok(n) => n,
            Err(error) => {
                return Err(error);
            },
        };
        let stage_height: u32 = match required_u32(&values, name, "HEIGHT") {
            Ok(n) => n,
            Err(error) => {
                return Err(error);
            },
        };
        let boot_script = match required_string(&values, name, "BOOT") {
            Ok(text) => text,
            Err(error) => {
                return Err(error);
            },
        };
        let fps: u32 = match optional_u32(&values, name, "FPS") {
            Ok(Some(n)) => n,
            Ok(None) => 60,
            Err(error) => {
                return Err(error);
            },
        };
        let charset = match optional_string(&values, "CHARSET") {
            Some(text) => text,
            None => copy_text("UTF-8"),
        };
        let frameless = ini_bool(&values, "FRAMELESS");
        let resizable = ini_bool(&values, "RESIZABLE");
        let fixed_aspect_ratio = ini_bool(&values, "FIXED_ASPECT_RATIO");
        let sidecut = ini_bool(&values, "SIDECUT");
        let power_saving = ini_bool(&values, "POWER_SAVING");
        let no_save = ini_bool(&values, "NO_SAVE");
        let savepath = optional_string(&values, "SAVEPATH");
        let side_picture = optional_string(&values, "SIDE_PICTURE");
        let process_id = optional_string(&values, "PREVENT_MULTIPLE_PROCESS");
        let platform = copy_text(name);
        Ok(
            ProjectConfig {
                platform,
                stage_width,
                stage_height,
                fps,
                charset,
                boot_script,
                frameless,
                resizable,
                fixed_aspect_ratio,
                sidecut,
                power_saving,
                no_save,
                savepath,
                side_picture,
                process_id,
                raw: values,
            },
        )
    }

    /// The environment of the script interpreter: the platform in lower case,
    /// with the project's directory as the data path.
    pub fn to_interpreter_config(&self, project_root: Option<&str>) -> (out: InterpreterConfig)
        requires
            self.wf(),
        ensures
            out.encoding == script_encoding(self@.charset),
            out.stage_width == self.stage_width,
            out.stage_height == self.stage_height,
            out.fps == self.fps,
            out.frameless == self.frameless,
            out.resizable == self.resizable,
            out.fixed_aspect_ratio == self.fixed_aspect_ratio,
            out.sidecut == self.sidecut,
            opt_text(out.side_picture) == self@.side_picture,
            out.power_saving == self.power_saving,
            out.no_save == self.no_save,
            opt_text(out.savepath) == self@.savepath,
            opt_text(out.datapath) == (match project_root {
                Some(root) => Some(root@),
                None => None,
            }),
            out.title is None,
            opt_text(out.process_id) == self@.process_id,
            out.env.wf(),
            text_map(out.env) == self@.raw,
            out.platform@ == lower(self@.platform),
    {
        let key = to_upper(self.charset.as_str());
        let key = key.as_str();
        let encoding = if same_text(key, "SHIFT_JIS") || same_text(key, "SHIFT-JIS") || same_text(
            key,
            "SJIS",
        ) {
            ScriptEncoding::ShiftJis
        } else {
            ScriptEncoding::Utf8
        };
        InterpreterConfig {
            encoding,
            stage_width: self.stage_width,
            stage_height: self.stage_height,
            fps: self.fps,
            frameless: self.frameless,
            resizable: self.resizable,
            fixed_aspect_ratio: self.fixed_aspect_ratio,
            sidecut: self.sidecut,
            side_picture: copy_opt(&self.side_picture),
            power_saving: self.power_saving,
            no_save: self.no_save,
            savepath: copy_opt(&self.savepath),
            datapath: match project_root {
                Some(root) => Some(copy_text(root)),
                None => None,
            },
            title: None,
            process_id: copy_opt(&self.process_id),
            env: copy_text_map(&self.raw),
            platform: to_lower(self.platform.as_str()),
        }
    }
}

// ── Project paths ──────────────────────────────────────────────

/// A path with one more part behind it.
pub open spec fn path_push(base: Seq<char>, part: Seq<char>) -> Seq<char> {
    if base.len() == 0 || base.last() == '/' {
        base + part
    } else {
        base.push('/') + part
    }
}

/// A path with parts behind it.
pub open spec fn path_push_all(base: Seq<char>, parts: Seq<Seq<char>>) -> Seq<char>
    decreases parts.len(),
{
    if parts.len() == 0 {
        base
    } else {
        path_push(path_push_all(base, parts.drop_last()), parts.last())
    }
}

/// Where a script path leads below a root: nowhere if it is absolute or holds a
/// parent part.
pub open spec fn project_path(root: Seq<char>, virtual_path: Seq<char>) -> Option<Seq<char>> {
    if virtual_path.len() > 0 && (virtual_path[0] == '/' || virtual_path[0] == '\\') {
        None
    } else {
        match clean(PartRule::Lookup, virtual_path) {
            Some(parts) => Some(path_push_all(root, parts)),
            None => None,
        }
    }
}

/// Resolves a script path below a root directory.
pub fn resolve_project_path(root: &str, virtual_path: &str) -> (out: Result<String, CoreError>)
    ensures
        match project_path(root@, virtual_path@) {
            Some(path) => out matches Ok(text) && text@ == path,
            None => out matches Err(error) && error@ == (ErrorRecord::InvalidProjectPath {
                path: virtual_path@,
            }),
        },
{
    let chars = chars_of(virtual_path);
    if chars.len() > 0 && (chars[0] == '/' || chars[0] == '\\') {
        return Err(CoreError::InvalidProjectPath { path: copy_text(virtual_path) });
    }
    let parts = match clean_parts(PartRule::Lookup, virtual_path) {
        Some(parts) => parts,
        None => {
            return Err(CoreError::InvalidProjectPath { path: copy_text(virtual_path) });
        },
    };
    let mut out = copy_text(root);
    let mut i: usize = 0;
    let ghost all = texts(parts@);
    while i < parts.len()
        invariant
            i <= parts.len(),
            all == texts(parts@),
            out@ == path_push_all(root@, all.take(i as int)),
        decreases parts.len() - i,
    {
        proof {
            assert(all.take(i + 1).drop_last() =~= all.take(i as int));
            assert(all.take(i + 1).last() == parts@[i as int]@);
        }
        let count: usize = char_count(out.as_str());
        if count > 0 && out.as_str().get_char(count - 1) != '/' {
            push_char(&mut out, '/');
        }
        out.append(parts[i].as_str());
        i += 1;
    }
    assert(all.take(i as int) =~= all);
    Ok(out)
}

/// An unpacked project directory with its configuration.
pub struct Project {
    root: String,
    config: ProjectConfig,
}

impl Project {
    pub closed spec fn spec_root(self) -> Seq<char> {
        self.root@
    }

    pub closed spec fn spec_config(self) -> ConfigRecord {
        self.config@
    }

    pub closed spec fn wf(self) -> bool {
        self.config.wf()
    }

    /// Opens a project from the text of its `system.ini`. The root is kept for
    /// resolving paths and not read from.
    pub fn open_from_data(root: &str, ini_content: &str, platform: &str) -> (out: Result<
        Self,
        CoreError,
    >)
        ensures
            match system_ini(ini_content@, platform@) {
                Ok(record) => out matches Ok(project) && project.spec_root() == root@
                    && project.spec_config() == record && project.wf(),
                Err(error) => out matches Err(e) && e@ == error,
            },
    {
        match ProjectConfig::from_system_ini(ini_content, platform) {
            Ok(config) => Ok(Project { root: copy_text(root), config }),
            Err(error) => Err(error),
        }
    }

    pub fn root(&self) -> (out: &str)
        ensures
            out@ == self.spec_root(),
    {
        self.root.as_str()
    }

    pub fn config(&self) -> (out: &ProjectConfig)
        requires
            self.wf(),
        ensures
            out@ == self.spec_config(),
            out.wf(),
    {
        &self.config
    }

    /// Resolves a script or resource path of the project.
    pub fn resolve_path(&self, virtual_path: &str) -> (out: Result<String, CoreError>)
        ensures
            match project_path(self.spec_root(), virtual_path@) {
                Some(path) => out matches Ok(text) && text@ == path,
                None => out matches Err(error) && error@ == (ErrorRecord::InvalidProjectPath {
                    path: virtual_path@,
                }),
            },
    {
        resolve_project_path(self.root.as_str(), virtual_path)
    }
}

// ── Boot ───────────────────────────────────────────────────────

/// The label at which a boot script starts: the first of `top`, `main`, `start`
/// and `_start` that the script has.
pub open spec fn boot_label(labels: Seq<Seq<char>>) -> Option<Seq<char>> {
    if labels.contains("top"@) {
        Some("top"@)
    } else if labels.contains("main"@) {
        Some("main"@)
    } else if labels.contains("start"@) {
        Some("start"@)
    } else if labels.contains("_start"@) {
        Some("_start"@)
    } else {
        None
    }
}

/// Chooses the label at which a boot script starts; without one the
/// interpreter's own boot entry is used.
pub fn start_boot_label(labels: &Vec<String>) -> (out: Option<String>)
    ensures
        opt_text(out) == boot_label(texts(labels@)),
{
    if list_has(labels, "top") {
        Some(copy_text("top"))
    } else if list_has(labels, "main") {
        Some(copy_text("main"))
    } else if list_has(labels, "start") {
        Some(copy_text("start"))
    } else if list_has(labels, "_start") {
        Some(copy_text("_start"))
    } else {
        None
    }
}

// ── What holds of configuration and paths ──────────────────────

proof fn lemma_push_all_prefix(base: Seq<char>, parts: Seq<Seq<char>>)
    ensures
        base.len() <= path_push_all(base, parts).len(),
        path_push_all(base, parts).take(base.len() as int) == base,
    decreases parts.len(),
{
    if parts.len() > 0 {
        lemma_push_all_prefix(base, parts.drop_last());
        let inner = path_push_all(base, parts.drop_last());
        let whole = path_push_all(base, parts);
        assert(whole.take(base.len() as int) =~= inner.take(base.len() as int));
    } else {
        assert(base.take(base.len() as int) =~= base);
    }
}

/// A resolved path starts with the root and never climbs out of it: no part
/// behind the root is a parent part.
pub proof fn law_project_path_stays_inside(root: Seq<char>, virtual_path: Seq<char>)
    requires
        project_path(root, virtual_path) is Some,
    ensures
        project_path(root, virtual_path)->0.take(root.len() as int) == root,
        exists|parts: Seq<Seq<char>>|
            project_path(root, virtual_path)->0 == #[trigger] path_push_all(root, parts) && (forall|
                i: int,
            |
                0 <= i < parts.len() ==> (#[trigger] parts[i]) != ".."@ && parts[i].len() > 0
                    && !parts[i].contains('/') && !parts[i].contains('\\')),
{
    let parts = clean(PartRule::Lookup, virtual_path)->0;
    lemma_push_all_prefix(root, parts);
    let pieces = crate::paths::path_pieces(virtual_path);
    crate::paths::lemma_kept_parts_clean(PartRule::Lookup, virtual_path, pieces.len() as int);
    assert(pieces.take(pieces.len() as int) =~= pieces);
    assert forall|i: int| 0 <= i < parts.len() implies (#[trigger] parts[i]) != ".."@
        && parts[i].len() > 0 && !parts[i].contains('/') && !parts[i].contains('\\') by {
        assert(crate::paths::clean_part(PartRule::Lookup, parts[i]));
    }
    assert(project_path(root, virtual_path)->0 == path_push_all(root, parts));
}

/// A later line of the open section replaces the value of an earlier one.
pub proof fn law_later_value_wins(raw: Seq<Seq<char>>, line: Seq<char>)
    requires
        ini_after(raw).current is Some,
        trim(line).len() > 0,
        trim(line)[0] != ';',
        trim(line)[0] != '#',
        !is_section_line(trim(line)),
        find(trim(line), '=') < trim(line).len(),
    ensures
        ({
            let section = ini_after(raw).current->0;
            let text = trim(line);
            let at = find(text, '=');
            let values = ini_after(raw.push(line)).sections[section];
            let key = upper(trim(text.take(at)));
            &&& values.contains_key(key)
            &&& values[key] == trim(text.skip(at + 1))
        }),
{
    assert(raw.push(line).drop_last() =~= raw);
}

/// The section that is open was read: its values are there.
pub proof fn law_open_section_is_known(raw: Seq<Seq<char>>)
    ensures
        ini_after(raw).current matches Some(name) ==> ini_after(raw).sections.contains_key(name),
    decreases raw.len(),
{
    if raw.len() > 0 {
        law_open_section_is_known(raw.drop_last());
    }
}

/// Whether a text is a name, in capitals, small letters or both.
pub open spec fn in_any_case(text: Seq<char>, name: Seq<char>) -> bool {
    &&& text.len() == name.len()
    &&& forall|i: int|
        0 <= i < name.len() ==> #[trigger] text[i] == name[i] || text[i]
            == crate::strs::lower_char(name[i])
}

proof fn lemma_any_case(text: Seq<char>, name: Seq<char>)
    requires
        forall|i: int| 0 <= i < name.len() ==> !('a' <= (#[trigger] name[i]) <= 'z'),
    ensures
        upper(text) == name <==> in_any_case(text, name),
{
    assert forall|i: int| 0 <= i < text.len() && i < name.len() implies (upper(text)[i] == name[i]
        <==> (text[i] == name[i] || text[i] == crate::strs::lower_char(name[i]))) by {
        assert(upper(text)[i] == crate::strs::upper_char(text[i]));
        crate::strs::law_case_is_undone(text[i], name[i]);
    }
    if upper(text) == name {
        assert forall|i: int| 0 <= i < name.len() implies #[trigger] text[i] == name[i] || text[i]
            == crate::strs::lower_char(name[i]) by {
            assert(upper(text)[i] == name[i]);
        }
    }
    if in_any_case(text, name) {
        assert(upper(text) =~= name);
    }
}

/// The scripts of a project are in Shift_JIS exactly where its character set is
/// called `SHIFT_JIS`, `SHIFT-JIS` or `SJIS`, in capitals or small letters, and in
/// UTF-8 else.
pub proof fn law_shift_jis_has_three_names(charset: Seq<char>)
    ensures
        script_encoding(charset) == ScriptEncoding::ShiftJis <==> (in_any_case(
            charset,
            "SHIFT_JIS"@,
        ) || in_any_case(charset, "SHIFT-JIS"@) || in_any_case(charset, "SJIS"@)),
        script_encoding(charset) == ScriptEncoding::Utf8 <==> !(in_any_case(charset, "SHIFT_JIS"@)
            || in_any_case(charset, "SHIFT-JIS"@) || in_any_case(charset, "SJIS"@)),
{
    reveal_strlit("SHIFT_JIS");
    reveal_strlit("SHIFT-JIS");
    reveal_strlit("SJIS");
    lemma_any_case(charset, "SHIFT_JIS"@);
    lemma_any_case(charset, "SHIFT-JIS"@);
    lemma_any_case(charset, "SJIS"@);
}

/// A line with an equals sign sets one value of the open section: the key is what
/// stands before the first equals sign, in capitals, the value what stands behind
/// it, both without white space around them. Every other value stays, and the
/// section stays open.
pub proof fn law_values_are_set(raw: Seq<Seq<char>>, key: Seq<char>, value: Seq<char>)
    requires
        ini_after(raw).current is Some,
        key.len() > 0,
        !key.contains('='),
        !is_white(key[0]),
        key[0] != ';',
        key[0] != '#',
        key[0] != '[',
        value.len() > 0,
        !is_white(value.last()),
    ensures
        ({
            let before = ini_after(raw);
            let after = ini_after(raw.push(key.push('=') + value));
            let section = before.current->0;
            &&& after.current == before.current
            &&& after.sections[section][upper(trim(key))] == trim(value)
            &&& forall|name: Seq<char>| #[trigger]
                after.sections.contains_key(name) <==> before.sections.contains_key(name)
            &&& forall|name: Seq<char>|
                before.sections.contains_key(name) && name != section
                    ==> #[trigger] after.sections[name] == before.sections[name]
            &&& forall|other: Seq<char>| #[trigger]
                after.sections[section].contains_key(other)
                    <==> before.sections[section].contains_key(other) || other == upper(trim(key))
            &&& forall|other: Seq<char>|
                before.sections[section].contains_key(other) && other != upper(trim(key))
                    ==> #[trigger] after.sections[section][other]
                    == before.sections[section][other]
        }),
{
    law_open_section_is_known(raw);
    let line = key.push('=') + value;
    assert(raw.push(line).drop_last() =~= raw);
    assert(raw.push(line).last() == line);
    let none = Seq::<char>::empty();
    crate::strs::law_trimming_takes_white_space(none, line, none);
    assert(none + line + none =~= line);
    assert(trim(line) == line);
    assert(line[0] == key[0]);
    assert forall|j: int| 0 <= j < key.len() implies line[j] != '=' by {
        assert(line[j] == key[j]);
        assert(key.contains(key[j]));
    }
    crate::strs::lemma_find_is(line, '=', key.len() as int);
    assert(line.take(key.len() as int) =~= key);
    assert(line.skip(key.len() as int + 1) =~= value);
}

/// A line between square brackets opens the section of that name, in capitals and
/// without white space around it. A section that is opened again keeps its values,
/// and so does every other one.
pub proof fn law_sections_are_opened(raw: Seq<Seq<char>>, name: Seq<char>)
    ensures
        ({
            let before = ini_after(raw);
            let after = ini_after(raw.push(seq!['['] + name + seq![']']));
            let section = upper(trim(name));
            &&& after.current == Some(section)
            &&& after.sections.contains_key(section)
            &&& !before.sections.contains_key(section) ==> after.sections[section]
                == Map::<Seq<char>, Seq<char>>::empty()
            &&& forall|other: Seq<char>| #[trigger]
                after.sections.contains_key(other) <==> before.sections.contains_key(other) || other
                    == section
            &&& forall|other: Seq<char>|
                before.sections.contains_key(other) ==> #[trigger] after.sections[other]
                    == before.sections[other]
        }),
{
    let line = seq!['['] + name + seq![']'];
    assert(raw.push(line).drop_last() =~= raw);
    assert(raw.push(line).last() == line);
    let none = Seq::<char>::empty();
    assert(line[0] == '[');
    assert(line.last() == ']');
    crate::strs::law_trimming_takes_white_space(none, line, none);
    assert(none + line + none =~= line);
    assert(line.subrange(1, line.len() - 1) =~= name);
}

/// Blank lines, comments, lines without an equals sign and values before the first
/// section mean nothing. Nothing is known before the first line.
pub proof fn law_other_lines_mean_nothing(raw: Seq<Seq<char>>, line: Seq<char>)
    requires
        ({
            let text = trim(line);
            ||| text.len() == 0
            ||| text[0] == ';'
            ||| text[0] == '#'
            ||| !(text[0] == '[' && text[text.len() - 1] == ']' && text.len() > 1) && (
            !text.contains('=') || ini_after(raw).current is None)
        }),
    ensures
        ini_after(raw.push(line)) == ini_after(raw),
        ini_after(Seq::empty()).sections == Map::<
            Seq<char>,
            Map<Seq<char>, Seq<char>>,
        >::empty(),
        ini_after(Seq::empty()).current is None,
{
    assert(raw.push(line).drop_last() =~= raw);
    assert(raw.push(line).last() == line);
    let text = trim(line);
    if text.len() > 0 && !text.contains('=') {
        assert forall|j: int| 0 <= j < text.len() implies text[j] != '=' by {
            assert(text.contains(text[j]));
        }
        crate::strs::lemma_find_is(text, '=', text.len() as int);
    }
}

/// The configuration of a platform is that of the section of its name, in capitals
/// and without white space around it, of all the lines of the file; without such
/// a section there is none.
pub proof fn law_platforms_have_sections(contents: Seq<char>, platform: Seq<char>)
    ensures
        ({
            let section = upper(trim(platform));
            let sections = ini_after(lines(contents)).sections;
            &&& sections.contains_key(section) ==> system_ini(contents, platform) == configured(
                section,
                sections[section],
            )
            &&& !sections.contains_key(section) ==> system_ini(contents, platform) == Err::<
                ConfigRecord,
                ErrorRecord,
            >(ErrorRecord::MissingIniSection { section })
        }),
{
}

/// Whether a switch is on: it is called `1`, `true`, `on` or `yes`, in capitals or
/// small letters, with or without white space around it.
pub open spec fn says_yes(values: Map<Seq<char>, Seq<char>>, key: Seq<char>) -> bool {
    values.contains_key(key) && (lower(trim(values[key])) == "1"@ || lower(trim(values[key]))
        == "true"@ || lower(trim(values[key])) == "on"@ || lower(trim(values[key])) == "yes"@)
}

proof fn lemma_plain_number(n: nat)
    ensures
        decimal(trim(decimal_text(n))) == Some(n),
        decimal_text(n).len() > 0,
{
    let text = decimal_text(n);
    crate::strs::lemma_decimal_reads_back(n);
    crate::strs::law_numbers_read_back(n, text, 0);
    assert(crate::strs::is_digit(text[0]));
    assert(crate::strs::is_digit(text[text.len() - 1]));
    let none = Seq::<char>::empty();
    crate::strs::law_trimming_takes_white_space(none, text, none);
    assert(none + text + none =~= text);
}

/// A section with a width, a height and a script to start with is a configuration.
/// Each of its values is that of its own key; the frames of a second are 60 and
/// the character set is UTF-8 where nothing is said of them, and a switch is off
/// where it is not on.
pub proof fn law_sections_are_configurations(
    section: Seq<char>,
    values: Map<Seq<char>, Seq<char>>,
    width: u32,
    height: u32,
    fps: u32,
)
    requires
        values.contains_key("WIDTH"@) && values["WIDTH"@] == decimal_text(width as nat),
        values.contains_key("HEIGHT"@) && values["HEIGHT"@] == decimal_text(height as nat),
        values.contains_key("BOOT"@) && values["BOOT"@].len() > 0,
        values.contains_key("FPS"@) ==> values["FPS"@] == decimal_text(fps as nat),
    ensures
        configured(section, values) matches Ok(config) && {
            &&& config.platform == section
            &&& config.stage_width == width
            &&& config.stage_height == height
            &&& config.fps == (if values.contains_key("FPS"@) {
                fps
            } else {
                60
            })
            &&& config.charset == (if values.contains_key("CHARSET"@) {
                values["CHARSET"@]
            } else {
                "UTF-8"@
            })
            &&& config.boot_script == values["BOOT"@]
            &&& config.frameless <==> says_yes(values, "FRAMELESS"@)
            &&& config.resizable <==> says_yes(values, "RESIZABLE"@)
            &&& config.fixed_aspect_ratio <==> says_yes(values, "FIXED_ASPECT_RATIO"@)
            &&& config.sidecut <==> says_yes(values, "SIDECUT"@)
            &&& config.power_saving <==> says_yes(values, "POWER_SAVING"@)
            &&& config.no_save <==> says_yes(values, "NO_SAVE"@)
            &&& config.savepath == (if values.contains_key("SAVEPATH"@) {
                Some(values["SAVEPATH"@])
            } else {
                None
            })
            &&& config.side_picture == (if values.contains_key("SIDE_PICTURE"@) {
                Some(values["SIDE_PICTURE"@])
            } else {
                None
            })
            &&& config.process_id == (if values.contains_key("PREVENT_MULTIPLE_PROCESS"@) {
                Some(values["PREVENT_MULTIPLE_PROCESS"@])
            } else {
                None
            })
            &&& config.raw == values
        },
{
    lemma_plain_number(width as nat);
    lemma_plain_number(height as nat);
    lemma_plain_number(fps as nat);
}

/// What a section lacks is named: first its width, then its height, then the
/// script to start with. A value that is no number of 32 bits is named too.
pub proof fn law_sections_name_what_is_wrong(
    section: Seq<char>,
    values: Map<Seq<char>, Seq<char>>,
    key: Seq<char>,
)
    ensures
        (!values.contains_key("WIDTH"@) || values["WIDTH"@].len() == 0) ==> configured(
            section,
            values,
        ) == Err::<ConfigRecord, ErrorRecord>(
            ErrorRecord::MissingIniKey { section, key: "WIDTH"@ },
        ),
        required_number(values, section, "WIDTH"@) is Ok && (!values.contains_key("HEIGHT"@)
            || values["HEIGHT"@].len() == 0) ==> configured(section, values) == Err::<
            ConfigRecord,
            ErrorRecord,
        >(ErrorRecord::MissingIniKey { section, key: "HEIGHT"@ }),
        required_number(values, section, "WIDTH"@) is Ok && required_number(
            values,
            section,
            "HEIGHT"@,
        ) is Ok && (!values.contains_key("BOOT"@) || values["BOOT"@].len() == 0) ==> configured(
            section,
            values,
        ) == Err::<ConfigRecord, ErrorRecord>(
            ErrorRecord::MissingIniKey { section, key: "BOOT"@ },
        ),
        values.contains_key(key) && values[key].len() > 0 && (decimal(trim(values[key])) is None
            || decimal(trim(values[key]))->0 > u32::MAX) ==> required_number(values, section, key)
            == Err::<u32, ErrorRecord>(
            ErrorRecord::InvalidIniNumber { section, key, value: values[key] },
        ) && optional_number(values, section, key) == Err::<Option<u32>, ErrorRecord>(
            ErrorRecord::InvalidIniNumber { section, key, value: values[key] },
        ),
        !values.contains_key(key) ==> optional_number(values, section, key) == Ok::<
            Option<u32>,
            ErrorRecord,
        >(None),
        configured(section, values) is Ok ==> required_number(values, section, "WIDTH"@) is Ok
            && required_number(values, section, "HEIGHT"@) is Ok && optional_number(
            values,
            section,
            "FPS"@,
        ) is Ok,
{
}

/// What is shown for an error names what it is about.
pub proof fn law_errors_say_what_is_wrong(section: Seq<char>, key: Seq<char>, value: Seq<char>)
    ensures
        error_text(ErrorRecord::MissingIniSection { section }) == "system.ini section ["@ + section
            + "] was not found"@,
        error_text(ErrorRecord::MissingIniKey { section, key }) == "system.ini ["@ + section
            + "] is missing key "@ + key,
        error_text(ErrorRecord::InvalidIniNumber { section, key, value }) == "system.ini ["@
            + section + "] key "@ + key + " has invalid number "@ + debug_quoted(value),
        error_text(ErrorRecord::InvalidProjectPath { path: value }) == "project path "@
            + debug_quoted(value) + " must be relative and stay inside the project"@,
{
}

/// The path of a script is found below the root: its parts stand behind the root,
/// each after a slash. A path that begins with a slash, of either kind, or has a
/// parent part, leads nowhere.
pub proof fn law_project_paths_are_below_the_root(
    root: Seq<char>,
    parts: Seq<Seq<char>>,
    part: Seq<char>,
    path: Seq<char>,
)
    ensures
        path.len() > 0 && (path[0] == '/' || path[0] == '\\') ==> project_path(root, path) is None,
        clean(PartRule::Lookup, path) is None ==> project_path(root, path) is None,
        !(path.len() > 0 && (path[0] == '/' || path[0] == '\\')) ==> (clean(
            PartRule::Lookup,
            path,
        ) matches Some(kept) ==> project_path(root, path) == Some(path_push_all(root, kept))),
        path_push_all(root, Seq::empty()) == root,
        ({
            let before = path_push_all(root, parts);
            path_push_all(root, parts.push(part)) == (if before.len() == 0 || before.last() == '/' {
                before + part
            } else {
                before + seq!['/'] + part
            })
        }),
{
    assert(parts.push(part).drop_last() =~= parts);
    let before = path_push_all(root, parts);
    assert(before.push('/') + part =~= before + seq!['/'] + part);
}

/// A boot script starts at the first label that it has of `top`, `main`, `start`
/// and `_start`, whatever order the script has them in.
pub proof fn law_boot_labels_have_an_order(labels: Seq<Seq<char>>)
    ensures
        labels.contains("top"@) ==> boot_label(labels) == Some("top"@),
        !labels.contains("top"@) && labels.contains("main"@) ==> boot_label(labels) == Some(
            "main"@,
        ),
        !labels.contains("top"@) && !labels.contains("main"@) && labels.contains("start"@)
            ==> boot_label(labels) == Some("start"@),
        !labels.contains("top"@) && !labels.contains("main"@) && !labels.contains("start"@)
            && labels.contains("_start"@) ==> boot_label(labels) == Some("_start"@),
        !labels.contains("top"@) && !labels.contains("main"@) && !labels.contains("start"@)
            && !labels.contains("_start"@) ==> boot_label(labels) is None,
{
}

} // verus!
