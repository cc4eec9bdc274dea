use vstd::prelude::*;
use vstd::string::*;
use vstd::utf8::encode_utf8;

use crate::config::{
    lemma_get_after_set, opt_nonempty, profile_field, Field, spec_field, spec_get, spec_get_view, spec_label, spec_section,
    spec_set, Config, Profile, Section, PROFILE_FIELD_COUNT,
};
use crate::strmap::{strictly_sorted, StrMap};
use crate::text::{char_to_byte, is_trim_of, lemma_trim_unique, string_insert, string_remove, trim};

verus! {

// ── input ──────────────────────────────────────────────────────────────────

/// Which panel has the keyboard.
#[derive(Clone, Copy, Debug, PartialEq, Eq, Structural)]
pub enum Focus {
    Left,
    Right,
}

/// A key as the profile manager reads it.
#[derive(Clone, Copy, Debug, PartialEq, Eq, Structural)]
pub enum Key {
    Enter,
    Esc,
    Backspace,
    Left,
    Right,
    Up,
    Down,
    Char(char),
    Other,
}

/// A key press, with whether Control was held.
#[derive(Clone, Copy, Debug)]
pub struct KeyPress {
    pub key: Key,
    pub ctrl: bool,
}

/// Text being typed: a field's new value, or a new profile's name.
/// `cursor` is a character index.
pub enum InputState {
    Idle,
    Editing { buffer: String, cursor: usize },
    Creating { buffer: String, cursor: usize },
}

/// The text being typed, as characters.
pub enum InputView {
    Idle,
    Editing { buffer: Seq<char>, cursor: nat },
    Creating { buffer: Seq<char>, cursor: nat },
}

impl View for InputState {
    type V = InputView;

    open spec fn view(&self) -> InputView {
        match self {
            InputState::Idle => InputView::Idle,
            InputState::Editing { buffer, cursor } => InputView::Editing {
                buffer: buffer@,
                cursor: *cursor as nat,
            },
            InputState::Creating { buffer, cursor } => InputView::Creating {
                buffer: buffer@,
                cursor: *cursor as nat,
            },
        }
    }
}

/// The text after an editing key: Backspace takes out the character before the
/// cursor, a character goes in at the cursor (at the end when the cursor is past it).
pub open spec fn edit_buffer(b: Seq<char>, c: nat, key: Key) -> Seq<char> {
    match key {
        Key::Backspace => if c > 0 {
            b.remove(c - 1)
        } else {
            b
        },
        Key::Char(ch) => b.insert(if c <= b.len() { c as int } else { b.len() as int }, ch),
        _ => b,
    }
}

/// The cursor after an editing key.
pub open spec fn edit_cursor(b: Seq<char>, c: nat, key: Key) -> nat {
    match key {
        Key::Backspace => if c > 0 {
            (c - 1) as nat
        } else {
            c
        },
        Key::Left => if c > 0 {
            (c - 1) as nat
        } else {
            0
        },
        Key::Right => if c + 1 <= b.len() {
            c + 1
        } else {
            b.len()
        },
        Key::Char(_) => c + 1,
        _ => c,
    }
}

/// Handles a key press during text editing.
/// `cursor` is a **character** index (not a byte index).
pub fn handle_edit_key(buffer: &mut String, cursor: &mut usize, key: Key)
    requires
        key is Backspace && *old(cursor) > 0 ==> *old(cursor) <= old(buffer)@.len(),
        key is Char && *old(cursor) > old(buffer)@.len() ==> *old(cursor) < usize::MAX,
    ensures
        final(buffer)@ == edit_buffer(old(buffer)@, *old(cursor) as nat, key),
        *final(cursor) == edit_cursor(old(buffer)@, *old(cursor) as nat, key),
{
    match key {
        Key::Backspace => {
            if *cursor > 0 {
                let prev = *cursor - 1;
                let byte_pos = char_to_byte(buffer.as_str(), prev);
                string_remove(buffer, byte_pos);
                *cursor = prev;
            }
        },
        Key::Left => {
            if *cursor > 0 {
                *cursor = *cursor - 1;
            }
        },
        Key::Right => {
            let char_count = buffer.as_str().unicode_len();
            *cursor = if *cursor < char_count { *cursor + 1 } else { char_count };
        },
        Key::Char(c) => {
            let ghost k: int = if *cursor <= buffer@.len() { *cursor as int } else { buffer@.len() as int };
            let byte_pos = char_to_byte(buffer.as_str(), *cursor);
            string_insert(buffer, byte_pos, c);
            // the text now holds more characters than the cursor's index
            let count: usize = buffer.as_str().unicode_len();
            assert(*cursor <= old(buffer)@.len() ==> *cursor < count);
            *cursor = *cursor + 1;
        },
        _ => {},
    }
}

/// `buffer` with the cursor block `█` put in at character index `cursor`
/// (at the end when the cursor is past it).
pub fn with_cursor_mark(buffer: &str, cursor: usize) -> (display: String)
    ensures
        display@ == buffer@.insert(
            if cursor <= buffer@.len() { cursor as int } else { buffer@.len() as int },
            '█',
        ),
        display@ == marked(buffer@, cursor as nat),
{
    let ghost k: int = if cursor <= buffer@.len() { cursor as int } else { buffer@.len() as int };
    let byte_pos = char_to_byte(buffer, cursor);
    let mut display = buffer.to_owned();
    string_insert(&mut display, byte_pos, '█');
    display
}

// ── rows ───────────────────────────────────────────────────────────────────

/// The marker in front of a row.
pub open spec fn spec_bullet(focused: bool, current: bool) -> Seq<char> {
    if focused && current {
        " ▸"@
    } else {
        "  "@
    }
}

/// Cursor marker for the focused row.
pub fn bullet(focused: bool, current: bool) -> (m: &'static str)
    ensures
        m@ == spec_bullet(focused, current),
{
    if focused && current {
        " ▸"
    } else {
        "  "
    }
}

/// The number of sections that start at or before field `i`, less one.
pub open spec fn section_number(i: int) -> int {
    if i == 0 {
        0
    } else if i <= 6 {
        1
    } else {
        2
    }
}

/// The row of field `i` in the right panel: one row per field, plus a header
/// row before each section.
pub open spec fn field_row(i: int) -> int {
    i + 1 + section_number(i)
}

fn starts_section(prev: Option<Section>, s: Section) -> (b: bool)
    ensures
        b == (prev != Some(s)),
{
    match prev {
        Some(p) => p != s,
        None => true,
    }
}

/// The row of field `field_idx` in the right panel.
///
/// Walks the fields as the rows are built: one row per field plus a header per
/// section.
pub fn field_list_idx_of(field_idx: usize) -> (row: usize)
    requires
        field_idx < PROFILE_FIELD_COUNT,
    ensures
        row == field_row(field_idx as int),
{
    let mut visual: usize = 0;
    let mut prev_section: Option<Section> = None;
    let mut i: usize = 0;
    while i < PROFILE_FIELD_COUNT
        invariant
            i <= field_idx < PROFILE_FIELD_COUNT,
            i == 0 ==> visual == 0 && prev_section is None,
            i > 0 ==> visual == i + 1 + section_number(i - 1) && prev_section == Some(
                spec_section(i - 1),
            ),
        decreases PROFILE_FIELD_COUNT - i,
    {
        let field = profile_field(i);
        if starts_section(prev_section, field.section) {
            visual = visual + 1;
            prev_section = Some(field.section);
        }
        if i == field_idx {
            return visual;
        }
        visual = visual + 1;
        i = i + 1;
    }
    visual
}

/// How a value is shown.
#[derive(Clone, Copy, Debug, PartialEq, Eq, Structural)]
pub enum ValueStyle {
    /// Being typed.
    Typed,
    /// Set in the profile.
    Configured,
    /// Not set.
    Unset,
}

/// A row of the right panel.
pub enum FieldRow {
    /// A section heading.
    Header { title: &'static str },
    /// `label  value`, after a marker column.
    Entry { marker: &'static str, label: String, value: String, style: ValueStyle },
}

/// The heading of the read-only `env` rows.
pub open spec fn env_title() -> Seq<char> {
    "Env — edit in ~/.config/ccs/config.toml"@
}

/// `r` is a heading with this title.
pub open spec fn header_row(r: FieldRow, title: Seq<char>) -> bool {
    r matches FieldRow::Header { title: t } && t@ == title
}

/// `r` is an entry with these contents.
pub open spec fn entry_row(
    r: FieldRow,
    marker: Seq<char>,
    label: Seq<char>,
    value: Seq<char>,
    style: ValueStyle,
) -> bool {
    r matches FieldRow::Entry { marker: m, label: l, value: v, style: s } && m@ == marker && l@
        == label && v@ == value && s == style
}

/// The text of an optional value, empty when unset.
pub open spec fn view_or_empty(v: Option<Seq<char>>) -> Seq<char> {
    match v {
        Some(s) => s,
        None => Seq::empty(),
    }
}

/// The text with the cursor block `█` put in at the cursor, or at the end when
/// the cursor is past it.
pub open spec fn marked(b: Seq<char>, c: nat) -> Seq<char> {
    b.insert(clamp(c, b.len()), '█')
}

/// `c`, but no further than `n`.
pub open spec fn clamp(c: nat, n: nat) -> int {
    if c <= n {
        c as int
    } else {
        n as int
    }
}

/// `r` is the row of field `i`: the text being typed when that field is being
/// edited, else the profile's value, green when set and dim when not.
pub open spec fn field_entry(
    r: FieldRow,
    p: Profile,
    i: int,
    field_idx: usize,
    input: InputView,
    focused: bool,
) -> bool {
    if i == field_idx && input is Editing {
        let b = input->Editing_buffer;
        entry_row(
            r,
            spec_bullet(focused, true),
            spec_label(i),
            marked(b, input->Editing_cursor),
            ValueStyle::Typed,
        )
    } else {
        entry_row(
            r,
            spec_bullet(focused, i == field_idx),
            spec_label(i),
            view_or_empty(spec_get_view(spec_field(i), p)),
            if spec_get(spec_field(i), p) is Some {
                ValueStyle::Configured
            } else {
                ValueStyle::Unset
            },
        )
    }
}

/// The title of the heading at row `r` of the editable part, if one is there.
pub open spec fn header_title_at(r: int) -> Option<Seq<char>> {
    if r == 0 {
        Some("Profile"@)
    } else if r == 2 {
        Some("Models"@)
    } else if r == 9 {
        Some("Provider"@)
    } else {
        None
    }
}

/// The number of rows of the editable part: the fields and their headings.
pub open spec fn field_rows_len() -> int {
    field_row(PROFILE_FIELD_COUNT - 1) + 1
}

/// The number of read-only `env` rows: a heading and one row per entry, or
/// nothing when the table is missing or empty.
pub open spec fn env_rows_len(p: Profile) -> int {
    match p.env {
        Some(e) => if e.pairs().len() > 0 {
            1 + e.pairs().len() as int
        } else {
            0
        },
        None => 0,
    }
}

fn field_entry_for(
    profile: &Profile,
    i: usize,
    field_idx: usize,
    input: &InputState,
    focused: bool,
) -> (item: FieldRow)
    requires
        i < PROFILE_FIELD_COUNT,
    ensures
        field_entry(item, *profile, i as int, field_idx, input@, focused),
{
    let field = profile_field(i);
    let editing_here = match input {
        InputState::Editing { .. } => i == field_idx,
        _ => false,
    };
    if editing_here {
        match input {
            InputState::Editing { buffer, cursor } => FieldRow::Entry {
                marker: bullet(focused, true),
                label: String::from_str(field.label),
                value: with_cursor_mark(buffer.as_str(), *cursor),
                style: ValueStyle::Typed,
            },
            _ => FieldRow::Entry {
                marker: bullet(focused, true),
                label: String::from_str(field.label),
                value: String::new(),
                style: ValueStyle::Typed,
            },
        }
    } else {
        let value = field.get(profile);
        let is_set = value.is_some();
        let value_str = match value {
            Some(v) => v,
            None => String::new(),
        };
        FieldRow::Entry {
            marker: bullet(focused, i == field_idx),
            label: String::from_str(field.label),
            value: value_str,
            style: if is_set {
                ValueStyle::Configured
            } else {
                ValueStyle::Unset
            },
        }
    }
}

/// Builds the rows of the right panel: the fields under their section headings,
/// then the profile's `env` table, read-only, under a heading of its own.
/// `focused` tells whether the right panel has focus.
pub fn build_field_items(
    profile: &Profile,
    field_idx: usize,
    input: &InputState,
    focused: bool,
) -> (items: Vec<FieldRow>)
    ensures
        items@.len() == field_rows_len() + env_rows_len(*profile),
        forall|r: int|
            0 <= r < field_rows_len() && (#[trigger] header_title_at(r)) is Some ==> header_row(
                items@[r],
                header_title_at(r)->0,
            ),
        forall|i: int|
            0 <= i < PROFILE_FIELD_COUNT ==> field_entry(
                #[trigger] items@[field_row(i)],
                *profile,
                i,
                field_idx,
                input@,
                focused,
            ),
        env_rows_len(*profile) > 0 ==> {
            let e = profile.env->0;
            &&& header_row(items@[field_rows_len()], env_title())
            &&& forall|j: int|
                0 <= j < e.pairs().len() ==> entry_row(
                    #[trigger] items@[field_rows_len() + 1 + j],
                    spec_bullet(false, false),
                    e.key_seq()[j],
                    e.pairs()[j].1@,
                    ValueStyle::Configured,
                )
        },
{
    let mut items: Vec<FieldRow> = Vec::new();
    let mut current_section: Option<Section> = None;
    let mut i: usize = 0;
    while i < PROFILE_FIELD_COUNT
        invariant
            i <= PROFILE_FIELD_COUNT,
            i == 0 ==> items@.len() == 0 && current_section is None,
            i > 0 ==> items@.len() == field_row(i - 1) + 1 && current_section == Some(
                spec_section(i - 1),
            ),
            forall|r: int|
                0 <= r < items@.len() && (#[trigger] header_title_at(r)) is Some ==> header_row(
                    items@[r],
                    header_title_at(r)->0,
                ),
            forall|j: int|
                0 <= j < i ==> field_entry(
                    #[trigger] items@[field_row(j)],
                    *profile,
                    j,
                    field_idx,
                    input@,
                    focused,
                ),
        decreases PROFILE_FIELD_COUNT - i,
    {
        let field = profile_field(i);
        if starts_section(current_section, field.section) {
            current_section = Some(field.section);
            items.push(FieldRow::Header { title: field.section.title() });
        }
        let item = field_entry_for(profile, i, field_idx, input, focused);
        items.push(item);
        i = i + 1;
    }

    // ── read-only Env section: configured in config.toml, not editable here ──
    let ghost base = items@;
    if let Some(env) = &profile.env {
        if !env.is_empty() {
            items.push(FieldRow::Header { title: "Env — edit in ~/.config/ccs/config.toml" });
            let n = env.len();
            let mut j: usize = 0;
            while j < n
                invariant
                    n == env.pairs().len(),
                    j <= n,
                    items@.len() == base.len() + 1 + j,
                    forall|r: int| 0 <= r < base.len() ==> items@[r] == base[r],
                    header_row(items@[base.len() as int], env_title()),
                    forall|k: int|
                        0 <= k < j ==> entry_row(
                            #[trigger] items@[base.len() + 1 + k],
                            spec_bullet(false, false),
                            env.key_seq()[k],
                            env.pairs()[k].1@,
                            ValueStyle::Configured,
                        ),
                decreases n - j,
            {
                let key = env.key_at(j);
                let value = env.value_at(j);
                items.push(
                    FieldRow::Entry {
                        marker: bullet(false, false),
                        label: key.clone(),
                        value: value.clone(),
                        style: ValueStyle::Configured,
                    },
                );
                j = j + 1;
            }
            assert forall|i: int| 0 <= i < PROFILE_FIELD_COUNT implies field_entry(
                #[trigger] items@[field_row(i)],
                *profile,
                i,
                field_idx,
                input@,
                focused,
            ) by {
                assert(items@[field_row(i)] == base[field_row(i)]);
            }
        }
    }
    items
}

// ── the profile manager's state ────────────────────────────────────────────

/// What the caller does after a key press.
pub enum Outcome {
    /// Nothing more.
    Continue,
    /// Write the configuration back to disk.
    Save,
    /// Leave the manager, launching the named profile if there is one.
    Exit(Option<String>),
}

/// The state of the profile manager, in mathematical terms.
pub struct AppView {
    pub profiles: Map<Seq<char>, Profile>,
    pub names: Seq<Seq<char>>,
    pub selected: Option<usize>,
    pub focus: Focus,
    pub field_idx: usize,
    pub input: InputView,
}

/// The profile manager: the configuration, the sorted profile names, the
/// selected profile, the focused panel and field, and any text being typed.
pub struct App {
    config: Config,
    names: Vec<String>,
    selected: Option<usize>,
    focus: Focus,
    field_idx: usize,
    input: InputState,
}

/// The names as character sequences.
pub open spec fn names_view(names: Seq<String>) -> Seq<Seq<char>> {
    Seq::new(names.len(), |i: int| names[i]@)
}

/// `names` lists the keys of `m` in increasing order.
pub open spec fn names_of(names: Seq<Seq<char>>, m: Map<Seq<char>, Profile>) -> bool {
    &&& strictly_sorted(names)
    &&& forall|k: Seq<char>| #[trigger] names.contains(k) <==> m.contains_key(k)
}

/// The cursor of the text being typed lies within the text.
pub open spec fn input_wf(i: InputView) -> bool {
    match i {
        InputView::Idle => true,
        InputView::Editing { buffer, cursor } => cursor <= buffer.len(),
        InputView::Creating { buffer, cursor } => cursor <= buffer.len(),
    }
}

/// What holds of every state of the manager.
pub open spec fn app_view_wf(v: AppView) -> bool {
    &&& names_of(v.names, v.profiles)
    &&& v.names.len() <= usize::MAX
    &&& v.field_idx < PROFILE_FIELD_COUNT
    &&& (v.selected is Some <==> v.names.len() > 0)
    &&& (v.selected matches Some(i) ==> i < v.names.len())
    &&& input_wf(v.input)
}

impl View for App {
    type V = AppView;

    closed spec fn view(&self) -> AppView {
        AppView {
            profiles: self.config.profiles@,
            names: names_view(self.names@),
            selected: self.selected,
            focus: self.focus,
            field_idx: self.field_idx,
            input: self.input@,
        }
    }
}

/// The index of the selected profile, 0 when none is.
pub open spec fn sel_index(v: AppView) -> int {
    match v.selected {
        Some(i) => i as int,
        None => 0,
    }
}

/// The name of the selected profile, if there is one.
pub open spec fn sel_name(v: AppView) -> Option<Seq<char>> {
    if 0 <= sel_index(v) < v.names.len() {
        Some(v.names[sel_index(v)])
    } else {
        None
    }
}

/// The text of an optional string.
pub open spec fn opt_view(o: Option<String>) -> Option<Seq<char>> {
    match o {
        Some(s) => Some(s@),
        None => None,
    }
}

/// A profile with nothing set.
pub open spec fn empty_profile() -> Profile {
    Profile { description: None, models: None, provider: None, env: None }
}

/// The state with other text being typed.
pub open spec fn with_input(v: AppView, i: InputView) -> AppView {
    AppView { input: i, ..v }
}

fn names_for(profiles: &StrMap<Profile>) -> (names: Vec<String>)
    ensures
        names_of(names_view(names@), profiles@),
        names_view(names@) == profiles.key_seq(),
        names@.len() <= usize::MAX,
{
    let names = profiles.keys();
    // `len` brings the facts of the map's order and the vector's bound.
    let n = profiles.len();
    let count: usize = names.len();
    proof {
        assert(names_view(names@) =~= profiles.key_seq());
        assert forall|k: Seq<char>| #[trigger] names_view(names@).contains(k) <==> profiles@.contains_key(k) by {
            profiles.lemma_view_dom(k);
        }
    }
    names
}

impl App {
    #[verifier::type_invariant]
    spec fn inv(&self) -> bool {
        app_view_wf(self@)
    }

    /// The manager over `config`, with the first profile selected, the profile
    /// list focused and nothing being typed.
    pub fn new(config: Config) -> (app: Self)
        ensures
            app@.profiles == config.profiles@,
            app@.names == config.profiles.key_seq(),
            names_of(app@.names, app@.profiles),
            app@.selected == (if app@.names.len() == 0 {
                None::<usize>
            } else {
                Some(0usize)
            }),
            app@.focus == Focus::Left,
            app@.field_idx == 0,
            app@.input == InputView::Idle,
    {
        let names = names_for(&config.profiles);
        let selected = if names.len() == 0 {
            None
        } else {
            Some(0)
        };
        App { config, names, selected, focus: Focus::Left, field_idx: 0, input: InputState::Idle }
    }

    /// The configuration, handed back.
    pub fn into_config(self) -> (config: Config)
        ensures
            config.profiles@ == self@.profiles,
    {
        self.config
    }

    /// The configuration.
    pub fn config(&self) -> (config: &Config)
        ensures
            config.profiles@ == self@.profiles,
    {
        &self.config
    }

    /// The profile names, in increasing order.
    pub fn names(&self) -> (names: &Vec<String>)
        ensures
            names_view(names@) == self@.names,
    {
        &self.names
    }

    /// The focused panel.
    pub fn focus(&self) -> (f: Focus)
        ensures
            f == self@.focus,
    {
        self.focus
    }

    /// The index of the focused field.
    pub fn field_idx(&self) -> (i: usize)
        ensures
            i == self@.field_idx,
            i < PROFILE_FIELD_COUNT,
    {
        proof {
            use_type_invariant(self);
        }
        self.field_idx
    }

    /// The text being typed, if any.
    pub fn input(&self) -> (i: &InputState)
        ensures
            i@ == self@.input,
    {
        &self.input
    }

    /// The index of the selected profile, 0 when none is.
    pub fn selected_index(&self) -> (i: usize)
        ensures
            i == sel_index(self@),
    {
        match self.selected {
            Some(i) => i,
            None => 0,
        }
    }

    /// The name of the selected profile, if there is one.
    pub fn selected_name(&self) -> (name: Option<&str>)
        ensures
            match name {
                Some(n) => sel_name(self@) == Some(n@),
                None => sel_name(self@) is None,
            },
    {
        let i = self.selected_index();
        if i < self.names.len() {
            Some(self.names[i].as_str())
        } else {
            None
        }
    }

    /// The row of the focused field in the right panel.
    pub fn field_list_idx(&self) -> (row: usize)
        ensures
            row == field_row(self@.field_idx as int),
    {
        proof {
            use_type_invariant(self);
        }
        field_list_idx_of(self.field_idx)
    }
}

// ── key handling ───────────────────────────────────────────────────────────

/// The selection after moving down the profile list, wrapping around.
pub open spec fn next_selected(v: AppView) -> Option<usize> {
    if v.names.len() == 0 {
        v.selected
    } else {
        Some(((sel_index(v) + 1) % (v.names.len() as int)) as usize)
    }
}

/// The selection after moving up the profile list, wrapping around.
pub open spec fn prev_selected(v: AppView) -> Option<usize> {
    if v.names.len() == 0 {
        v.selected
    } else {
        Some(
            (if sel_index(v) == 0 {
                v.names.len() - 1
            } else {
                sel_index(v) - 1
            }) as usize,
        )
    }
}

/// The focused field after moving down, wrapping around.
pub open spec fn next_field(i: usize) -> usize {
    ((i + 1) % (PROFILE_FIELD_COUNT as int)) as usize
}

/// The focused field after moving up, wrapping around.
pub open spec fn prev_field(i: usize) -> usize {
    if i == 0 {
        (PROFILE_FIELD_COUNT - 1) as usize
    } else {
        (i - 1) as usize
    }
}

/// `o` leaves the manager with this profile name (or none).
pub open spec fn exits_with(o: Outcome, name: Option<Seq<char>>) -> bool {
    o matches Outcome::Exit(n) && opt_view(n) == name
}

/// Deleting the selected profile: it leaves the map, the names follow, and the
/// selection stays where it was, or moves up onto the last name.
pub open spec fn delete_step(v: AppView, new: AppView, out: Outcome) -> bool {
    match sel_name(v) {
        Some(name) => {
            &&& new.profiles == v.profiles.remove(name)
            &&& names_of(new.names, new.profiles)
            &&& new.selected == (if new.names.len() == 0 {
                None::<usize>
            } else {
                Some(
                    (if sel_index(v) <= new.names.len() - 1 {
                        sel_index(v)
                    } else {
                        new.names.len() - 1
                    }) as usize,
                )
            })
            &&& new.focus == v.focus
            &&& new.field_idx == v.field_idx
            &&& new.input == v.input
            &&& out is Save
        },
        None => new == v && out is Continue,
    }
}

/// A key with the profile list focused and nothing being typed.
pub open spec fn step_left(v: AppView, press: KeyPress, new: AppView, out: Outcome) -> bool {
    let key = press.key;
    if key == Key::Enter {
        new == v && exits_with(out, sel_name(v))
    } else if key == Key::Esc || key == Key::Char('q') {
        new == v && exits_with(out, None)
    } else if key == Key::Char('c') && press.ctrl {
        new == v && exits_with(out, None)
    } else if key == Key::Down || key == Key::Char('j') {
        new == AppView { selected: next_selected(v), ..v } && out is Continue
    } else if key == Key::Up || key == Key::Char('k') {
        new == AppView { selected: prev_selected(v), ..v } && out is Continue
    } else if key == Key::Right || key == Key::Char('l') {
        new == AppView { focus: Focus::Right, ..v } && out is Continue
    } else if key == Key::Char('n') {
        new == with_input(v, InputView::Creating { buffer: Seq::empty(), cursor: 0 })
            && out is Continue
    } else if key == Key::Char('d') {
        delete_step(v, new, out)
    } else {
        new == v && out is Continue
    }
}

/// The selected profile exists in the map.
pub open spec fn has_selected_profile(v: AppView) -> bool {
    sel_name(v) is Some && v.profiles.contains_key(sel_name(v)->0)
}

/// The value that editing the focused field starts from.
pub open spec fn edit_start_value(v: AppView) -> Seq<char> {
    view_or_empty(spec_get_view(spec_field(v.field_idx as int), v.profiles[sel_name(v)->0]))
}

/// A key with the field list focused and nothing being typed.
pub open spec fn step_right(v: AppView, press: KeyPress, new: AppView, out: Outcome) -> bool {
    let key = press.key;
    if key == Key::Esc || key == Key::Char('q') {
        new == v && exits_with(out, None)
    } else if key == Key::Down || key == Key::Char('j') {
        new == AppView { field_idx: next_field(v.field_idx), ..v } && out is Continue
    } else if key == Key::Up || key == Key::Char('k') {
        new == AppView { field_idx: prev_field(v.field_idx), ..v } && out is Continue
    } else if key == Key::Left || key == Key::Char('h') {
        new == AppView { focus: Focus::Left, ..v } && out is Continue
    } else if key == Key::Enter {
        &&& out is Continue
        &&& if has_selected_profile(v) {
            new == with_input(
                v,
                InputView::Editing {
                    buffer: edit_start_value(v),
                    cursor: edit_start_value(v).len(),
                },
            )
        } else {
            new == v
        }
    } else {
        new == v && out is Continue
    }
}

/// Creating a profile named `name`: it must be non-empty and new; it is then
/// added with nothing set, the names follow, and it becomes the selection.
pub open spec fn create_with(v: AppView, name: Seq<char>, new: AppView, out: Outcome) -> bool {
    &&& new.input == InputView::Idle
    &&& new.focus == v.focus
    &&& new.field_idx == v.field_idx
    &&& if name.len() > 0 && !v.profiles.contains_key(name) {
        &&& new.profiles == v.profiles.insert(name, empty_profile())
        &&& names_of(new.names, new.profiles)
        &&& new.selected is Some
        &&& new.selected->0 < new.names.len()
        &&& new.names[new.selected->0 as int] == name
        &&& out is Save
    } else {
        &&& new.profiles == v.profiles
        &&& new.names == v.names
        &&& new.selected == v.selected
        &&& out is Continue
    }
}

/// Writing the typed text `b` into the focused field of the selected profile.
pub open spec fn commit_step(v: AppView, b: Seq<char>, new: AppView, out: Outcome) -> bool {
    &&& new.input == InputView::Idle
    &&& new.focus == v.focus
    &&& new.field_idx == v.field_idx
    &&& new.names == v.names
    &&& new.selected == v.selected
    &&& if has_selected_profile(v) {
        let name = sel_name(v)->0;
        &&& exists|p: Profile|
            spec_set(spec_field(v.field_idx as int), v.profiles[name], p, b) && new.profiles
                == #[trigger] v.profiles.insert(name, p)
        &&& out is Save
    } else {
        new.profiles == v.profiles && out is Continue
    }
}

/// What a key press does to the manager, and what the caller is to do after it.
pub open spec fn spec_step(v: AppView, press: KeyPress, new: AppView, out: Outcome) -> bool {
    let key = press.key;
    match v.input {
        InputView::Creating { buffer, cursor } => if key == Key::Enter {
            exists|name: Seq<char>| is_trim_of(name, buffer) && #[trigger] create_with(v, name, new, out)
        } else if key == Key::Esc {
            new == with_input(v, InputView::Idle) && out is Continue
        } else {
            new == with_input(
                v,
                InputView::Creating {
                    buffer: edit_buffer(buffer, cursor, key),
                    cursor: edit_cursor(buffer, cursor, key),
                },
            ) && out is Continue
        },
        InputView::Editing { buffer, cursor } => if key == Key::Enter {
            commit_step(v, buffer, new, out)
        } else if key == Key::Esc {
            new == with_input(v, InputView::Idle) && out is Continue
        } else {
            new == with_input(
                v,
                InputView::Editing {
                    buffer: edit_buffer(buffer, cursor, key),
                    cursor: edit_cursor(buffer, cursor, key),
                },
            ) && out is Continue
        },
        InputView::Idle => if v.focus == Focus::Left {
            step_left(v, press, new, out)
        } else {
            step_right(v, press, new, out)
        },
    }
}

fn position(names: &Vec<String>, name: &String) -> (pos: Option<usize>)
    ensures
        match pos {
            Some(i) => i < names@.len() && names@[i as int]@ == name@,
            None => !names_view(names@).contains(name@),
        },
{
    let n = names.len();
    let mut i: usize = 0;
    while i < n
        invariant
            n == names@.len(),
            i <= n,
            forall|j: int| 0 <= j < i ==> (#[trigger] names@[j])@ != name@,
        decreases n - i,
    {
        if names[i] == *name {
            return Some(i);
        }
        i = i + 1;
    }
    proof {
        if names_view(names@).contains(name@) {
            let j = choose|j: int| 0 <= j < names_view(names@).len() && names_view(names@)[j] == name@;
        }
    }
    None
}

impl App {
    fn with_state(
        config: Config,
        names: Vec<String>,
        selected: Option<usize>,
        focus: Focus,
        field_idx: usize,
        input: InputState,
    ) -> (app: App)
        requires
            app_view_wf(
                AppView {
                    profiles: config.profiles@,
                    names: names_view(names@),
                    selected,
                    focus,
                    field_idx,
                    input: input@,
                },
            ),
        ensures
            app@ == (AppView {
                profiles: config.profiles@,
                names: names_view(names@),
                selected,
                focus,
                field_idx,
                input: input@,
            }),
    {
        App { config, names, selected, focus, field_idx, input }
    }

    fn delete_selected(self) -> (r: (App, Outcome))
        ensures
            delete_step(self@, r.0@, r.1),
    {
        proof {
            use_type_invariant(&self);
        }
        let ghost v = self@;
        let App { mut config, names, selected, focus, field_idx, input } = self;
        let idx = match selected {
            Some(i) => i,
            None => 0,
        };
        if idx < names.len() {
            config.profiles.remove(names[idx].as_str());
            let new_names = names_for(&config.profiles);
            let last = new_names.len();
            let new_selected = if last == 0 {
                None
            } else if idx <= last - 1 {
                Some(idx)
            } else {
                Some(last - 1)
            };
            (App::with_state(config, new_names, new_selected, focus, field_idx, input), Outcome::Save)
        } else {
            (App::with_state(config, names, selected, focus, field_idx, input), Outcome::Continue)
        }
    }

    fn create_profile(self, buffer: String) -> (r: (App, Outcome))
        ensures
            exists|name: Seq<char>| is_trim_of(name, buffer@) && #[trigger] create_with(self@, name, r.0@, r.1),
    {
        proof {
            use_type_invariant(&self);
        }
        let ghost v = self@;
        let App { mut config, names, selected, focus, field_idx, input } = self;
        let trimmed = trim(buffer.as_str());
        let name = String::from_str(trimmed);
        if !name.as_str().is_empty() && !config.profiles.contains_key(name.as_str()) {
            config.profiles.insert(name.clone(), Profile::default());
            let new_names = names_for(&config.profiles);
            let new_selected = match position(&new_names, &name) {
                Some(pos) => Some(pos),
                None => selected,
            };
            let app = App::with_state(config, new_names, new_selected, focus, field_idx, InputState::Idle);
            let r = (app, Outcome::Save);
            assert(create_with(v, name@, r.0@, r.1));
            r
        } else {
            let app = App::with_state(config, names, selected, focus, field_idx, InputState::Idle);
            let r = (app, Outcome::Continue);
            assert(create_with(v, name@, r.0@, r.1));
            r
        }
    }

    fn commit_edit(self, buffer: String) -> (r: (App, Outcome))
        ensures
            commit_step(self@, buffer@, r.0@, r.1),
    {
        proof {
            use_type_invariant(&self);
        }
        let ghost v = self@;
        let App { mut config, names, selected, focus, field_idx, input } = self;
        let idx = match selected {
            Some(i) => i,
            None => 0,
        };
        if idx < names.len() {
            match config.profiles.remove(names[idx].as_str()) {
                Some(mut profile) => {
                    let ghost before = profile;
                    let field = profile_field(field_idx);
                    field.set(&mut profile, buffer);
                    let ghost after = profile;
                    config.profiles.insert(names[idx].clone(), profile);
                    proof {
                        let name = names_view(names@)[idx as int];
                        assert(config.profiles@ =~= v.profiles.insert(name, after));
                        assert(names_of(names_view(names@), config.profiles@));
                    }
                    (App::with_state(config, names, selected, focus, field_idx, InputState::Idle), Outcome::Save)
                },
                None => {
                    proof {
                        let name = names_view(names@)[idx as int];
                        assert(config.profiles@ =~= v.profiles);
                    }
                    (App::with_state(config, names, selected, focus, field_idx, InputState::Idle), Outcome::Continue)
                },
            }
        } else {
            (App::with_state(config, names, selected, focus, field_idx, InputState::Idle), Outcome::Continue)
        }
    }

    fn start_edit(self) -> (r: (App, Outcome))
        ensures
            r.1 is Continue,
            has_selected_profile(self@) ==> r.0@ == with_input(
                self@,
                InputView::Editing {
                    buffer: edit_start_value(self@),
                    cursor: edit_start_value(self@).len(),
                },
            ),
            !has_selected_profile(self@) ==> r.0@ == self@,
    {
        proof {
            use_type_invariant(&self);
        }
        let idx = self.selected_index();
        if idx < self.names.len() {
            let value = match self.config.profiles.get(self.names[idx].as_str()) {
                Some(profile) => {
                    let field = profile_field(self.field_idx);
                    match field.get(profile) {
                        Some(v) => Some(v),
                        None => Some(String::new()),
                    }
                },
                None => None,
            };
            match value {
                Some(buffer) => {
                    let cursor = buffer.as_str().unicode_len();
                    let App { config, names, selected, focus, field_idx, input } = self;
                    (
                        App::with_state(
                            config,
                            names,
                            selected,
                            focus,
                            field_idx,
                            InputState::Editing { buffer, cursor },
                        ),
                        Outcome::Continue,
                    )
                },
                None => (self, Outcome::Continue),
            }
        } else {
            (self, Outcome::Continue)
        }
    }

    fn profile_next(self) -> (app: App)
        ensures
            app@ == (AppView { selected: next_selected(self@), ..self@ }),
    {
        proof {
            use_type_invariant(&self);
        }
        if self.names.len() == 0 {
            return self;
        }
        let i = (self.selected_index() + 1) % self.names.len();
        let App { config, names, selected, focus, field_idx, input } = self;
        App::with_state(config, names, Some(i), focus, field_idx, input)
    }

    fn profile_prev(self) -> (app: App)
        ensures
            app@ == (AppView { selected: prev_selected(self@), ..self@ }),
    {
        proof {
            use_type_invariant(&self);
        }
        if self.names.len() == 0 {
            return self;
        }
        let i = if self.selected_index() == 0 {
            self.names.len() - 1
        } else {
            self.selected_index() - 1
        };
        let App { config, names, selected, focus, field_idx, input } = self;
        App::with_state(config, names, Some(i), focus, field_idx, input)
    }

    fn field_next(self) -> (app: App)
        ensures
            app@ == (AppView { field_idx: next_field(self@.field_idx), ..self@ }),
    {
        proof {
            use_type_invariant(&self);
        }
        let App { config, names, selected, focus, field_idx, input } = self;
        let next = (field_idx + 1) % PROFILE_FIELD_COUNT;
        App::with_state(config, names, selected, focus, next, input)
    }

    fn field_prev(self) -> (app: App)
        ensures
            app@ == (AppView { field_idx: prev_field(self@.field_idx), ..self@ }),
    {
        proof {
            use_type_invariant(&self);
        }
        let App { config, names, selected, focus, field_idx, input } = self;
        let prev = if field_idx == 0 {
            PROFILE_FIELD_COUNT - 1
        } else {
            field_idx - 1
        };
        App::with_state(config, names, selected, focus, prev, input)
    }

    fn with_focus(self, f: Focus) -> (app: App)
        ensures
            app@ == (AppView { focus: f, ..self@ }),
    {
        proof {
            use_type_invariant(&self);
        }
        let App { config, names, selected, focus, field_idx, input } = self;
        App::with_state(config, names, selected, f, field_idx, input)
    }

    fn typing_key(self, key: Key) -> (r: (App, Outcome))
        requires
            !(self@.input is Idle),
            key != Key::Enter,
            key != Key::Esc,
        ensures
            spec_step(self@, KeyPress { key, ctrl: false }, r.0@, r.1),
    {
        proof {
            use_type_invariant(&self);
        }
        let App { config, names, selected, focus, field_idx, input } = self;
        let next_input = match input {
            InputState::Creating { buffer, cursor } => {
                let mut buffer = buffer;
                let mut cursor = cursor;
                handle_edit_key(&mut buffer, &mut cursor, key);
                InputState::Creating { buffer, cursor }
            },
            InputState::Editing { buffer, cursor } => {
                let mut buffer = buffer;
                let mut cursor = cursor;
                handle_edit_key(&mut buffer, &mut cursor, key);
                InputState::Editing { buffer, cursor }
            },
            InputState::Idle => InputState::Idle,
        };
        (App::with_state(config, names, selected, focus, field_idx, next_input), Outcome::Continue)
    }

    fn step(self, press: KeyPress) -> (r: (App, Outcome))
        requires
        ensures
            spec_step(self@, press, r.0@, r.1),
    {
        proof {
            use_type_invariant(&self);
        }
        let ghost v = self@;
        let key = press.key;
        let typing = match &self.input {
            InputState::Idle => false,
            _ => true,
        };
        if typing {
            if key == Key::Enter || key == Key::Esc {
                let App { config, names, selected, focus, field_idx, input } = self;
                let base = App::with_state(config, names, selected, focus, field_idx, InputState::Idle);
                match input {
                    InputState::Creating { buffer, cursor } => {
                        if key == Key::Enter {
                            let r = base.create_profile(buffer);
                            proof {
                                let name = choose|name: Seq<char>|
                                    is_trim_of(name, buffer@) && #[trigger] create_with(base@, name, r.0@, r.1);
                                assert(create_with(v, name, r.0@, r.1));
                            }
                            r
                        } else {
                            (base, Outcome::Continue)
                        }
                    },
                    InputState::Editing { buffer, cursor } => {
                        if key == Key::Enter {
                            base.commit_edit(buffer)
                        } else {
                            (base, Outcome::Continue)
                        }
                    },
                    InputState::Idle => (base, Outcome::Continue),
                }
            } else {
                let r = self.typing_key(key);
                r
            }
        } else if self.focus == Focus::Left {
            match key {
                Key::Enter => {
                    let name = match self.selected_name() {
                        Some(n) => Some(String::from_str(n)),
                        None => None,
                    };
                    (self, Outcome::Exit(name))
                },
                Key::Esc | Key::Char('q') => (self, Outcome::Exit(None)),
                Key::Char('c') if press.ctrl => (self, Outcome::Exit(None)),
                Key::Down | Key::Char('j') => (self.profile_next(), Outcome::Continue),
                Key::Up | Key::Char('k') => (self.profile_prev(), Outcome::Continue),
                Key::Right | Key::Char('l') => (self.with_focus(Focus::Right), Outcome::Continue),
                Key::Char('n') => {
                    let App { config, names, selected, focus, field_idx, input } = self;
                    (
                        App::with_state(
                            config,
                            names,
                            selected,
                            focus,
                            field_idx,
                            InputState::Creating { buffer: String::new(), cursor: 0 },
                        ),
                        Outcome::Continue,
                    )
                },
                Key::Char('d') => self.delete_selected(),
                _ => (self, Outcome::Continue),
            }
        } else {
            match key {
                Key::Esc | Key::Char('q') => (self, Outcome::Exit(None)),
                Key::Down | Key::Char('j') => (self.field_next(), Outcome::Continue),
                Key::Up | Key::Char('k') => (self.field_prev(), Outcome::Continue),
                Key::Left | Key::Char('h') => (self.with_focus(Focus::Left), Outcome::Continue),
                Key::Enter => self.start_edit(),
                _ => (self, Outcome::Continue),
            }
        }
    }

    /// Handles one key press, and tells the caller what to do next: save the
    /// configuration, leave (with the profile to launch, if any), or nothing.
    pub fn handle_key(&mut self, press: KeyPress) -> (out: Outcome)
        ensures
            spec_step(old(self)@, press, final(self)@, out),
            app_view_wf(old(self)@),
            app_view_wf(final(self)@),
    {
        proof {
            use_type_invariant(&*self);
        }
        let mut current = App::new(Config::new());
        std::mem::swap(&mut current, self);
        let (next, out) = current.step(press);
        *self = next;
        proof {
            use_type_invariant(&*self);
        }
        out
    }

    /// The selected profile, if there is one.
    pub fn selected_profile(&self) -> (p: Option<&Profile>)
        ensures
            match p {
                Some(p) => has_selected_profile(self@) && *p == self@.profiles[sel_name(self@)->0],
                None => !has_selected_profile(self@),
            },
    {
        match self.selected_name() {
            Some(name) => self.config.profiles.get(name),
            None => None,
        }
    }

    /// The rows of the profile list, one per name in order: the marker, the
    /// name, and the description when it is set and not empty.
    pub fn profile_rows(&self) -> (rows: Vec<ProfileRow>)
        ensures
            rows@.len() == self@.names.len(),
            forall|i: int| 0 <= i < rows@.len() ==> profile_row(#[trigger] rows@[i], self@, i),
    {
        proof {
            use_type_invariant(self);
        }
        let left_focused = self.focus == Focus::Left;
        let selected_idx = self.selected_index();
        let n = self.names.len();
        let mut rows: Vec<ProfileRow> = Vec::new();
        let mut i: usize = 0;
        while i < n
            invariant
                n == self.names@.len(),
                i <= n,
                left_focused == (self@.focus == Focus::Left),
                selected_idx == sel_index(self@),
                rows@.len() == i,
                app_view_wf(self@),
                forall|j: int| 0 <= j < i ==> profile_row(#[trigger] rows@[j], self@, j),
            decreases n - i,
        {
            let name = &self.names[i];
            proof {
                assert(self@.names[i as int] == name@);
                assert(self@.names.contains(name@));
            }
            let description = match self.config.profiles.get(name.as_str()) {
                Some(profile) => match &profile.description {
                    Some(d) => if d.as_str().is_empty() {
                        None
                    } else {
                        Some(d.clone())
                    },
                    None => None,
                },
                None => None,
            };
            rows.push(
                ProfileRow {
                    marker: bullet(left_focused, i == selected_idx),
                    name: name.clone(),
                    description,
                },
            );
            i = i + 1;
        }
        rows
    }

    /// The keys that the footer lists for the current mode.
    pub fn footer_keys(&self) -> (keys: Vec<&'static str>)
        ensures
            Seq::new(keys@.len(), |i: int| keys@[i]@) == spec_footer_keys(self@),
    {
        let mut keys: Vec<&'static str> = Vec::new();
        match &self.input {
            InputState::Creating { .. } | InputState::Editing { .. } => {
                keys.push("Enter");
                keys.push("Esc");
            },
            InputState::Idle => {
                if self.focus == Focus::Left {
                    keys.push("↑↓/jk");
                    keys.push("n");
                    keys.push("d");
                    keys.push("→/l");
                    keys.push("Enter");
                    keys.push("q/ESC");
                } else {
                    keys.push("↑↓/jk");
                    keys.push("←/h");
                    keys.push("Enter");
                    keys.push("q/ESC");
                }
            },
        }
        keys
    }
}

/// A row of the profile list.
pub struct ProfileRow {
    pub marker: &'static str,
    pub name: String,
    /// Shown under the name; `None` when unset or empty.
    pub description: Option<String>,
}

/// `r` is row `i` of the profile list: the marker of the selected row in a
/// focused list, the name, and the description that is shown.
pub open spec fn profile_row(r: ProfileRow, v: AppView, i: int) -> bool {
    &&& r.marker@ == spec_bullet(v.focus == Focus::Left, i == sel_index(v))
    &&& r.name@ == v.names[i]
    &&& opt_view(r.description) == shown_description(v.profiles[v.names[i]])
}

/// The description the profile list shows: none when unset or empty.
pub open spec fn shown_description(p: Profile) -> Option<Seq<char>> {
    match p.description {
        Some(d) => opt_nonempty(d@),
        None => None,
    }
}

/// The keys the footer lists: Enter and Esc while typing; otherwise the
/// moves, actions and exits of the focused panel.
pub open spec fn spec_footer_keys(v: AppView) -> Seq<Seq<char>> {
    match v.input {
        InputView::Idle => if v.focus == Focus::Left {
            seq!["↑↓/jk"@, "n"@, "d"@, "→/l"@, "Enter"@, "q/ESC"@]
        } else {
            seq!["↑↓/jk"@, "←/h"@, "Enter"@, "q/ESC"@]
        },
        _ => seq!["Enter"@, "Esc"@],
    }
}

// ── laws ───────────────────────────────────────────────────────────────────

/// The focused field's row, as `field_list_idx` counts it, is the row that
/// `build_field_items` gives that field: within the list, never a heading, and
/// each field on a row of its own, in order.
pub proof fn lemma_field_row_is_entry(i: int, j: int, p: Profile)
    requires
        0 <= i < PROFILE_FIELD_COUNT,
        0 <= j < PROFILE_FIELD_COUNT,
    ensures
        0 <= field_row(i) < field_rows_len() <= field_rows_len() + env_rows_len(p),
        header_title_at(field_row(i)) is None,
        i < j ==> field_row(i) < field_row(j),
{
}

/// Moving down the profile list and back up returns to the same profile, and
/// so does moving up and back down.
pub proof fn lemma_profile_moves_undo(v: AppView)
    requires
        app_view_wf(v),
    ensures
        prev_selected(AppView { selected: next_selected(v), ..v }) == v.selected,
        next_selected(AppView { selected: prev_selected(v), ..v }) == v.selected,
{
    if v.names.len() > 0 {
        let n = v.names.len() as int;
        let i = sel_index(v);
        if i + 1 < n {
            vstd::arithmetic::div_mod::lemma_small_mod((i + 1) as nat, n as nat);
        } else {
            vstd::arithmetic::div_mod::lemma_mod_self_0(n);
        }
        if i == 0 {
            vstd::arithmetic::div_mod::lemma_mod_self_0(n);
        } else {
            vstd::arithmetic::div_mod::lemma_small_mod(i as nat, n as nat);
        }
    }
}

/// Moving down the field list and back up returns to the same field, and so
/// does moving up and back down.
pub proof fn lemma_field_moves_undo(i: usize)
    requires
        i < PROFILE_FIELD_COUNT,
    ensures
        prev_field(next_field(i)) == i,
        next_field(prev_field(i)) == i,
{
}

/// Typing a character and then Backspace leaves the text and the cursor as
/// they were.
pub proof fn lemma_type_then_backspace(b: Seq<char>, c: nat, ch: char)
    requires
        c <= b.len(),
    ensures
        edit_buffer(edit_buffer(b, c, Key::Char(ch)), edit_cursor(b, c, Key::Char(ch)), Key::Backspace)
            == b,
        edit_cursor(edit_buffer(b, c, Key::Char(ch)), edit_cursor(b, c, Key::Char(ch)), Key::Backspace)
            == c,
{
}

/// Editing keeps the cursor within the text.
pub proof fn lemma_edit_keeps_cursor_in_text(b: Seq<char>, c: nat, key: Key)
    requires
        c <= b.len(),
    ensures
        edit_cursor(b, c, key) <= edit_buffer(b, c, key).len(),
{
}

/// In every state of the manager, a profile is selected exactly when there
/// is one, and the selected name is always one of the profiles.
pub proof fn lemma_selection_names_a_profile(v: AppView)
    requires
        app_view_wf(v),
    ensures
        v.names.len() > 0 <==> has_selected_profile(v),
        has_selected_profile(v) ==> v.names.contains(sel_name(v)->0),
{
    if v.names.len() > 0 {
        assert(v.names.contains(v.names[sel_index(v)]));
    }
}

/// The key presses that change the profiles, and so call for a save: Enter
/// while creating, when the trimmed name is non-empty and new; Enter while
/// editing, when the selected profile exists; `d` in the profile list, when a
/// profile is selected.
pub open spec fn saves(v: AppView, press: KeyPress) -> bool {
    match v.input {
        InputView::Creating { buffer, .. } => press.key == Key::Enter && exists|name: Seq<char>|
            #[trigger] is_trim_of(name, buffer) && name.len() > 0 && !v.profiles.contains_key(name),
        InputView::Editing { .. } => press.key == Key::Enter && has_selected_profile(v),
        InputView::Idle => v.focus == Focus::Left && press.key == Key::Char('d') && sel_name(
            v,
        ) is Some,
    }
}

/// A key press asks for a save exactly in the three saving cases, and every
/// other key press leaves the profiles as they were.
pub proof fn lemma_profiles_change_only_on_save(
    v: AppView,
    press: KeyPress,
    new: AppView,
    out: Outcome,
)
    requires
        spec_step(v, press, new, out),
    ensures
        out is Save <==> saves(v, press),
        !(out is Save) ==> new.profiles == v.profiles,
{
    if v.input is Creating && press.key == Key::Enter {
        let buffer = v.input->Creating_buffer;
        let name = choose|name: Seq<char>| is_trim_of(name, buffer) && #[trigger] create_with(v, name, new, out);
        if saves(v, press) {
            let other = choose|n: Seq<char>|
                #[trigger] is_trim_of(n, buffer) && n.len() > 0 && !v.profiles.contains_key(n);
            lemma_trim_unique(name, other, buffer);
        }
    }
}

/// Over any run of key presses none of which asks for a save, the profiles
/// stay as they were at the start.
pub proof fn lemma_unsaved_run_keeps_profiles(
    states: Seq<AppView>,
    presses: Seq<KeyPress>,
    outs: Seq<Outcome>,
)
    requires
        states.len() == presses.len() + 1,
        outs.len() == presses.len(),
        forall|i: int|
            0 <= i < presses.len() ==> spec_step(
                states[i],
                #[trigger] presses[i],
                states[i + 1],
                outs[i],
            ),
        forall|i: int| 0 <= i < outs.len() ==> !(#[trigger] outs[i] is Save),
    ensures
        states.last().profiles == states[0].profiles,
    decreases presses.len(),
{
    if presses.len() > 0 {
        let n = presses.len() - 1;
        lemma_unsaved_run_keeps_profiles(states.drop_last(), presses.drop_last(), outs.drop_last());
        assert(spec_step(states[n], presses[n], states[n + 1], outs[n]));
        assert(!(outs[n] is Save));
        lemma_profiles_change_only_on_save(states[n], presses[n], states[n + 1], outs[n]);
    }
}

/// With nothing being typed, Esc and `q` quit without a profile, whichever
/// panel has focus, and change nothing.
pub proof fn lemma_quit_keys_exit(v: AppView, press: KeyPress, new: AppView, out: Outcome)
    requires
        spec_step(v, press, new, out),
        v.input is Idle,
        press.key == Key::Esc || press.key == Key::Char('q'),
    ensures
        new == v,
        (out matches Outcome::Exit(n) && n is None),
{
}

/// The manager is left only from a state where nothing is being typed, and
/// only by Esc or `q`, or, with the profile list focused, by Control-C or
/// Enter; it is left unchanged. Enter in the profile list launches the selected
/// profile, or none when there is none.
pub proof fn lemma_exits(v: AppView, press: KeyPress, new: AppView, out: Outcome)
    requires
        spec_step(v, press, new, out),
        app_view_wf(v),
    ensures
        out is Exit ==> v.input is Idle && new == v,
        out is Exit ==> press.key == Key::Esc || press.key == Key::Char('q') || (v.focus == Focus::Left
            && (press.key == Key::Enter || (press.key == Key::Char('c') && press.ctrl))),
        v.input is Idle && v.focus == Focus::Left && press.key == Key::Enter ==> (if v.names.len()
            > 0 {
            (out matches Outcome::Exit(Some(n)) && n@ == v.names[sel_index(v)])
        } else {
            (out matches Outcome::Exit(n) && n is None)
        }),
        v.input is Idle && v.focus == Focus::Left && press.key == Key::Char('c') && press.ctrl
            ==> (out matches Outcome::Exit(n) && n is None),
{
    if v.input is Creating && press.key == Key::Enter {
        let name = choose|name: Seq<char>|
            is_trim_of(name, v.input->Creating_buffer) && #[trigger] create_with(v, name, new, out);
    }
}

/// Moving in the profile list changes only the selection: down goes to the
/// next profile and up to the one before, wrapping around at either end.
pub proof fn lemma_profile_list_moves(v: AppView, press: KeyPress, new: AppView, out: Outcome)
    requires
        spec_step(v, press, new, out),
        app_view_wf(v),
        v.input is Idle,
        v.focus == Focus::Left,
        press.key == Key::Down || press.key == Key::Char('j') || press.key == Key::Up
            || press.key == Key::Char('k'),
    ensures
        out is Continue,
        new.profiles == v.profiles,
        new.names == v.names,
        new.focus == v.focus,
        new.field_idx == v.field_idx,
        new.input == v.input,
        v.names.len() == 0 ==> new.selected is None,
        v.names.len() > 0 && (press.key == Key::Down || press.key == Key::Char('j')) ==> new.selected
            == Some((if sel_index(v) + 1 < v.names.len() {
            sel_index(v) + 1
        } else {
            0
        }) as usize),
        v.names.len() > 0 && (press.key == Key::Up || press.key == Key::Char('k')) ==> new.selected
            == Some((if sel_index(v) > 0 {
            sel_index(v) - 1
        } else {
            v.names.len() - 1
        }) as usize),
{
    if v.names.len() > 0 {
        let n = v.names.len() as int;
        let i = sel_index(v);
        if i + 1 < n {
            vstd::arithmetic::div_mod::lemma_small_mod((i + 1) as nat, n as nat);
        } else {
            vstd::arithmetic::div_mod::lemma_mod_self_0(n);
        }
    }
}

/// The marker `" ▸"` shows exactly on the current row of a focused panel; every
/// other row shows two spaces.
pub proof fn lemma_bullet_marks_focused_current(focused: bool, current: bool)
    ensures
        focused && current ==> spec_bullet(focused, current) == seq![' ', '▸'],
        !(focused && current) ==> spec_bullet(focused, current) == seq![' ', ' '],
{
    reveal_strlit(" ▸");
    reveal_strlit("  ");
    assert(" ▸"@ =~= seq![' ', '▸']);
    assert("  "@ =~= seq![' ', ' ']);
}

/// In the right panel, a field's row carries the marker exactly when the panel
/// is focused and the field is the focused one.
pub proof fn lemma_field_row_marker(
    r: FieldRow,
    p: Profile,
    i: int,
    field_idx: usize,
    input: InputView,
    focused: bool,
)
    requires
        field_entry(r, p, i, field_idx, input, focused),
    ensures
        (r matches FieldRow::Entry { marker, .. } && (marker@ == seq![' ', '▸'] <==> focused && i
            == field_idx) && (marker@ != seq![' ', '▸'] ==> marker@ == seq![' ', ' '])),
{
    lemma_bullet_marks_focused_current(focused, i == field_idx);
    lemma_bullet_marks_focused_current(focused, true);
}

/// The typing keys edit the text at the cursor: a character goes in at the
/// cursor and the cursor moves past it, Backspace takes out the character
/// before the cursor, Left and Right move the cursor by one within the text,
/// and nothing else changes; the profiles and the rest of the state stay.
pub proof fn lemma_typing_edits_at_cursor(
    b: Seq<char>,
    c: nat,
    key: Key,
)
    requires
        c <= b.len(),
    ensures
        key matches Key::Char(ch) ==> edit_buffer(b, c, key) == b.take(c as int) + seq![ch] + b.skip(
            c as int,
        ) && edit_cursor(b, c, key) == c + 1,
        key == Key::Backspace && c > 0 ==> edit_buffer(b, c, key) == b.take(c - 1) + b.skip(c as int)
            && edit_cursor(b, c, key) == c - 1,
        key == Key::Backspace && c == 0 ==> edit_buffer(b, c, key) == b && edit_cursor(b, c, key) == 0,
        key == Key::Left ==> edit_buffer(b, c, key) == b && edit_cursor(b, c, key) == (if c > 0 {
            c - 1
        } else {
            0
        }),
        key == Key::Right ==> edit_buffer(b, c, key) == b && edit_cursor(b, c, key) == (if c < b.len() {
            c + 1
        } else {
            c
        }),
        !(key is Char || key == Key::Backspace || key == Key::Left || key == Key::Right) ==> edit_buffer(
            b,
            c,
            key,
        ) == b && edit_cursor(b, c, key) == c,
{
    if let Key::Char(ch) = key {
        assert(b.insert(c as int, ch) =~= b.take(c as int) + seq![ch] + b.skip(c as int));
    }
    if key == Key::Backspace && c > 0 {
        assert(b.remove(c - 1) =~= b.take(c - 1) + b.skip(c as int));
    }
}

/// While typing, every key but Enter and Esc edits the text as
/// `lemma_typing_edits_at_cursor` says and changes nothing else; Esc drops the
/// text and changes nothing else.
pub proof fn lemma_typing_keys(v: AppView, press: KeyPress, new: AppView, out: Outcome)
    requires
        spec_step(v, press, new, out),
        !(v.input is Idle),
        press.key != Key::Enter,
    ensures
        out is Continue,
        new.profiles == v.profiles,
        new.names == v.names,
        new.selected == v.selected,
        new.focus == v.focus,
        new.field_idx == v.field_idx,
        press.key == Key::Esc ==> new.input is Idle,
        press.key != Key::Esc ==> (match v.input {
            InputView::Creating { buffer, cursor } => new.input == InputView::Creating {
                buffer: edit_buffer(buffer, cursor, press.key),
                cursor: edit_cursor(buffer, cursor, press.key),
            },
            InputView::Editing { buffer, cursor } => new.input == InputView::Editing {
                buffer: edit_buffer(buffer, cursor, press.key),
                cursor: edit_cursor(buffer, cursor, press.key),
            },
            InputView::Idle => true,
        }),
{
}

/// In the profile list, only the selected row of a focused list carries the
/// marker; with the field panel focused no row does.
pub proof fn lemma_profile_row_marker(r: ProfileRow, v: AppView, i: int)
    requires
        profile_row(r, v, i),
    ensures
        r.marker@ == seq![' ', '▸'] <==> v.focus == Focus::Left && i == sel_index(v),
        r.marker@ != seq![' ', '▸'] ==> r.marker@ == seq![' ', ' '],
{
    lemma_bullet_marks_focused_current(v.focus == Focus::Left, i == sel_index(v));
    lemma_bullet_marks_focused_current(true, true);
}

/// `d` in the profile list deletes the selected profile, keeps every other
/// one, and keeps the selection where it was or moves it onto the last name;
/// with no profile it does nothing.
pub proof fn lemma_delete_removes_selected(v: AppView, press: KeyPress, new: AppView, out: Outcome)
    requires
        spec_step(v, press, new, out),
        app_view_wf(v),
        v.input is Idle,
        v.focus == Focus::Left,
        press.key == Key::Char('d'),
    ensures
        v.names.len() == 0 ==> new == v && out is Continue,
        v.names.len() > 0 ==> {
            let name = v.names[sel_index(v)];
            &&& out is Save
            &&& !new.profiles.contains_key(name)
            &&& forall|k: Seq<char>|
                k != name ==> (#[trigger] new.profiles.contains_key(k) <==> v.profiles.contains_key(k))
                    && (v.profiles.contains_key(k) ==> new.profiles[k] == v.profiles[k])
            &&& forall|k: Seq<char>| #[trigger] new.names.contains(k) <==> new.profiles.contains_key(k)
            &&& new.selected == (if new.names.len() == 0 {
                None::<usize>
            } else if sel_index(v) < new.names.len() {
                Some(sel_index(v) as usize)
            } else {
                Some((new.names.len() - 1) as usize)
            })
        },
{
}

/// Enter while creating adds a profile named by the trimmed text, with
/// nothing set, and selects it, when that name is non-empty and new; any
/// other name changes nothing. Either way the text is dropped.
pub proof fn lemma_create_adds_and_selects(
    v: AppView,
    press: KeyPress,
    new: AppView,
    out: Outcome,
    name: Seq<char>,
)
    requires
        spec_step(v, press, new, out),
        v.input is Creating,
        press.key == Key::Enter,
        is_trim_of(name, v.input->Creating_buffer),
    ensures
        new.input is Idle,
        name.len() > 0 && !v.profiles.contains_key(name) ==> {
            &&& out is Save
            &&& new.profiles == v.profiles.insert(name, empty_profile())
            &&& new.selected is Some
            &&& new.selected->0 < new.names.len()
            &&& new.names[new.selected->0 as int] == name
            &&& forall|k: Seq<char>| #[trigger] new.names.contains(k) <==> new.profiles.contains_key(k)
        },
        !(name.len() > 0 && !v.profiles.contains_key(name)) ==> out is Continue && new.profiles
            == v.profiles && new.names == v.names && new.selected == v.selected,
{
    let chosen = choose|n: Seq<char>|
        is_trim_of(n, v.input->Creating_buffer) && #[trigger] create_with(v, n, new, out);
    lemma_trim_unique(name, chosen, v.input->Creating_buffer);
}

/// Enter while editing writes the text into the focused field of the selected
/// profile, and only there: the field then reads back the text (the empty
/// text unsets a model name or the description, and leaves the base URL as it
/// was), and every other profile stays.
pub proof fn lemma_commit_writes_field(v: AppView, press: KeyPress, new: AppView, out: Outcome)
    requires
        spec_step(v, press, new, out),
        v.input is Editing,
        press.key == Key::Enter,
        has_selected_profile(v),
    ensures
        ({
            let name = sel_name(v)->0;
            let b = v.input->Editing_buffer;
            let f = spec_field(v.field_idx as int);
            &&& out is Save
            &&& new.input is Idle
            &&& new.profiles.contains_key(name)
            &&& spec_get_view(f, new.profiles[name]) == (match f {
                Field::BaseUrl => if b.len() == 0 {
                    spec_get_view(f, v.profiles[name])
                } else {
                    Some(b)
                },
                Field::EnvKey => Some(b),
                _ => if b.len() == 0 {
                    None
                } else {
                    Some(b)
                },
            })
            &&& forall|k: Seq<char>|
                k != name ==> (#[trigger] new.profiles.contains_key(k) <==> v.profiles.contains_key(k))
                    && (v.profiles.contains_key(k) ==> new.profiles[k] == v.profiles[k])
        }),
{
    let name = sel_name(v)->0;
    let b = v.input->Editing_buffer;
    let p = choose|p: Profile|
        spec_set(spec_field(v.field_idx as int), v.profiles[name], p, b) && new.profiles
            == #[trigger] v.profiles.insert(name, p);
    lemma_get_after_set(spec_field(v.field_idx as int), v.profiles[name], p, b);
}

/// In the field panel, down and up move the focused field by one, wrapping
/// around, Left or `h` gives the focus back to the profile list, and Enter
/// starts editing the focused field of the selected profile from its current
/// value (empty when unset), with the cursor at its end.
pub proof fn lemma_field_panel_keys(v: AppView, press: KeyPress, new: AppView, out: Outcome)
    requires
        spec_step(v, press, new, out),
        app_view_wf(v),
        v.input is Idle,
        v.focus == Focus::Right,
        !(press.key == Key::Esc || press.key == Key::Char('q')),
    ensures
        out is Continue,
        new.profiles == v.profiles,
        new.names == v.names,
        new.selected == v.selected,
        press.key == Key::Down || press.key == Key::Char('j') ==> (new.field_idx == (if v.field_idx
            + 1 < PROFILE_FIELD_COUNT {
            v.field_idx + 1
        } else {
            0
        }) && (new.input is Idle) && new.focus == Focus::Right),
        press.key == Key::Up || press.key == Key::Char('k') ==> (new.field_idx == (if v.field_idx
            > 0 {
            v.field_idx - 1
        } else {
            PROFILE_FIELD_COUNT - 1
        }) && (new.input is Idle) && new.focus == Focus::Right),
        press.key == Key::Left || press.key == Key::Char('h') ==> (new.focus == Focus::Left
            && new.field_idx == v.field_idx && (new.input is Idle)),
        press.key == Key::Enter && has_selected_profile(v) ==> (new.focus == Focus::Right
            && new.field_idx == v.field_idx && new.input == editing_from(edit_start_value(v))),
        press.key == Key::Enter && !has_selected_profile(v) ==> new == v,
        has_selected_profile(v) ==> edit_start_value(v) == view_or_empty(
            spec_get_view(spec_field(v.field_idx as int), v.profiles[sel_name(v)->0]),
        ),
{
}

/// Editing that starts from `text`, with the cursor at its end.
pub open spec fn editing_from(text: Seq<char>) -> InputView {
    InputView::Editing { buffer: text, cursor: text.len() }
}

/// In the profile list, Right or `l` gives the focus to the field panel, and
/// `n` starts typing a new profile's name from empty text.
pub proof fn lemma_profile_list_keys(v: AppView, press: KeyPress, new: AppView, out: Outcome)
    requires
        spec_step(v, press, new, out),
        v.input is Idle,
        v.focus == Focus::Left,
    ensures
        press.key == Key::Right || press.key == Key::Char('l') ==> (out is Continue) && new.focus
            == Focus::Right && new.input == v.input && new.profiles == v.profiles && new.names
            == v.names && new.selected == v.selected && new.field_idx == v.field_idx,
        press.key == Key::Char('n') ==> (out is Continue) && new.focus == v.focus && new.input
            == creating_from_empty() && new.profiles == v.profiles && new.names == v.names
            && new.selected == v.selected && new.field_idx == v.field_idx,
{
}

/// Typing a new name from empty text.
pub open spec fn creating_from_empty() -> InputView {
    InputView::Creating { buffer: Seq::empty(), cursor: 0 }
}

/// The cursor block shows the cursor's place: the text before the cursor,
/// the block, then the rest of the text, so that taking the block out gives
/// the text back.
pub proof fn lemma_cursor_mark_in_place(b: Seq<char>, c: nat)
    ensures
        ({
            let k = if c <= b.len() {
                c as int
            } else {
                b.len() as int
            };
            &&& marked(b, c) == b.take(k) + seq!['█'] + b.skip(k)
            &&& marked(b, c).len() == b.len() + 1
            &&& marked(b, c)[k] == '█'
            &&& marked(b, c).remove(k) == b
        }),
{
    let k = if c <= b.len() {
        c as int
    } else {
        b.len() as int
    };
    assert(marked(b, c) =~= b.take(k) + seq!['█'] + b.skip(k));
    assert(marked(b, c).remove(k) =~= b);
}

/// A field's row shows the field's label and, while that field is being
/// edited, the typed text with the cursor block in yellow; otherwise the
/// profile's value, as set (green), or empty and dim when unset.
pub proof fn lemma_field_row_value(
    r: FieldRow,
    p: Profile,
    i: int,
    field_idx: usize,
    input: InputView,
    focused: bool,
)
    requires
        field_entry(r, p, i, field_idx, input, focused),
    ensures
        (r matches FieldRow::Entry { label, value, style, .. } && label@ == spec_label(i) && (if i
            == field_idx && input is Editing {
            let b = input->Editing_buffer;
            let c = input->Editing_cursor;
            let k = if c <= b.len() {
                c as int
            } else {
                b.len() as int
            };
            value@ == b.take(k) + seq!['█'] + b.skip(k) && style == ValueStyle::Typed
        } else {
            match spec_get(spec_field(i), p) {
                Some(v) => value@ == v@ && style == ValueStyle::Configured,
                None => value@.len() == 0 && style == ValueStyle::Unset,
            }
        })),
{
    if i == field_idx && input is Editing {
        lemma_cursor_mark_in_place(input->Editing_buffer, input->Editing_cursor);
    }
}

} // verus!
