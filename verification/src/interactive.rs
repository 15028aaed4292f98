//! The decisions of the interactive screens: the conflict options, list
//! selection and confirmation by key, the screen theme, and the texts shown.
//!
//! Drawing and reading keys are left to the caller, which hands each key to
//! the step functions here and acts on what they return.

use vstd::prelude::*;
use crate::color::{UiColor, UiColorName, UiColors};
use crate::config::OnConflict;
use crate::error::Error;
use crate::text::{chars_eq_str, from_chars, join, lines, push_decimal, push_str, split_lines, to_chars, decimal};

verus! {

// ---------------------------------------------------------------------------
// Conflict options
// ---------------------------------------------------------------------------

/// User's conflict resolution choice.
#[derive(Debug, Clone, Copy)]
pub struct ConflictChoice {
    pub mode: OnConflict,
    pub apply_to_all: bool,
}

/// Conflict resolution option for the interactive prompt.
#[derive(Debug, Clone, Copy, PartialEq, Eq, Structural)]
pub enum ConflictOption {
    Abort,
    Skip,
    SkipAll,
    Overwrite,
    OverwriteAll,
    Backup,
    BackupAll,
}

/// The options in the order they are offered.
pub open spec fn all_options() -> Seq<ConflictOption> {
    seq![
        ConflictOption::Abort,
        ConflictOption::Skip,
        ConflictOption::SkipAll,
        ConflictOption::Overwrite,
        ConflictOption::OverwriteAll,
        ConflictOption::Backup,
        ConflictOption::BackupAll,
    ]
}

/// The label shown for an option.
pub open spec fn option_label(o: ConflictOption) -> Seq<char> {
    match o {
        ConflictOption::Abort => "abort (cancel the entire operation)"@,
        ConflictOption::Skip => "skip (do not touch the existing file)"@,
        ConflictOption::SkipAll => "skip all (skip all future conflicts)"@,
        ConflictOption::Overwrite => "overwrite (deletes the existing file)"@,
        ConflictOption::OverwriteAll => "overwrite all (overwrite all future conflicts)"@,
        ConflictOption::Backup => "backup (renames existing to *.bak)"@,
        ConflictOption::BackupAll => "backup all (backup all future conflicts)"@,
    }
}

/// The first option, in the order offered, whose label is `s`.
pub open spec fn option_by_label(s: Seq<char>) -> Option<ConflictOption> {
    if s == option_label(ConflictOption::Abort) {
        Some(ConflictOption::Abort)
    } else if s == option_label(ConflictOption::Skip) {
        Some(ConflictOption::Skip)
    } else if s == option_label(ConflictOption::SkipAll) {
        Some(ConflictOption::SkipAll)
    } else if s == option_label(ConflictOption::Overwrite) {
        Some(ConflictOption::Overwrite)
    } else if s == option_label(ConflictOption::OverwriteAll) {
        Some(ConflictOption::OverwriteAll)
    } else if s == option_label(ConflictOption::Backup) {
        Some(ConflictOption::Backup)
    } else if s == option_label(ConflictOption::BackupAll) {
        Some(ConflictOption::BackupAll)
    } else {
        None
    }
}

/// The choice an option stands for.
pub open spec fn option_choice(o: ConflictOption) -> (OnConflict, bool) {
    match o {
        ConflictOption::Abort => (OnConflict::Abort, false),
        ConflictOption::Skip => (OnConflict::Skip, false),
        ConflictOption::SkipAll => (OnConflict::Skip, true),
        ConflictOption::Overwrite => (OnConflict::Overwrite, false),
        ConflictOption::OverwriteAll => (OnConflict::Overwrite, true),
        ConflictOption::Backup => (OnConflict::Backup, false),
        ConflictOption::BackupAll => (OnConflict::Backup, true),
    }
}

impl ConflictOption {
    /// The options in the order they are offered.
    pub fn all() -> (r: Vec<ConflictOption>)
        ensures
            r@ == all_options(),
    {
        let v = vec![
            ConflictOption::Abort,
            ConflictOption::Skip,
            ConflictOption::SkipAll,
            ConflictOption::Overwrite,
            ConflictOption::OverwriteAll,
            ConflictOption::Backup,
            ConflictOption::BackupAll,
        ];
        proof {
            assert(v@ =~= all_options());
        }
        v
    }

    /// The label shown for the option.
    pub fn label(&self) -> (r: &'static str)
        ensures
            r@ == option_label(*self),
    {
        match self {
            ConflictOption::Abort => "abort (cancel the entire operation)",
            ConflictOption::Skip => "skip (do not touch the existing file)",
            ConflictOption::SkipAll => "skip all (skip all future conflicts)",
            ConflictOption::Overwrite => "overwrite (deletes the existing file)",
            ConflictOption::OverwriteAll => "overwrite all (overwrite all future conflicts)",
            ConflictOption::Backup => "backup (renames existing to *.bak)",
            ConflictOption::BackupAll => "backup all (backup all future conflicts)",
        }
    }

    /// The option whose label is `s`.
    pub fn from_label(s: &str) -> (r: Option<ConflictOption>)
        ensures
            r == option_by_label(s@),
    {
        let all = ConflictOption::all();
        let cs = to_chars(s);
        let mut i: usize = 0;
        while i < all.len()
            invariant
                i <= all.len(),
                all@ == all_options(),
                cs@ == s@,
                forall|j: int| 0 <= j < i ==> option_label(#[trigger] all_options()[j]) != s@,
            decreases all.len() - i,
        {
            let opt = all[i];
            if chars_eq_str(&cs, opt.label()) {
                return Some(opt);
            }
            i = i + 1;
        }
        proof {
            assert(option_label(all_options()[0]) != s@);
            assert(option_label(all_options()[1]) != s@);
            assert(option_label(all_options()[2]) != s@);
            assert(option_label(all_options()[3]) != s@);
            assert(option_label(all_options()[4]) != s@);
            assert(option_label(all_options()[5]) != s@);
            assert(option_label(all_options()[6]) != s@);
        }
        None
    }

    /// The choice the option stands for.
    pub fn to_choice(self) -> (r: ConflictChoice)
        ensures
            (r.mode, r.apply_to_all) == option_choice(self),
    {
        match self {
            ConflictOption::Abort => ConflictChoice { mode: OnConflict::Abort, apply_to_all: false },
            ConflictOption::Skip => ConflictChoice { mode: OnConflict::Skip, apply_to_all: false },
            ConflictOption::SkipAll => ConflictChoice { mode: OnConflict::Skip, apply_to_all: true },
            ConflictOption::Overwrite => ConflictChoice {
                mode: OnConflict::Overwrite,
                apply_to_all: false,
            },
            ConflictOption::OverwriteAll => ConflictChoice {
                mode: OnConflict::Overwrite,
                apply_to_all: true,
            },
            ConflictOption::Backup => ConflictChoice { mode: OnConflict::Backup, apply_to_all: false },
            ConflictOption::BackupAll => ConflictChoice {
                mode: OnConflict::Backup,
                apply_to_all: true,
            },
        }
    }
}

/// Every option is found again by its label: the labels tell the options
/// apart.
pub proof fn law_label_round_trip(o: ConflictOption)
    ensures
        option_by_label(option_label(o)) == Some(o),
{
    reveal_strlit("abort (cancel the entire operation)");
    reveal_strlit("skip (do not touch the existing file)");
    reveal_strlit("skip all (skip all future conflicts)");
    reveal_strlit("overwrite (deletes the existing file)");
    reveal_strlit("overwrite all (overwrite all future conflicts)");
    reveal_strlit("backup (renames existing to *.bak)");
    reveal_strlit("backup all (backup all future conflicts)");
    let a = option_label(ConflictOption::Abort);
    let s = option_label(ConflictOption::Skip);
    let sa = option_label(ConflictOption::SkipAll);
    let ov = option_label(ConflictOption::Overwrite);
    let ova = option_label(ConflictOption::OverwriteAll);
    let b = option_label(ConflictOption::Backup);
    let ba = option_label(ConflictOption::BackupAll);
    assert(a[0] == 'a' && s[0] == 's' && sa[0] == 's' && ov[0] == 'o' && ova[0] == 'o' && b[0]
        == 'b' && ba[0] == 'b');
    assert(s[5] == '(' && sa[5] == 'a');
    assert(ov[10] == '(' && ova[10] == 'a');
    assert(b[7] == '(' && ba[7] == 'a');
}

/// The prompt shown for a conflict at `target`.
pub fn conflict_message(target: &str) -> (r: String)
    ensures
        r@ == "Conflict: '"@ + target@ + "' already exists."@,
{
    let mut out = to_chars("Conflict: '");
    push_str(&mut out, target);
    push_str(&mut out, "' already exists.");
    from_chars(&out)
}

/// The choice for the label the user selected; an unknown one aborts.
pub fn choice_from_selection(selection: &str) -> (r: ConflictChoice)
    ensures
        (r.mode, r.apply_to_all) == match option_by_label(selection@) {
            Some(o) => option_choice(o),
            None => option_choice(ConflictOption::Abort),
        },
{
    let option = match ConflictOption::from_label(selection) {
        Some(o) => o,
        None => ConflictOption::Abort,
    };
    option.to_choice()
}

// ---------------------------------------------------------------------------
// Selection and confirmation by key
// ---------------------------------------------------------------------------

/// A key as the screens see it.
#[derive(Debug, Clone, Copy, PartialEq, Eq, Structural)]
pub enum KeyCode {
    Esc,
    Enter,
    Up,
    Down,
    Char(char),
    Other,
}

/// A key press: the key and whether Control was held.
#[derive(Debug, Clone, Copy, PartialEq, Eq, Structural)]
pub struct KeyInput {
    pub code: KeyCode,
    pub ctrl: bool,
}

/// The cursor of a single-choice list.
#[derive(Debug, Clone, Copy)]
pub struct SimpleSelectState {
    pub cursor: usize,
}

impl SimpleSelectState {
    /// The cursor on the first item.
    pub fn new() -> (r: Self)
        ensures
            r.cursor == 0,
    {
        SimpleSelectState { cursor: 0 }
    }

    /// Move to the previous item, staying on the first.
    pub fn move_up(&mut self)
        ensures
            final(self).cursor == (if old(self).cursor > 0 {
                old(self).cursor - 1
            } else {
                0int
            }),
    {
        if self.cursor > 0 {
            self.cursor = self.cursor - 1;
        }
    }

    /// Move to the next of `len` items, staying on the last.
    pub fn move_down(&mut self, len: usize)
        ensures
            final(self).cursor == (if len > 0 && old(self).cursor + 1 < len {
                old(self).cursor + 1
            } else {
                old(self).cursor as int
            }),
    {
        if len == 0 {
            return;
        }
        if self.cursor < len && self.cursor + 1 < len {
            self.cursor = self.cursor + 1;
        }
    }
}

/// The cursor stays on an item: moving up or down keeps it below the number
/// of items.
pub proof fn law_cursor_stays_in_list(cursor: int, len: int)
    requires
        0 <= cursor < len,
    ensures
        0 <= (if cursor > 0 {
            cursor - 1
        } else {
            0
        }) < len,
        0 <= (if len > 0 && cursor + 1 < len {
            cursor + 1
        } else {
            cursor
        }) < len,
{
}

/// What a key does in a list.
#[derive(Debug, Clone, Copy, PartialEq, Eq, Structural)]
pub enum SelectStep {
    /// Keep the list open.
    Continue,
    /// Leave without a choice.
    Abort,
    /// Choose the item under the cursor.
    Choose,
}

/// Whether a key moves the cursor up: Up, Control-P or Control-K.
pub open spec fn is_up_key(k: KeyInput) -> bool {
    k.code == KeyCode::Up || (k.ctrl && (k.code == KeyCode::Char('p') || k.code == KeyCode::Char(
        'k',
    )))
}

/// Whether a key moves the cursor down: Down, Control-N or Control-J.
pub open spec fn is_down_key(k: KeyInput) -> bool {
    k.code == KeyCode::Down || (k.ctrl && (k.code == KeyCode::Char('n') || k.code
        == KeyCode::Char('j')))
}

/// One key in a list of `len` items: Control-C and Esc abort, Enter
/// chooses, the movement keys move the cursor, others do nothing.
pub fn select_key_step(state: &mut SimpleSelectState, key: KeyInput, len: usize) -> (r: SelectStep)
    ensures
        (key.ctrl && key.code == KeyCode::Char('c')) || key.code == KeyCode::Esc ==> r
            == SelectStep::Abort && final(state).cursor == old(state).cursor,
        !(key.ctrl && key.code == KeyCode::Char('c')) && key.code == KeyCode::Enter ==> r
            == SelectStep::Choose && final(state).cursor == old(state).cursor,
        !(key.ctrl && key.code == KeyCode::Char('c')) && key.code != KeyCode::Esc && key.code
            != KeyCode::Enter ==> r == SelectStep::Continue && final(state).cursor == (if is_up_key(
            key,
        ) {
            if old(state).cursor > 0 {
                (old(state).cursor - 1) as usize
            } else {
                0
            }
        } else if is_down_key(key) {
            if len > 0 && old(state).cursor + 1 < len {
                (old(state).cursor + 1) as usize
            } else {
                old(state).cursor
            }
        } else {
            old(state).cursor
        }),
{
    if key.ctrl && key.code == KeyCode::Char('c') {
        return SelectStep::Abort;
    }
    match key.code {
        KeyCode::Esc => SelectStep::Abort,
        KeyCode::Enter => SelectStep::Choose,
        KeyCode::Up => {
            state.move_up();
            SelectStep::Continue
        },
        KeyCode::Down => {
            state.move_down(len);
            SelectStep::Continue
        },
        KeyCode::Char(c) => {
            if key.ctrl {
                if c == 'p' || c == 'k' {
                    state.move_up();
                } else if c == 'n' || c == 'j' {
                    state.move_down(len);
                }
            }
            SelectStep::Continue
        },
        KeyCode::Other => SelectStep::Continue,
    }
}

/// The item chosen in a list: the one under the cursor; none aborts.
pub fn chosen_item(items: &Vec<String>, state: &SimpleSelectState) -> (r: Result<String, Error>)
    ensures
        state.cursor < items@.len() ==> (r matches Ok(s) && s@ == items@[state.cursor as int]@),
        state.cursor >= items@.len() ==> (r matches Err(Error::Aborted)),
{
    if state.cursor < items.len() {
        Ok(items[state.cursor].clone())
    } else {
        Err(Error::Aborted)
    }
}

/// What a key does in a yes/no dialog: `None` keeps it open.
pub fn confirm_key_step(key: KeyInput) -> (r: Option<Result<bool, Error>>)
    ensures
        (key.ctrl && key.code == KeyCode::Char('c')) ==> r matches Some(Err(Error::Aborted)),
        !(key.ctrl && key.code == KeyCode::Char('c')) ==> r == match key.code {
            KeyCode::Esc => Some(Ok::<bool, Error>(false)),
            KeyCode::Enter => Some(Ok::<bool, Error>(true)),
            KeyCode::Char(c) => if c == 'y' || c == 'Y' {
                Some(Ok::<bool, Error>(true))
            } else if c == 'n' || c == 'N' {
                Some(Ok::<bool, Error>(false))
            } else {
                None
            },
            _ => None,
        },
{
    if key.ctrl && key.code == KeyCode::Char('c') {
        return Some(Err(Error::Aborted));
    }
    match key.code {
        KeyCode::Esc => Some(Ok(false)),
        KeyCode::Enter => Some(Ok(true)),
        KeyCode::Char(c) => {
            if c == 'y' || c == 'Y' {
                Some(Ok(true))
            } else if c == 'n' || c == 'N' {
                Some(Ok(false))
            } else {
                None
            }
        },
        _ => None,
    }
}

/// The path chosen in a single-choice worktree list; none aborts.
pub fn first_selected(selected: Vec<String>) -> (r: Result<String, Error>)
    ensures
        selected@.len() > 0 ==> (r matches Ok(s) && s@ == selected@[0]@),
        selected@.len() == 0 ==> (r matches Err(Error::Aborted)),
{
    if selected.len() > 0 {
        Ok(selected[0].clone())
    } else {
        Err(Error::Aborted)
    }
}

// ---------------------------------------------------------------------------
// Screen theme
// ---------------------------------------------------------------------------

/// A color of the interactive screens.
#[derive(Debug, Clone, Copy, PartialEq, Eq, Structural)]
pub enum TermColor {
    Reset,
    Black,
    Red,
    Green,
    Yellow,
    Blue,
    Magenta,
    Cyan,
    Gray,
    DarkGray,
    LightRed,
    LightGreen,
    LightYellow,
    LightBlue,
    LightMagenta,
    LightCyan,
    White,
    Rgb(u8, u8, u8),
}

/// The screen color of a configuration color.
pub open spec fn term_color_of(color: UiColor) -> TermColor {
    match color {
        UiColor::Rgb(r, g, b) => TermColor::Rgb(r, g, b),
        UiColor::Named(name) => match name {
            UiColorName::Default => TermColor::Reset,
            UiColorName::Black => TermColor::Black,
            UiColorName::Red => TermColor::Red,
            UiColorName::Green => TermColor::Green,
            UiColorName::Yellow => TermColor::Yellow,
            UiColorName::Blue => TermColor::Blue,
            UiColorName::Magenta => TermColor::Magenta,
            UiColorName::Cyan => TermColor::Cyan,
            UiColorName::Gray => TermColor::Gray,
            UiColorName::DarkGray => TermColor::DarkGray,
            UiColorName::LightRed => TermColor::LightRed,
            UiColorName::LightGreen => TermColor::LightGreen,
            UiColorName::LightYellow => TermColor::LightYellow,
            UiColorName::LightBlue => TermColor::LightBlue,
            UiColorName::LightMagenta => TermColor::LightMagenta,
            UiColorName::LightCyan => TermColor::LightCyan,
            UiColorName::White => TermColor::White,
        },
    }
}

/// The screen color of a configuration color.
pub fn map_ui_color(color: UiColor) -> (r: TermColor)
    ensures
        r == term_color_of(color),
{
    match color {
        UiColor::Rgb(r, g, b) => TermColor::Rgb(r, g, b),
        UiColor::Named(name) => match name {
            UiColorName::Default => TermColor::Reset,
            UiColorName::Black => TermColor::Black,
            UiColorName::Red => TermColor::Red,
            UiColorName::Green => TermColor::Green,
            UiColorName::Yellow => TermColor::Yellow,
            UiColorName::Blue => TermColor::Blue,
            UiColorName::Magenta => TermColor::Magenta,
            UiColorName::Cyan => TermColor::Cyan,
            UiColorName::Gray => TermColor::Gray,
            UiColorName::DarkGray => TermColor::DarkGray,
            UiColorName::LightRed => TermColor::LightRed,
            UiColorName::LightGreen => TermColor::LightGreen,
            UiColorName::LightYellow => TermColor::LightYellow,
            UiColorName::LightBlue => TermColor::LightBlue,
            UiColorName::LightMagenta => TermColor::LightMagenta,
            UiColorName::LightCyan => TermColor::LightCyan,
            UiColorName::White => TermColor::White,
        },
    }
}

/// The colors of the interactive screens.
#[derive(Debug, Clone, Copy, PartialEq, Eq, Structural)]
pub struct UiTheme {
    pub border: TermColor,
    pub text: TermColor,
    pub accent: TermColor,
    pub header: TermColor,
    pub footer: TermColor,
    pub title: TermColor,
    pub label: TermColor,
    pub muted: TermColor,
    pub disabled: TermColor,
    pub search: TermColor,
    pub preview: TermColor,
    pub selection_bg: TermColor,
    pub selection_fg: TermColor,
    pub warning: TermColor,
    pub error: TermColor,
}

/// The default screen theme.
pub open spec fn default_ui_theme() -> UiTheme {
    UiTheme {
        border: TermColor::DarkGray,
        text: TermColor::White,
        accent: TermColor::Cyan,
        header: TermColor::LightCyan,
        footer: TermColor::Gray,
        title: TermColor::LightBlue,
        label: TermColor::LightMagenta,
        muted: TermColor::DarkGray,
        disabled: TermColor::DarkGray,
        search: TermColor::LightGreen,
        preview: TermColor::White,
        selection_bg: TermColor::Blue,
        selection_fg: TermColor::Black,
        warning: TermColor::Yellow,
        error: TermColor::Red,
    }
}

/// `current`, or the screen color of `c` when it is set.
pub open spec fn override_color(current: TermColor, c: Option<UiColor>) -> TermColor {
    match c {
        Some(color) => term_color_of(color),
        None => current,
    }
}

/// The screen theme with each configured color in its slot.
pub open spec fn ui_theme_from(colors: UiColors) -> UiTheme {
    let d = default_ui_theme();
    UiTheme {
        border: override_color(d.border, colors.border),
        text: override_color(d.text, colors.text),
        accent: override_color(d.accent, colors.accent),
        header: override_color(d.header, colors.header),
        footer: override_color(d.footer, colors.footer),
        title: override_color(d.title, colors.title),
        label: override_color(d.label, colors.label),
        muted: override_color(d.muted, colors.muted),
        disabled: override_color(d.disabled, colors.disabled),
        search: override_color(d.search, colors.search),
        preview: override_color(d.preview, colors.preview),
        selection_bg: override_color(d.selection_bg, colors.selection_bg),
        selection_fg: override_color(d.selection_fg, colors.selection_fg),
        warning: override_color(d.warning, colors.warning),
        error: override_color(d.error, colors.error),
    }
}

fn override_exec(current: TermColor, c: Option<UiColor>) -> (r: TermColor)
    ensures
        r == override_color(current, c),
{
    match c {
        Some(color) => map_ui_color(color),
        None => current,
    }
}

impl UiTheme {
    /// The default screen theme.
    pub fn default() -> (r: Self)
        ensures
            r == default_ui_theme(),
    {
        UiTheme {
            border: TermColor::DarkGray,
            text: TermColor::White,
            accent: TermColor::Cyan,
            header: TermColor::LightCyan,
            footer: TermColor::Gray,
            title: TermColor::LightBlue,
            label: TermColor::LightMagenta,
            muted: TermColor::DarkGray,
            disabled: TermColor::DarkGray,
            search: TermColor::LightGreen,
            preview: TermColor::White,
            selection_bg: TermColor::Blue,
            selection_fg: TermColor::Black,
            warning: TermColor::Yellow,
            error: TermColor::Red,
        }
    }

    /// The screen theme with the configured colors over the default one.
    pub fn from_colors(colors: &UiColors) -> (r: Self)
        ensures
            r == ui_theme_from(*colors),
    {
        let d = UiTheme::default();
        UiTheme {
            border: override_exec(d.border, colors.border),
            text: override_exec(d.text, colors.text),
            accent: override_exec(d.accent, colors.accent),
            header: override_exec(d.header, colors.header),
            footer: override_exec(d.footer, colors.footer),
            title: override_exec(d.title, colors.title),
            label: override_exec(d.label, colors.label),
            muted: override_exec(d.muted, colors.muted),
            disabled: override_exec(d.disabled, colors.disabled),
            search: override_exec(d.search, colors.search),
            preview: override_exec(d.preview, colors.preview),
            selection_bg: override_exec(d.selection_bg, colors.selection_bg),
            selection_fg: override_exec(d.selection_fg, colors.selection_fg),
            warning: override_exec(d.warning, colors.warning),
            error: override_exec(d.error, colors.error),
        }
    }
}

/// With no color configured, the screen theme is the default one.
pub proof fn law_unconfigured_theme_is_default(colors: UiColors)
    requires
        colors == (UiColors {
            border: None,
            text: None,
            accent: None,
            header: None,
            footer: None,
            title: None,
            label: None,
            muted: None,
            disabled: None,
            search: None,
            preview: None,
            selection_bg: None,
            selection_fg: None,
            warning: None,
            error: None,
        }),
    ensures
        ui_theme_from(colors) == default_ui_theme(),
{
}

// ---------------------------------------------------------------------------
// Breadcrumbs
// ---------------------------------------------------------------------------

/// How a piece of the breadcrumb line is styled.
#[derive(Debug, Clone, Copy, PartialEq, Eq, Structural)]
pub enum CrumbStyle {
    Header,
    Muted,
    Accent,
}

/// A piece of the breadcrumb line.
pub struct Crumb {
    pub text: String,
    pub style: CrumbStyle,
}

/// The separator and text of crumb `i` of `n`: the last one highlighted.
pub open spec fn crumb_part(crumbs: Seq<Seq<char>>, i: int, n: int) -> Seq<(Seq<char>, CrumbStyle)> {
    (if i > 0 {
        seq![(" > "@, CrumbStyle::Muted)]
    } else {
        seq![]
    }) + seq![(crumbs[i], if i == n - 1 {
        CrumbStyle::Accent
    } else {
        CrumbStyle::Header
    })]
}

/// The pieces of the breadcrumb line up to crumb `k` of `n`.
pub open spec fn crumb_pieces(command: Seq<char>, crumbs: Seq<Seq<char>>, k: int, n: int) -> Seq<(Seq<char>, CrumbStyle)>
    decreases k,
{
    if k <= 0 {
        seq![(command + ": "@, CrumbStyle::Header)]
    } else {
        crumb_pieces(command, crumbs, k - 1, n) + crumb_part(crumbs, k - 1, n)
    }
}

/// The views of breadcrumb pieces.
pub open spec fn crumb_views(v: Seq<Crumb>) -> Seq<(Seq<char>, CrumbStyle)> {
    Seq::new(v.len(), |i: int| (v[i].text@, v[i].style))
}

fn push_crumb(out: &mut Vec<Crumb>, text: String, style: CrumbStyle)
    ensures
        crumb_views(final(out)@) == crumb_views(old(out)@).push((text@, style)),
{
    let ghost before = crumb_views(out@);
    out.push(Crumb { text, style });
    proof {
        assert(crumb_views(out@) =~= before.push((text@, style)));
    }
}

/// The breadcrumb line `{command}: crumb1 > crumb2 > ...`, piece by piece,
/// the last crumb highlighted.
pub fn breadcrumb_pieces(command: &str, crumbs: &Vec<String>) -> (r: Vec<Crumb>)
    ensures
        crumb_views(r@) == crumb_pieces(
            command@,
            crate::text::string_views(crumbs@),
            crumbs@.len() as int,
            crumbs@.len() as int,
        ),
{
    let ghost cv = crate::text::string_views(crumbs@);
    let n = crumbs.len();
    let mut out: Vec<Crumb> = Vec::new();
    let mut head = to_chars(command);
    push_str(&mut head, ": ");
    push_crumb(&mut out, from_chars(&head), CrumbStyle::Header);
    proof {
        assert(crumb_views(out@) =~= crumb_pieces(command@, cv, 0, n as int));
    }
    let mut i: usize = 0;
    while i < n
        invariant
            i <= n,
            n == crumbs@.len(),
            cv == crate::text::string_views(crumbs@),
            crumb_views(out@) == crumb_pieces(command@, cv, i as int, n as int),
        decreases n - i,
    {
        let ghost before = crumb_views(out@);
        if i > 0 {
            push_crumb(&mut out, " > ".to_owned(), CrumbStyle::Muted);
        }
        let style = if i == n - 1 {
            CrumbStyle::Accent
        } else {
            CrumbStyle::Header
        };
        push_crumb(&mut out, crumbs[i].clone(), style);
        proof {
            assert(crumb_views(out@) =~= before + crumb_part(cv, i as int, n as int));
        }
        i = i + 1;
    }
    out
}

/// Guard of a list to choose from: there must be something to choose.
pub fn check_items(items: &Vec<String>) -> (r: Result<(), Error>)
    ensures
        items@.len() == 0 ==> (r matches Err(Error::Selector { message }) && message@
            == "No items to select"@),
        items@.len() > 0 ==> r is Ok,
{
    if items.len() == 0 {
        Err(Error::Selector { message: "No items to select".to_owned() })
    } else {
        Ok(())
    }
}

/// Whether a key event is acted on: presses and repeats are, releases are
/// not (one press also reports its release).
#[derive(Debug, Clone, Copy, PartialEq, Eq, Structural)]
pub enum KeyEventKind {
    Press,
    Repeat,
    Release,
}

/// Whether a key event of this kind is handed on.
pub fn is_actionable(kind: KeyEventKind) -> (r: bool)
    ensures
        r == (kind != KeyEventKind::Release),
{
    match kind {
        KeyEventKind::Release => false,
        _ => true,
    }
}

// ---------------------------------------------------------------------------
// Safety warnings before removal
// ---------------------------------------------------------------------------

/// Safety warning information for a worktree.
#[derive(Debug, Clone)]
pub struct SafetyWarning {
    pub path: String,
    pub has_uncommitted: bool,
    pub modified_count: usize,
    pub deleted_count: usize,
    pub untracked_count: usize,
    pub has_unpushed: bool,
    pub unpushed_count: usize,
}

/// A count line of a warning, when the count is not zero.
pub open spec fn count_line(prefix: Seq<char>, n: nat, what: Seq<char>) -> Seq<Seq<char>> {
    if n > 0 {
        seq![prefix + decimal(n) + what]
    } else {
        seq![]
    }
}

/// The lines that describe one warning, after its path line, each with
/// `prefix` in front.
pub open spec fn warning_detail_lines(w: SafetyWarning, prefix: Seq<char>) -> Seq<Seq<char>> {
    count_line(prefix, w.modified_count as nat, " modified file(s)"@) + count_line(
        prefix,
        w.deleted_count as nat,
        " deleted file(s)"@,
    ) + count_line(prefix, w.untracked_count as nat, " untracked file(s)"@) + (if w.has_unpushed {
        seq![prefix + decimal(w.unpushed_count as nat) + " unpushed commit(s)"@]
    } else {
        seq![]
    })
}

/// The details of the removal confirmation: a heading, then for each
/// warning its path, its lines and an empty line; the trailing empty lines
/// removed.
pub open spec fn removal_details_raw(ws: Seq<SafetyWarning>) -> Seq<Seq<char>>
    decreases ws.len(),
{
    if ws.len() == 0 {
        seq!["Warning: The following worktrees have unsaved work:"@]
    } else {
        removal_details_raw(ws.drop_last()) + seq!["  "@ + ws.last().path@] + warning_detail_lines(
            ws.last(),
            "    - "@,
        ) + seq![seq![]]
    }
}

/// `ls` without its trailing empty lines.
pub open spec fn drop_trailing_empty(ls: Seq<Seq<char>>) -> Seq<Seq<char>>
    decreases ls.len(),
{
    if ls.len() > 0 && ls.last().len() == 0 {
        drop_trailing_empty(ls.drop_last())
    } else {
        ls
    }
}

fn push_count_line(out: &mut Vec<String>, prefix: &str, n: usize, what: &str)
    ensures
        crate::text::string_views(final(out)@) == crate::text::string_views(old(out)@) + count_line(
            prefix@,
            n as nat,
            what@,
        ),
{
    let ghost before = crate::text::string_views(out@);
    if n > 0 {
        let mut line = to_chars(prefix);
        push_decimal(&mut line, n);
        push_str(&mut line, what);
        out.push(from_chars(&line));
        proof {
            assert(crate::text::string_views(out@) =~= before + count_line(prefix@, n as nat, what@));
        }
    } else {
        proof {
            assert(before + count_line(prefix@, n as nat, what@) =~= before);
        }
    }
}

/// The details shown before removing worktrees that hold unsaved work.
pub fn removal_details(warnings: &Vec<SafetyWarning>) -> (r: Vec<String>)
    ensures
        crate::text::string_views(r@) == drop_trailing_empty(removal_details_raw(warnings@)),
{
    let mut details: Vec<String> = Vec::new();
    details.push("Warning: The following worktrees have unsaved work:".to_owned());
    proof {
        assert(crate::text::string_views(details@) =~= removal_details_raw(warnings@.take(0)));
    }
    let mut i: usize = 0;
    while i < warnings.len()
        invariant
            i <= warnings.len(),
            crate::text::string_views(details@) == removal_details_raw(warnings@.take(i as int)),
        decreases warnings.len() - i,
    {
        let w = &warnings[i];
        proof {
            assert(warnings@.take(i + 1).drop_last() =~= warnings@.take(i as int));
        }
        let ghost start = crate::text::string_views(details@);
        let mut path_line = to_chars("  ");
        push_str(&mut path_line, w.path.as_str());
        details.push(from_chars(&path_line));
        proof {
            assert(crate::text::string_views(details@) =~= start + seq!["  "@ + w.path@]);
        }
        push_count_line(&mut details, "    - ", w.modified_count, " modified file(s)");
        push_count_line(&mut details, "    - ", w.deleted_count, " deleted file(s)");
        push_count_line(&mut details, "    - ", w.untracked_count, " untracked file(s)");
        let ghost mid = crate::text::string_views(details@);
        if w.has_unpushed {
            let mut line = to_chars("    - ");
            push_decimal(&mut line, w.unpushed_count);
            push_str(&mut line, " unpushed commit(s)");
            details.push(from_chars(&line));
            proof {
                assert(crate::text::string_views(details@) =~= mid + seq!["    - "@ + decimal(
                    w.unpushed_count as nat,
                ) + " unpushed commit(s)"@]);
            }
        } else {
            proof {
                assert(mid + seq![] =~= mid);
            }
        }
        let ghost mid2 = crate::text::string_views(details@);
        details.push(String::new());
        proof {
            assert(crate::text::string_views(details@) =~= mid2 + seq![seq![]]);
            assert(crate::text::string_views(details@) =~= removal_details_raw(warnings@.take(i + 1)));
        }
        i = i + 1;
    }
    proof {
        assert(warnings@.take(warnings.len() as int) =~= warnings@);
    }
    while details.len() > 0 && details[details.len() - 1].as_str().is_empty()
        invariant
            drop_trailing_empty(crate::text::string_views(details@)) == drop_trailing_empty(
                removal_details_raw(warnings@),
            ),
        decreases details.len(),
    {
        let ghost before = crate::text::string_views(details@);
        details.pop();
        proof {
            assert(crate::text::string_views(details@) =~= before.drop_last());
        }
    }
    details
}

// ---------------------------------------------------------------------------
// Text cut to a width
// ---------------------------------------------------------------------------

/// What `unicode-width` gives as the displayed width of a character.
pub uninterp spec fn unicode_width_of(c: char) -> Option<usize>;

/// The displayed width of a character, `None` for a control character:
/// `unicode_width::UnicodeWidthChar::width`.  Its source gives `None` below
/// U+0020 and from U+007F to U+009F, one column for the rest of ASCII, and
/// at most three columns from U+00A0 on (its table holds widths 0 to 2,
/// and 3 for U+17D8).
#[verifier::external_body]
fn char_width(c: char) -> (r: Option<usize>)
    ensures
        r == unicode_width_of(c),
        (c as u32) < 0x20 ==> r is None,
        0x20 <= (c as u32) < 0x7F ==> r == Some(1usize),
        0x7F <= (c as u32) < 0xA0 ==> r is None,
        0xA0 <= (c as u32) ==> r is Some && r.unwrap() <= 3,
{
    unicode_width::UnicodeWidthChar::width(c)
}

/// The characters of a line kept within `max` columns, starting at column
/// `cur`: control characters are dropped, and the line ends at the first
/// character that would pass the limit.
pub open spec fn fit_chars(cs: Seq<char>, cur: nat, max: nat) -> Seq<char>
    decreases cs.len(),
{
    if cs.len() == 0 {
        seq![]
    } else {
        match unicode_width_of(cs[0]) {
            None => fit_chars(cs.drop_first(), cur, max),
            Some(w) => if cur + w > max {
                seq![]
            } else {
                seq![cs[0]] + fit_chars(cs.drop_first(), (cur + w) as nat, max)
            },
        }
    }
}

/// The columns a text takes on screen: control characters take none.
pub open spec fn display_width(cs: Seq<char>) -> nat
    decreases cs.len(),
{
    if cs.len() == 0 {
        0
    } else {
        (match unicode_width_of(cs[0]) {
            Some(w) => w as nat,
            None => 0,
        }) + display_width(cs.drop_first())
    }
}

/// A line cut to a limit fits within it: starting at column `cur`, what is
/// kept ends at column `max` at the latest.
pub proof fn law_cut_line_fits(cs: Seq<char>, cur: nat, max: nat)
    requires
        cur <= max,
    ensures
        cur + display_width(fit_chars(cs, cur, max)) <= max,
    decreases cs.len(),
{
    if cs.len() > 0 {
        match unicode_width_of(cs[0]) {
            None => {
                law_cut_line_fits(cs.drop_first(), cur, max);
            },
            Some(w) => {
                if cur + w <= max {
                    law_cut_line_fits(cs.drop_first(), (cur + w) as nat, max);
                    let kept = fit_chars(cs, cur, max);
                    assert(kept == seq![cs[0]] + fit_chars(cs.drop_first(), (cur + w) as nat, max));
                    assert(kept.drop_first() =~= fit_chars(cs.drop_first(), (cur + w) as nat, max));
                    assert(kept[0] == cs[0]);
                } else {
                    assert(fit_chars(cs, cur, max) =~= Seq::<char>::empty());
                }
            },
        }
    }
}

/// A text cut to `width` columns, line by line.
pub open spec fn truncated_text(text: Seq<char>, width: nat) -> Seq<char> {
    if width == 0 {
        seq![]
    } else {
        join(lines(text).map_values(|l: Seq<char>| fit_chars(l, 0, width)), "\n"@)
    }
}

fn fit_line(line: &Vec<char>, max: usize) -> (r: Vec<char>)
    requires
        max <= 0xFFFF,
    ensures
        r@ == fit_chars(line@, 0, max as nat),
{
    let mut out: Vec<char> = Vec::new();
    let mut current_width: usize = 0;
    let mut i: usize = 0;
    proof {
        assert(line@.skip(0) =~= line@);
        assert(out@ + fit_chars(line@, 0, max as nat) =~= fit_chars(line@, 0, max as nat));
    }
    while i < line.len()
        invariant
            i <= line.len(),
            max <= 0xFFFF,
            current_width <= max,
            out@ + fit_chars(line@.skip(i as int), current_width as nat, max as nat) == fit_chars(
                line@,
                0,
                max as nat,
            ),
        decreases line.len() - i,
    {
        let ch = line[i];
        let ghost rest = line@.skip(i as int);
        proof {
            assert(rest[0] == ch);
            assert(rest.drop_first() =~= line@.skip(i + 1));
        }
        match char_width(ch) {
            None => {},
            Some(w) => {
                assert(w <= 3);
                if current_width + w > max {
                    proof {
                        assert(out@ + seq![] =~= out@);
                    }
                    return out;
                }
                out.push(ch);
                proof {
                    assert(out@ + fit_chars(line@.skip(i + 1), (current_width + w) as nat, max as nat)
                        =~= out@.drop_last() + (seq![ch] + fit_chars(
                        line@.skip(i + 1),
                        (current_width + w) as nat,
                        max as nat,
                    )));
                }
                current_width = current_width + w;
            },
        }
        i = i + 1;
    }
    proof {
        assert(line@.skip(i as int).len() == 0);
        assert(out@ + seq![] =~= out@);
    }
    out
}

/// Cut a text to `width` columns, line by line, dropping control characters.
pub fn truncate_text_for_width(text: String, width: u16) -> (r: String)
    ensures
        r@ == truncated_text(text@, width as nat),
{
    if width == 0 {
        return String::new();
    }
    let max = width as usize;
    let ls = split_lines(&to_chars(text.as_str()));
    let ghost fitted = lines(text@).map_values(|l: Seq<char>| fit_chars(l, 0, max as nat));
    let mut out: Vec<char> = Vec::new();
    let mut i: usize = 0;
    while i < ls.len()
        invariant
            i <= ls.len(),
            max <= 0xFFFF,
            crate::text::buffer_views(ls@) == lines(text@),
            fitted == lines(text@).map_values(|l: Seq<char>| fit_chars(l, 0, max as nat)),
            out@ == join(fitted.take(i as int), "\n"@),
        decreases ls.len() - i,
    {
        proof {
            assert(fitted.take(i + 1).drop_last() =~= fitted.take(i as int));
            assert(fitted.take(i + 1).last() == fit_chars(ls@[i as int]@, 0, max as nat));
        }
        if i > 0 {
            out.push('\n');
        } else {
            proof {
                assert(out@ =~= Seq::<char>::empty());
            }
        }
        let f = fit_line(&ls[i], max);
        let ghost before = out@;
        crate::text::push_all(&mut out, &f);
        proof {
            if i > 0 {
                assert("\n"@ =~= seq!['\n']) by {
                    reveal_strlit("\n");
                }
                assert(out@ =~= join(fitted.take(i as int), "\n"@) + "\n"@ + f@);
            } else {
                assert(out@ =~= f@);
            }
        }
        i = i + 1;
    }
    proof {
        assert(fitted.take(ls.len() as int) =~= fitted);
    }
    from_chars(&out)
}

} // verus!
