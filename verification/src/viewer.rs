//! The viewer's state machine: what each key press does to the view, the
//! search, the files and the bookmarks, and which outside work (reading a
//! file, loading a theme or the configuration, quitting) it asks for.

use vstd::prelude::*;

use crate::links::{capped_links, choose_link, chosen_link, line_links, links_of_line};
use crate::markdown::md_events;
use crate::render::{decimal, decimal_exec, lines_view, render, render_spec, renderer_spec, strs_view, SpanV};
use crate::screen::{gutter_style, line_kinds, line_kinds_exec, number_cell, prepend_line_number, LineKind};
use crate::search::{
    find_next_match, find_prev_match, highlight_line, highlight_view, highlightable, line_highlightable,
    search_lines, spec_next_match, spec_prev_match, spec_search_lines, strictly_sorted, strings_view,
};
use crate::style::{spans_view, Color, Line, Modifier, Span, Style};
use crate::text::{chars_of, contains_seq, lines_from, spec_lowercase, split_lines, str_eq, string_of, to_lowercase, vv};
use crate::theme::{style_as_style_spec, Theme, ThemeView};

verus! {

/// How text wrapping behaves in the viewport.
#[derive(Clone, Copy, Debug, PartialEq, Eq, Structural)]
pub enum WrapMode {
    /// Lines are not wrapped; the view scrolls sideways.
    NoWrap,
    Word,
    Char,
}

/// The wrap mode a name selects: `none`, `char`, and `word` for anything else.
pub open spec fn wrap_mode_of(s: Seq<char>) -> WrapMode {
    if s == "none"@ {
        WrapMode::NoWrap
    } else if s == "char"@ {
        WrapMode::Char
    } else {
        WrapMode::Word
    }
}

/// The name of a wrap mode.
pub open spec fn wrap_mode_name(m: WrapMode) -> Seq<char> {
    match m {
        WrapMode::NoWrap => "none"@,
        WrapMode::Word => "word"@,
        WrapMode::Char => "char"@,
    }
}

impl WrapMode {
    /// The wrap mode a name selects; unknown names select word wrapping.
    pub fn from_str(s: &str) -> (r: WrapMode)
        ensures
            r == wrap_mode_of(s@),
    {
        if str_eq(s, "none") {
            WrapMode::NoWrap
        } else if str_eq(s, "char") {
            WrapMode::Char
        } else {
            WrapMode::Word
        }
    }

    /// The name of the wrap mode.
    pub fn as_str(&self) -> (r: &'static str)
        ensures
            r@ == wrap_mode_name(*self),
    {
        match self {
            WrapMode::NoWrap => "none",
            WrapMode::Word => "word",
            WrapMode::Char => "char",
        }
    }
}

/// Reading a wrap mode's name gives the wrap mode back.
pub proof fn law_wrap_mode_round_trip(m: WrapMode)
    ensures
        wrap_mode_of(wrap_mode_name(m)) == m,
{
    reveal_strlit("none");
    reveal_strlit("word");
    reveal_strlit("char");
    assert("word"@ != "none"@ && "word"@ != "char"@ && "char"@ != "none"@) by {
        assert("word"@[0] != "none"@[0]);
        assert("word"@[0] != "char"@[0]);
        assert("char"@[0] != "none"@[0]);
    }
}

/// Application mode: how keyboard input is interpreted.
#[derive(Clone, Copy, Debug, PartialEq, Eq, Structural)]
pub enum Mode {
    Normal,
    SearchForward,
    SearchBackward,
    GoToLine,
    FileList,
}

/// The key of a key press.
#[derive(Clone, Copy, Debug, PartialEq, Eq, Structural)]
pub enum KeyCode {
    Char(char),
    Up,
    Down,
    Left,
    Right,
    PageUp,
    PageDown,
    Home,
    End,
    Enter,
    Esc,
    Backspace,
    /// Any other key.
    Other,
}

/// A key press: the key and whether Control was held.
#[derive(Clone, Copy, Debug, PartialEq, Eq, Structural)]
pub struct KeyPress {
    pub code: KeyCode,
    pub ctrl: bool,
}

/// Scrolling, cursor and display settings of the viewport.
#[derive(Clone, Copy, Debug, PartialEq, Eq, Structural)]
pub struct ViewState {
    pub cursor_line: usize,
    pub cursor_col: u16,
    pub viewport_height: u16,
    pub scroll: usize,
    pub h_scroll: u16,
    pub max_scroll: usize,
    pub show_status: bool,
    pub show_line_numbers: bool,
    pub wrap_mode: WrapMode,
    pub raw_mode: bool,
}

/// The viewport height, at least one line.
pub open spec fn page(v: ViewState) -> nat {
    if v.viewport_height == 0 {
        1
    } else {
        v.viewport_height as nat
    }
}

/// The view scrolled so that the cursor is visible: vertically the least
/// scroll that shows the cursor line; sideways, when lines are not wrapped,
/// back to the cursor column when it is left of the first visible column.
/// Column arithmetic is done in 16-bit signed integers, wrapping as a release
/// build does.
pub open spec fn follow_spec(v: ViewState) -> ViewState {
    let vh = page(v);
    let scroll = if v.cursor_line < v.scroll {
        v.cursor_line
    } else if v.cursor_line - v.scroll >= vh {
        (v.cursor_line + 1 - vh) as usize
    } else {
        v.scroll
    };
    let lw: i16 = if v.show_line_numbers {
        1
    } else {
        0
    };
    let screen_col = vstd::wrapping::i16_specs::wrapping_sub(v.cursor_col as i16, v.h_scroll as i16);
    let h_scroll = if v.wrap_mode == WrapMode::NoWrap && screen_col < lw {
        if v.cursor_col >= lw {
            (v.cursor_col - lw) as u16
        } else {
            0
        }
    } else {
        v.h_scroll
    };
    ViewState { scroll, h_scroll, ..v }
}

/// Scrolls the view so that the cursor is visible.
pub fn follow_cursor(v: &mut ViewState)
    ensures
        *final(v) == follow_spec(*old(v)),
{
    let vh: usize = if v.viewport_height == 0 {
        1
    } else {
        v.viewport_height as usize
    };
    if v.cursor_line < v.scroll {
        v.scroll = v.cursor_line;
    } else if v.cursor_line - v.scroll >= vh {
        v.scroll = v.cursor_line - vh + 1;
    }
    if v.wrap_mode == WrapMode::NoWrap {
        let lw: u16 = if v.show_line_numbers {
            1
        } else {
            0
        };
        let screen_col = (#[verifier::truncate] (v.cursor_col as i16)).wrapping_sub(
            #[verifier::truncate] (v.h_scroll as i16),
        );
        if screen_col < (lw as i16) {
            v.h_scroll = v.cursor_col.saturating_sub(lw);
        }
    }
}

/// After following, the cursor line is on screen: at or below the first
/// visible line and above the first line past the viewport.
pub proof fn law_follow_shows_cursor(v: ViewState)
    ensures
        follow_spec(v).scroll <= v.cursor_line < follow_spec(v).scroll + page(v),
        follow_spec(v).cursor_line == v.cursor_line,
        follow_spec(v).cursor_col == v.cursor_col,
{
}


/// The viewer: the document and its rendering, the view, the search, the
/// open files, the bookmarks and the input mode.
pub struct App {
    lines: Vec<Line>,
    raw_lines: Vec<String>,
    content: String,
    content_lines: Vec<String>,
    theme: Theme,
    view: ViewState,
    input_buf: String,
    search_query: String,
    search_results: Vec<usize>,
    search_idx: Option<usize>,
    saved_query: String,
    saved_results: Vec<usize>,
    saved_idx: Option<usize>,
    search_history: Vec<String>,
    search_history_idx: Option<usize>,
    files: Vec<String>,
    file_index: usize,
    file_history: Vec<String>,
    file_name: String,
    bookmarks: Vec<Option<usize>>,
    expecting_bookmark_set: bool,
    expecting_bookmark_jump: bool,
    mode: Mode,
    status_message: Option<String>,
    pending_count: Option<usize>,
}

/// The mathematical value of the viewer's state.
#[verifier::ext_equal]
pub struct AppView {
    /// The rendered lines of the document and their plain texts.
    pub lines: Seq<Seq<SpanV>>,
    pub raw: Seq<Seq<char>>,
    /// The markdown text of the document.
    pub text: Seq<char>,
    pub theme: ThemeView,
    pub view: ViewState,
    /// What is being typed after `/`, `?` or `:`.
    pub input: Seq<char>,
    /// The active search and the lines that match it, in order.
    pub query: Seq<char>,
    pub results: Seq<usize>,
    /// The line of the current match.
    pub idx: Option<usize>,
    /// The search, its matches and the current match as they were when
    /// typing a search began; `Esc` brings them back.
    pub saved_query: Seq<char>,
    pub saved_results: Seq<usize>,
    pub saved_idx: Option<usize>,
    pub history: Seq<Seq<char>>,
    pub history_idx: Option<usize>,
    /// The open files, the shown one, and the files left by following links.
    pub files: Seq<Seq<char>>,
    pub file_index: usize,
    pub file_history: Seq<Seq<char>>,
    /// The name of the file whose text is the document, as it was read.
    pub file_name: Seq<char>,
    /// The line of each bookmark `a` to `z`.
    pub marks: Seq<Option<usize>>,
    pub expect_set: bool,
    pub expect_jump: bool,
    pub mode: Mode,
    pub status: Option<Seq<char>>,
    /// The count typed before a command.
    pub pending: Option<usize>,
}

pub open spec fn opt_str(o: Option<String>) -> Option<Seq<char>> {
    match o {
        Some(s) => Some(s@),
        None => None,
    }
}

impl View for App {
    type V = AppView;

    closed spec fn view(&self) -> AppView {
        AppView {
            lines: lines_view(self.lines@),
            raw: strs_view(self.raw_lines@),
            text: self.content@,
            theme: self.theme@,
            view: self.view,
            input: self.input_buf@,
            query: self.search_query@,
            results: self.search_results@,
            idx: self.search_idx,
            saved_query: self.saved_query@,
            saved_results: self.saved_results@,
            saved_idx: self.saved_idx,
            history: strings_view(self.search_history@),
            history_idx: self.search_history_idx,
            files: strings_view(self.files@),
            file_index: self.file_index,
            file_history: strings_view(self.file_history@),
            file_name: self.file_name@,
            marks: self.bookmarks@,
            expect_set: self.expecting_bookmark_set,
            expect_jump: self.expecting_bookmark_jump,
            mode: self.mode,
            status: opt_str(self.status_message),
            pending: self.pending_count,
        }
    }
}

/// What holds of every state of the viewer apart from its rendering: the
/// search results, and those kept for `Esc`, are in increasing order; there is
/// a slot for each bookmark letter; the shown file and the history position
/// are in range; the search history keeps at most 50 entries.
pub open spec fn frame_wf(s: AppView) -> bool {
    &&& strictly_sorted(s.results)
    &&& strictly_sorted(s.saved_results)
    &&& s.marks.len() == 26
    &&& (s.files.len() == 0 ==> s.file_index == 0)
    &&& (s.files.len() > 0 ==> s.file_index < s.files.len())
    &&& (s.history_idx matches Some(i) ==> i <= s.history.len())
    &&& s.history.len() <= 50
}

/// What holds of every state of the viewer: `frame_wf`, and the lines are the
/// document rendered with the theme, one plain text per line, with the cursor
/// and the scroll within them.
pub open spec fn state_wf(s: AppView) -> bool {
    &&& frame_wf(s)
    &&& (s.lines, s.raw) == render_spec(renderer_spec(s.theme), md_events(s.text))
    &&& s.lines.len() == s.raw.len()
    &&& s.view.cursor_line <= s.view.max_scroll
    &&& s.view.scroll <= s.view.max_scroll
    &&& s.view.max_scroll < usize::MAX
}

pub open spec fn umin(a: usize, b: usize) -> usize {
    if a < b {
        a
    } else {
        b
    }
}

/// The last line the view can scroll to for `n` lines.
pub open spec fn last_line(n: nat) -> usize {
    if n == 0 {
        0
    } else {
        (n - 1) as usize
    }
}

/// The state with `text` as its document: rendered with the theme, and the
/// cursor and scroll pulled back within it.
pub open spec fn with_document(s: AppView, text: Seq<char>) -> AppView {
    let r = render_spec(renderer_spec(s.theme), md_events(text));
    let max = last_line(r.0.len());
    AppView {
        lines: r.0,
        raw: r.1,
        text,
        view: ViewState { max_scroll: max, scroll: umin(s.view.scroll, max), cursor_line: umin(s.view.cursor_line, max), ..s.view },
        ..s
    }
}

/// A viewer of the files named `files`, before any document is rendered.
pub open spec fn initial_state(
    files: Seq<Seq<char>>,
    wrap_mode: WrapMode,
    line_numbers: bool,
    show_status: bool,
    theme: ThemeView,
) -> AppView {
    AppView {
        lines: Seq::empty(),
        raw: Seq::empty(),
        text: Seq::empty(),
        theme,
        view: ViewState {
            cursor_line: 0,
            cursor_col: 0,
            viewport_height: 20,
            scroll: 0,
            h_scroll: 0,
            max_scroll: 0,
            show_status,
            show_line_numbers: line_numbers,
            wrap_mode,
            raw_mode: false,
        },
        input: Seq::empty(),
        query: Seq::empty(),
        results: Seq::empty(),
        idx: None,
        saved_query: Seq::empty(),
        saved_results: Seq::empty(),
        saved_idx: None,
        history: Seq::empty(),
        history_idx: None,
        files,
        file_index: 0,
        file_history: Seq::empty(),
        file_name: Seq::empty(),
        marks: Seq::new(26, |i: int| None),
        expect_set: false,
        expect_jump: false,
        mode: Mode::Normal,
        status: None,
        pending: None,
    }
}

/// The lines of the document text.
pub open spec fn text_lines(s: AppView) -> Seq<Seq<char>> {
    lines_from(s.text, 0)
}

/// The lines that match `q`: among the text lines in raw mode, else among the
/// plain texts of the rendered lines.
pub open spec fn search_for_mode(s: AppView, q: Seq<char>) -> Seq<usize> {
    if s.view.raw_mode {
        spec_search_lines(text_lines(s), q)
    } else {
        spec_search_lines(s.raw, q)
    }
}

fn copy_usizes(v: &Vec<usize>) -> (r: Vec<usize>)
    ensures
        r@ == v@,
{
    let mut r: Vec<usize> = Vec::new();
    let mut i: usize = 0;
    while i < v.len()
        invariant
            i <= v@.len(),
            r@ == v@.take(i as int),
        decreases v.len() - i,
    {
        r.push(v[i]);
        i = i + 1;
        assert(r@ =~= v@.take(i as int));
    }
    assert(v@.take(v@.len() as int) =~= v@);
    r
}

fn strings_of(v: &Vec<Vec<char>>) -> (r: Vec<String>)
    ensures
        strings_view(r@) == vv(v@),
{
    let mut out: Vec<String> = Vec::new();
    let mut i: usize = 0;
    while i < v.len()
        invariant
            i <= v@.len(),
            strings_view(out@) == vv(v@).subrange(0, i as int),
        decreases v.len() - i,
    {
        let s = string_of(v[i].as_slice());
        let ghost before = strings_view(out@);
        out.push(s);
        assert(strings_view(out@) =~= before.push(v@[i as int]@));
        assert(vv(v@).subrange(0, i + 1) =~= vv(v@).subrange(0, i as int).push(v@[i as int]@));
        i = i + 1;
    }
    assert(vv(v@).subrange(0, v@.len() as int) =~= vv(v@));
    out
}

impl App {
    pub closed spec fn wf(&self) -> bool {
        &&& state_wf(self@)
        &&& strings_view(self.content_lines@) == lines_from(self.content@, 0)
    }

    /// What a well-formed viewer shows of itself: `state_wf` of its value,
    /// so the lines are the rendered document and the cursor and the scroll
    /// stay within them.
    pub proof fn lemma_wf_state(&self)
        requires
            self.wf(),
        ensures
            state_wf(self@),
    {
    }

    /// A viewer of `files` (their names; none when reading standard input)
    /// with an empty document, the cursor on the first line and the normal mode.
    pub fn new(files: Vec<String>, wrap_mode: WrapMode, line_numbers: bool, show_status: bool, theme: Theme) -> (r: App)
        ensures
            r.wf(),
            r@ == with_document(
                initial_state(strings_view(files@), wrap_mode, line_numbers, show_status, theme@),
                Seq::empty(),
            ),
    {
        let mut marks: Vec<Option<usize>> = Vec::new();
        let mut i: usize = 0;
        while i < 26
            invariant
                i <= 26,
                marks@ == Seq::new(i as nat, |j: int| None::<usize>),
            decreases 26 - i,
        {
            marks.push(None);
            i = i + 1;
            assert(marks@ =~= Seq::new(i as nat, |j: int| None::<usize>));
        }
        let ghost fv = strings_view(files@);
        let ghost tv = theme@;
        let mut app = App {
            lines: Vec::new(),
            raw_lines: Vec::new(),
            content: String::new(),
            content_lines: Vec::new(),
            theme,
            view: ViewState {
                cursor_line: 0,
                cursor_col: 0,
                viewport_height: 20,
                scroll: 0,
                h_scroll: 0,
                max_scroll: 0,
                show_status,
                show_line_numbers: line_numbers,
                wrap_mode,
                raw_mode: false,
            },
            input_buf: String::new(),
            search_query: String::new(),
            search_results: Vec::new(),
            search_idx: None,
            saved_query: String::new(),
            saved_results: Vec::new(),
            saved_idx: None,
            search_history: Vec::new(),
            search_history_idx: None,
            files,
            file_index: 0,
            file_history: Vec::new(),
            file_name: String::new(),
            bookmarks: marks,
            expecting_bookmark_set: false,
            expecting_bookmark_jump: false,
            mode: Mode::Normal,
            status_message: None,
            pending_count: None,
        };
        proof {
            assert(strings_view(app.search_history@) =~= Seq::<Seq<char>>::empty());
            assert(strings_view(app.file_history@) =~= Seq::<Seq<char>>::empty());
            assert(app.search_results@ =~= Seq::<usize>::empty());
            assert(app.saved_results@ =~= Seq::<usize>::empty());
            assert(lines_view(app.lines@) =~= Seq::<Seq<SpanV>>::empty());
            assert(strs_view(app.raw_lines@) =~= Seq::<Seq<char>>::empty());
            assert(app@ =~= initial_state(fv, wrap_mode, line_numbers, show_status, tv));
        }
        app.render_content();
        app
    }

    /// Renders the document with the theme, and pulls the cursor and the
    /// scroll back within the rendered lines.
    #[verifier::rlimit(30)]
    fn render_content(&mut self)
        requires
            frame_wf(old(self)@),
        ensures
            final(self).wf(),
            final(self)@ == with_document(old(self)@, old(self)@.text),
    {
        let ghost target = with_document(self@, self@.text);
        let (lines, raw) = render(self.content.as_str(), &self.theme);
        let chars = chars_of(self.content.as_str());
        let ls = split_lines(&chars);
        self.content_lines = strings_of(&ls);
        self.lines = lines;
        self.raw_lines = raw;
        let n = self.lines.len();
        let max = if n == 0 {
            0
        } else {
            n - 1
        };
        self.view.max_scroll = max;
        if self.view.scroll > max {
            self.view.scroll = max;
        }
        if self.view.cursor_line > max {
            self.view.cursor_line = max;
        }
        proof {
            crate::render::law_one_text_per_line(renderer_spec(self@.theme), md_events(self@.text));
            assert(self@.view == target.view);
            assert(self@ =~= target);
        }
    }
}


// ---------------------------------------------------------------------------
// Outside work
// ---------------------------------------------------------------------------

/// Why the shown file is to be read.
#[derive(Clone, Copy, Debug, PartialEq, Eq, Structural)]
pub enum Load {
    /// Another file is shown.
    Open,
    /// The shown file is read again, and the search is run again on it.
    Reload,
    /// The file left by following a link is shown again.
    Back,
}

/// The outside work a key press asks for.
#[derive(Debug)]
pub enum Action {
    Nothing,
    /// Leave the program.
    Quit,
    /// Read the shown file and hand its text to `finish_load`.
    Load(Load),
    /// Load the named theme and hand it to `set_theme`.
    SwitchTheme(String),
    /// Read the configuration again and hand it to `config_reloaded`.
    ReloadConfig,
    /// Open a link's destination (an image's when the flag is set) with the
    /// system's opener and hand the outcome to `link_opened`.
    OpenLink(String, bool),
}

/// The mathematical value of an [`Action`].
pub enum ActionView {
    Nothing,
    Quit,
    Load(Load),
    SwitchTheme(Seq<char>),
    ReloadConfig,
    OpenLink(Seq<char>, bool),
}

impl View for Action {
    type V = ActionView;

    open spec fn view(&self) -> ActionView {
        match self {
            Action::Nothing => ActionView::Nothing,
            Action::Quit => ActionView::Quit,
            Action::Load(l) => ActionView::Load(*l),
            Action::SwitchTheme(n) => ActionView::SwitchTheme(n@),
            Action::ReloadConfig => ActionView::ReloadConfig,
            Action::OpenLink(u, i) => ActionView::OpenLink(u@, *i),
        }
    }
}

// ---------------------------------------------------------------------------
// Line widths
// ---------------------------------------------------------------------------

/// `n` in 16 bits, as `as u16` and wrapping 16-bit sums give it.
pub open spec fn width16(n: nat) -> u16 {
    (n % 0x10000) as u16
}

/// The width of a rendered line: the 16-bit wrapping sum of its pieces'
/// UTF-8 lengths, each taken in 16 bits.
pub open spec fn pieces_width(sp: Seq<SpanV>) -> u16
    decreases sp.len(),
{
    if sp.len() == 0 {
        0
    } else {
        width16(pieces_width(sp.drop_last()) as nat + width16(crate::theme::byte_len(sp.last().0)) as nat)
    }
}

/// The width of line `line`: its UTF-8 length in raw mode, the width of its
/// rendered pieces otherwise; 0 past the last line.
pub open spec fn line_width_spec(s: AppView, line: usize) -> u16 {
    if s.view.raw_mode {
        if line < text_lines(s).len() {
            width16(crate::theme::byte_len(text_lines(s)[line as int]))
        } else {
            0
        }
    } else {
        if line < s.lines.len() {
            pieces_width(s.lines[line as int])
        } else {
            0
        }
    }
}

/// The UTF-8 length of `s`, in 16 bits.
fn byte_len16(s: &str) -> (r: u16)
    ensures
        r == width16(crate::theme::byte_len(s@)),
{
    let c = chars_of(s);
    let mut acc: u32 = 0;
    let mut k: usize = 0;
    while k < c.len()
        invariant
            k <= c@.len(),
            c@ == s@,
            acc as nat == crate::theme::byte_len(c@.take(k as int)) % 0x10000,
        decreases c.len() - k,
    {
        let w = crate::theme::utf8_width_exec(c[k]);
        assert(c@.take(k + 1).drop_last() =~= c@.take(k as int));
        proof {
            vstd::arithmetic::div_mod::lemma_add_mod_noop(
                crate::theme::byte_len(c@.take(k as int)) as int,
                w as int,
                0x10000,
            );
        }
        acc = (acc + w as u32) % 0x10000;
        k = k + 1;
    }
    assert(c@.take(c@.len() as int) =~= c@);
    acc as u16
}

fn pieces_width_exec(spans: &Vec<Span>) -> (r: u16)
    ensures
        r == pieces_width(crate::style::spans_view(spans@)),
{
    let ghost sv = crate::style::spans_view(spans@);
    let mut acc: u16 = 0;
    let mut k: usize = 0;
    while k < spans.len()
        invariant
            k <= spans@.len(),
            sv == crate::style::spans_view(spans@),
            acc == pieces_width(sv.take(k as int)),
        decreases spans.len() - k,
    {
        let w = byte_len16(spans[k].content.as_str());
        assert(sv.take(k + 1).drop_last() =~= sv.take(k as int));
        acc = ((acc as u32 + w as u32) % 0x10000) as u16;
        k = k + 1;
    }
    assert(sv.take(sv.len() as int) =~= sv);
    acc
}

impl App {
    /// The width of line `line`, which bounds the cursor column.
    fn line_width(&self, line: usize) -> (r: u16)
        requires
            self.wf(),
        ensures
            r == line_width_spec(self@, line),
    {
        if self.view.raw_mode {
            if line < self.content_lines.len() {
                byte_len16(self.content_lines[line].as_str())
            } else {
                0
            }
        } else {
            if line < self.lines.len() {
                pieces_width_exec(&self.lines[line].spans)
            } else {
                0
            }
        }
    }
}


// ---------------------------------------------------------------------------
// Keys in normal mode
// ---------------------------------------------------------------------------

/// The count typed before a command, 1 when none was typed.
pub open spec fn count_of(p: Option<usize>) -> usize {
    match p {
        Some(c) => c,
        None => 1,
    }
}

/// The bookmark slot of a lowercase ASCII letter.
pub open spec fn mark_slot(c: char) -> int {
    c as int - 'a' as int
}

pub open spec fn is_lower(c: char) -> bool {
    'a' <= c <= 'z'
}

/// The state with the cursor on `line`, scrolled to show it.
pub open spec fn moved_to(s: AppView, line: usize) -> AppView {
    AppView { view: follow_spec(ViewState { cursor_line: line, ..s.view }), ..s }
}

/// The state with the cursor in column `col`, scrolled to show it.
pub open spec fn moved_to_col(s: AppView, col: u16) -> AppView {
    AppView { view: follow_spec(ViewState { cursor_col: col, ..s.view }), ..s }
}

/// `cur` stepped `n` times to the next match, wrapping around.
pub open spec fn next_n(results: Seq<usize>, cur: Option<usize>, n: nat) -> Option<usize>
    decreases n,
{
    if n == 0 {
        cur
    } else {
        spec_next_match(results, next_n(results, cur, (n - 1) as nat).unwrap_or(0))
    }
}

/// `cur` stepped `n` times to the previous match, wrapping around.
pub open spec fn prev_n(results: Seq<usize>, cur: Option<usize>, n: nat) -> Option<usize>
    decreases n,
{
    if n == 0 {
        cur
    } else {
        spec_prev_match(results, prev_n(results, cur, (n - 1) as nat).unwrap_or(0))
    }
}

/// The state with `idx` as the current match, and the cursor on it when there is one.
pub open spec fn at_match(s: AppView, idx: Option<usize>) -> AppView {
    let s1 = AppView { idx, ..s };
    match idx {
        Some(i) => moved_to(s1, umin(i, s.view.max_scroll)),
        None => s1,
    }
}

/// The state showing the file at `index` from its top, with no current match.
pub open spec fn at_file_top(s: AppView, index: usize) -> AppView {
    AppView {
        file_index: index,
        view: ViewState { cursor_line: 0, cursor_col: 0, scroll: 0, h_scroll: 0, ..s.view },
        idx: None,
        ..s
    }
}

/// Raw mode switched: the last line follows the text lines in raw mode and
/// the rendered lines otherwise; the search is cleared.
pub open spec fn toggled_raw(s: AppView) -> AppView {
    let raw = !s.view.raw_mode;
    let max = if raw {
        last_line(text_lines(s).len())
    } else {
        last_line(s.lines.len())
    };
    AppView {
        view: follow_spec(
            ViewState { raw_mode: raw, max_scroll: max, cursor_line: umin(s.view.cursor_line, max), ..s.view },
        ),
        query: Seq::empty(),
        results: Seq::empty(),
        idx: None,
        ..s
    }
}

/// Going back to the file left by following a link: raw mode ends; with no
/// such file, a message says so; otherwise it replaces the shown file (or
/// becomes the only one), is shown from its top, and is read.
pub open spec fn back_spec(s: AppView) -> (AppView, ActionView) {
    let s1 = AppView { view: ViewState { raw_mode: false, ..s.view }, ..s };
    if s1.file_history.len() == 0 {
        (AppView { status: Some("No previous file in history"@), ..s1 }, ActionView::Nothing)
    } else {
        let prev = s1.file_history.last();
        let files = if s1.files.len() > 0 {
            s1.files.update(s1.file_index as int, prev)
        } else {
            seq![prev]
        };
        let index = if s1.files.len() > 0 {
            s1.file_index
        } else {
            0
        };
        (
            AppView {
                files,
                file_history: s1.file_history.drop_last(),
                query: Seq::empty(),
                results: Seq::empty(),
                ..at_file_top(s1, index)
            },
            ActionView::Load(Load::Back),
        )
    }
}

/// Whether the key moves the cursor up or down.
pub open spec fn is_vertical(k: KeyPress) -> bool {
    let c = k.code;
    ||| c == KeyCode::Up || c == KeyCode::Char('k')
    ||| c == KeyCode::Down || c == KeyCode::Char('j')
    ||| (c == KeyCode::Char('u') && k.ctrl)
    ||| (c == KeyCode::Char('d') && k.ctrl)
    ||| c == KeyCode::PageUp || c == KeyCode::Char('b')
    ||| c == KeyCode::PageDown || c == KeyCode::Char('f')
}

/// The line a vertical move goes to: up or down by the count, by half a page
/// or by a page times the count, within the document. Products wrap as a
/// release build computes them; sums and differences saturate.
pub open spec fn vertical_target(s: AppView, k: KeyPress) -> usize {
    let count = count_of(s.pending);
    let cur = s.view.cursor_line;
    let max = s.view.max_scroll;
    let half = if s.view.viewport_height / 2 == 0 {
        1usize
    } else {
        (s.view.viewport_height / 2) as usize
    };
    let vh = s.view.viewport_height as usize;
    let c = k.code;
    if c == KeyCode::Up || c == KeyCode::Char('k') {
        cur.saturating_sub(count)
    } else if c == KeyCode::Down || c == KeyCode::Char('j') {
        umin(cur.saturating_add(count), max)
    } else if c == KeyCode::Char('u') && k.ctrl {
        cur.saturating_sub(vstd::wrapping::usize_specs::wrapping_mul(half, count))
    } else if c == KeyCode::Char('d') && k.ctrl {
        umin(cur.saturating_add(vstd::wrapping::usize_specs::wrapping_mul(half, count)), max)
    } else if c == KeyCode::PageUp || c == KeyCode::Char('b') {
        cur.saturating_sub(vstd::wrapping::usize_specs::wrapping_mul(vh, count))
    } else {
        umin(cur.saturating_add(vstd::wrapping::usize_specs::wrapping_mul(vh, count)), max)
    }
}

/// Whether the key moves the cursor sideways.
pub open spec fn is_horizontal(k: KeyPress) -> bool {
    let c = k.code;
    c == KeyCode::Left || c == KeyCode::Char('h') || c == KeyCode::Right || c == KeyCode::Char('l')
}

/// The column a sideways move goes to: left by the count, or right by the
/// count but not past the line's width; the count is taken in 16 bits.
pub open spec fn horizontal_target(s: AppView, k: KeyPress) -> u16 {
    let count = count_of(s.pending);
    if k.code == KeyCode::Left || k.code == KeyCode::Char('h') {
        s.view.cursor_col.saturating_sub(count as u16)
    } else {
        let w = line_width_spec(s, s.view.cursor_line);
        let col = s.view.cursor_col.saturating_add(count as u16);
        if col < w {
            col
        } else {
            w
        }
    }
}

/// `Home`/`g` goes to the line the count names (the first without one) and
/// scrolls it to the top; `End`/`G` goes to that line (the last without one).
pub open spec fn jump_spec(s: AppView, k: KeyPress) -> AppView {
    let max = s.view.max_scroll;
    if k.code == KeyCode::Home || k.code == KeyCode::Char('g') {
        let target = match s.pending {
            Some(p) => p.saturating_sub(1),
            None => 0,
        };
        AppView {
            view: ViewState {
                cursor_line: umin(target, max),
                cursor_col: 0,
                h_scroll: 0,
                scroll: umin(target, max),
                ..s.view
            },
            ..s
        }
    } else {
        let target = match s.pending {
            Some(p) => p.saturating_sub(1),
            None => max,
        };
        AppView { view: follow_spec(ViewState { cursor_line: umin(target, max), cursor_col: 0, ..s.view }), ..s }
    }
}

pub open spec fn is_jump(k: KeyPress) -> bool {
    let c = k.code;
    c == KeyCode::Home || c == KeyCode::Char('g') || c == KeyCode::End || c == KeyCode::Char('G')
}

/// The state as typing a search begins: an empty input, and the search in
/// place kept for `Esc`.
pub open spec fn begin_search(s: AppView) -> AppView {
    AppView { input: Seq::empty(), saved_query: s.query, saved_results: s.results, saved_idx: s.idx, ..s }
}

/// The links shown on the cursor's line of the rendered document.
pub open spec fn cursor_links(s: AppView) -> Seq<(nat, Seq<char>, bool)> {
    if s.view.cursor_line < s.lines.len() {
        capped_links(line_links(s.lines[s.view.cursor_line as int]))
    } else {
        Seq::empty()
    }
}

/// `Enter`: with no link on the cursor's line, a message says so; else the
/// link chosen by the cursor's column is to be opened.
pub open spec fn enter_spec(s: AppView) -> (AppView, ActionView) {
    let ls = cursor_links(s);
    if ls.len() == 0 {
        (AppView { status: Some("No link on this line"@), ..s }, ActionView::Nothing)
    } else {
        let l = ls[chosen_link(ls, s.view.cursor_col as nat)];
        (s, ActionView::OpenLink(l.1, l.2))
    }
}

/// The message after opening link `url`: where it was opened, or that it
/// could not be.
pub open spec fn opened_message(url: Seq<char>, image: bool, ok: bool) -> Seq<char> {
    if !ok {
        "Failed to open: "@ + url
    } else if image {
        "Opened in image viewer"@
    } else {
        "Opened in browser"@
    }
}

/// The commands other than quitting and moving.
pub open spec fn other_command_spec(s: AppView, k: KeyPress) -> (AppView, ActionView) {
    let count = count_of(s.pending);
    let c = k.code;
    if c == KeyCode::Char('/') {
        (AppView { mode: Mode::SearchForward, ..begin_search(s) }, ActionView::Nothing)
    } else if c == KeyCode::Char('?') {
        (AppView { mode: Mode::SearchBackward, ..begin_search(s) }, ActionView::Nothing)
    } else if c == KeyCode::Char(':') {
        (AppView { mode: Mode::GoToLine, input: Seq::empty(), ..s }, ActionView::Nothing)
    } else if c == KeyCode::Char('n') {
        if s.results.len() == 0 {
            (s, ActionView::Nothing)
        } else {
            (at_match(s, next_n(s.results, s.idx, count as nat)), ActionView::Nothing)
        }
    } else if c == KeyCode::Char('N') {
        if s.results.len() == 0 {
            (s, ActionView::Nothing)
        } else {
            (at_match(s, prev_n(s.results, s.idx, count as nat)), ActionView::Nothing)
        }
    } else if (c == KeyCode::Char('r') || c == KeyCode::Char('R')) && s.files.len() > 0 {
        (s, ActionView::Load(Load::Reload))
    } else if c == KeyCode::Char(']') && s.files.len() > 1 {
        (at_file_top(s, ((s.file_index + 1) % (s.files.len() as int)) as usize), ActionView::Load(Load::Open))
    } else if c == KeyCode::Char('[') && s.files.len() > 1 {
        let index = if s.file_index == 0 {
            (s.files.len() - 1) as usize
        } else {
            (s.file_index - 1) as usize
        };
        (at_file_top(s, index), ActionView::Load(Load::Open))
    } else if c == KeyCode::Char('m') {
        (AppView { expect_set: true, ..s }, ActionView::Nothing)
    } else if c == KeyCode::Char('\'') {
        (AppView { expect_jump: true, ..s }, ActionView::Nothing)
    } else if c == KeyCode::Enter {
        enter_spec(s)
    } else if c == KeyCode::Backspace {
        back_spec(s)
    } else {
        (s, ActionView::Nothing)
    }
}

/// A key that is not part of a count, in normal mode, with `s.pending` the
/// count typed before it: `q` and `Esc` quit; the motion keys move the
/// cursor; the other commands are `other_command_spec`.
pub open spec fn command_spec(s: AppView, k: KeyPress) -> (AppView, ActionView) {
    if k.code == KeyCode::Char('q') || k.code == KeyCode::Esc {
        (s, ActionView::Quit)
    } else if is_vertical(k) {
        (moved_to(s, vertical_target(s, k)), ActionView::Nothing)
    } else if is_horizontal(k) {
        (moved_to_col(s, horizontal_target(s, k)), ActionView::Nothing)
    } else if is_jump(k) {
        (jump_spec(s, k), ActionView::Nothing)
    } else {
        other_command_spec(s, k)
    }
}

/// A key press in normal mode. The message shown is cleared first. After `m`
/// a lowercase letter records the cursor line as that bookmark, and after `'`
/// it jumps to that bookmark; any other key only ends the wait. A digit adds
/// to the count (a leading `0` goes to the first column instead), the count
/// growing in wrapping arithmetic as a release build computes it. Any other
/// key runs its command and clears the count.
pub open spec fn normal_key_spec(s0: AppView, k: KeyPress) -> (AppView, ActionView) {
    let s = AppView { status: None, ..s0 };
    if s.expect_set {
        let s1 = AppView { expect_set: false, ..s };
        match k.code {
            KeyCode::Char(c) => if is_lower(c) {
                (AppView { marks: s1.marks.update(mark_slot(c), Some(s1.view.cursor_line)), ..s1 }, ActionView::Nothing)
            } else {
                (s1, ActionView::Nothing)
            },
            _ => (s1, ActionView::Nothing),
        }
    } else if s.expect_jump {
        let s1 = AppView { expect_jump: false, ..s };
        match k.code {
            KeyCode::Char(c) => if is_lower(c) && s1.marks[mark_slot(c)] is Some {
                (moved_to(s1, umin(s1.marks[mark_slot(c)].unwrap(), s1.view.max_scroll)), ActionView::Nothing)
            } else {
                (s1, ActionView::Nothing)
            },
            _ => (s1, ActionView::Nothing),
        }
    } else {
        match k.code {
            KeyCode::Char(c) => if '0' <= c <= '9' {
                if c == '0' && s.pending is None {
                    (AppView { view: ViewState { cursor_col: 0, ..s.view }, ..s }, ActionView::Nothing)
                } else {
                    let p = match s.pending {
                        Some(p) => p,
                        None => 0,
                    };
                    let d = (c as u32 - '0' as u32) as usize;
                    (
                        AppView {
                            pending: Some(
                                vstd::wrapping::usize_specs::wrapping_add(
                                    vstd::wrapping::usize_specs::wrapping_mul(p, 10),
                                    d,
                                ),
                            ),
                            ..s
                        },
                        ActionView::Nothing,
                    )
                }
            } else {
                let (s2, a) = command_spec(s, k);
                (AppView { pending: None, ..s2 }, a)
            },
            _ => {
                let (s2, a) = command_spec(s, k);
                (AppView { pending: None, ..s2 }, a)
            },
        }
    }
}


/// `PageDown` and `f` move the cursor down by the viewport's height times the
/// count (one page when no count is typed), and `Ctrl+d` by half the height
/// (at least one line) times the count, never past the last line.
pub proof fn law_page_down_moves_a_page(s: AppView, ctrl: bool)
    requires
        !s.expect_set,
        !s.expect_jump,
        s.view.cursor_line + s.view.viewport_height * count_of(s.pending) <= usize::MAX,
    ensures
        ({
            let cur = s.view.cursor_line as int;
            let n = count_of(s.pending) as int;
            let vh = s.view.viewport_height as int;
            let half = if vh / 2 == 0 { 1 } else { vh / 2 };
            let max = s.view.max_scroll as int;
            let page = cur + vh * n;
            let halfway = cur + half * n;
            &&& normal_key_spec(s, KeyPress { code: KeyCode::PageDown, ctrl }).0.view.cursor_line == (if page < max {
                page
            } else {
                max
            })
            &&& normal_key_spec(s, KeyPress { code: KeyCode::Char('f'), ctrl }).0.view.cursor_line == (if page < max {
                page
            } else {
                max
            })
            &&& normal_key_spec(s, KeyPress { code: KeyCode::Char('d'), ctrl: true }).0.view.cursor_line == (if halfway
                < max {
                halfway
            } else {
                max
            })
        }),
{
    let n = count_of(s.pending);
    let vh = s.view.viewport_height as usize;
    let half: usize = if s.view.viewport_height / 2 == 0 {
        1usize
    } else {
        (s.view.viewport_height / 2) as usize
    };
    assert(half <= vh || vh == 0);
    assert(half * n <= vh * n || vh == 0) by (nonlinear_arith)
        requires
            half <= vh || vh == 0,
    ;
    if vh == 0 {
        assert(vh * n == 0) by (nonlinear_arith)
            requires
                vh == 0,
        ;
    }
    assert(half * n <= usize::MAX) by (nonlinear_arith)
        requires
            half * n <= vh * n || vh == 0,
            vh == 0 ==> half == 1,
            n <= usize::MAX,
            vh * n <= usize::MAX,
    ;
    vstd::arithmetic::div_mod::lemma_small_mod((vh * n) as nat, (usize::MAX + 1) as nat);
    vstd::arithmetic::div_mod::lemma_small_mod((half * n) as nat, (usize::MAX + 1) as nat);
    let st = AppView { status: None, ..s };
    assert(vertical_target(st, KeyPress { code: KeyCode::PageDown, ctrl }) == umin(
        st.view.cursor_line.saturating_add((vh * n) as usize),
        st.view.max_scroll,
    ));
}

/// `PageUp` and `b` move the cursor up by the viewport's height times the
/// count, `Ctrl+u` by half the height (at least one line) times the count,
/// `k` and `Up` by the count, and `j` and `Down` down by the count, never
/// above the first line nor past the last.
pub proof fn law_line_and_page_moves(s: AppView, ctrl: bool)
    requires
        !s.expect_set,
        !s.expect_jump,
        s.view.viewport_height * count_of(s.pending) <= usize::MAX,
        s.view.cursor_line + count_of(s.pending) <= usize::MAX,
    ensures
        ({
            let cur = s.view.cursor_line as int;
            let n = count_of(s.pending) as int;
            let vh = s.view.viewport_height as int;
            let half = if vh / 2 == 0 { 1 } else { vh / 2 };
            let max = s.view.max_scroll as int;
            &&& normal_key_spec(s, KeyPress { code: KeyCode::PageUp, ctrl }).0.view.cursor_line == (if cur - vh * n
                > 0 {
                cur - vh * n
            } else {
                0
            })
            &&& normal_key_spec(s, KeyPress { code: KeyCode::Char('b'), ctrl }).0.view.cursor_line == (if cur - vh
                * n > 0 {
                cur - vh * n
            } else {
                0
            })
            &&& normal_key_spec(s, KeyPress { code: KeyCode::Char('u'), ctrl: true }).0.view.cursor_line == (if cur
                - half * n > 0 {
                cur - half * n
            } else {
                0
            })
            &&& normal_key_spec(s, KeyPress { code: KeyCode::Char('k'), ctrl }).0.view.cursor_line == (if cur - n
                > 0 {
                cur - n
            } else {
                0
            })
            &&& normal_key_spec(s, KeyPress { code: KeyCode::Char('j'), ctrl }).0.view.cursor_line == (if cur + n
                < max {
                cur + n
            } else {
                max
            })
        }),
{
    let n = count_of(s.pending);
    let vh = s.view.viewport_height as usize;
    let half: usize = if s.view.viewport_height / 2 == 0 {
        1usize
    } else {
        (s.view.viewport_height / 2) as usize
    };
    assert(half * n <= usize::MAX) by (nonlinear_arith)
        requires
            half <= vh || vh == 0,
            vh == 0 ==> half == 1,
            n <= usize::MAX,
            vh * n <= usize::MAX,
    ;
    vstd::arithmetic::div_mod::lemma_small_mod((vh * n) as nat, (usize::MAX + 1) as nat);
    vstd::arithmetic::div_mod::lemma_small_mod((half * n) as nat, (usize::MAX + 1) as nat);
}

/// A page down moves twice as far as a half-page down, for an even viewport
/// height, while neither reaches the last line.
pub proof fn law_page_is_two_half_pages(s: AppView)
    requires
        !s.expect_set,
        !s.expect_jump,
        s.view.viewport_height >= 2,
        s.view.viewport_height % 2 == 0,
        s.view.cursor_line + s.view.viewport_height * count_of(s.pending) < s.view.max_scroll,
    ensures
        normal_key_spec(s, KeyPress { code: KeyCode::PageDown, ctrl: false }).0.view.cursor_line - s.view.cursor_line
            == 2 * (normal_key_spec(s, KeyPress { code: KeyCode::Char('d'), ctrl: true }).0.view.cursor_line
            - s.view.cursor_line),
{
    let n = count_of(s.pending) as int;
    let vh = s.view.viewport_height as int;
    law_page_down_moves_a_page(s, false);
    assert(vh * n == 2 * ((vh / 2) * n)) by (nonlinear_arith)
        requires
            vh % 2 == 0,
    ;
    assert((vh / 2) * n <= vh * n) by (nonlinear_arith)
        requires
            vh >= 0,
            n >= 0,
    ;
}

impl App {
    /// Moves the cursor to `line` and scrolls to show it.
    fn move_to(&mut self, line: usize)
        requires
            old(self).wf(),
            line <= old(self)@.view.max_scroll,
        ensures
            final(self).wf(),
            final(self)@ == moved_to(old(self)@, line),
    {
        self.view.cursor_line = line;
        follow_cursor(&mut self.view);
        assert(self@ =~= moved_to(old(self)@, line));
    }

    /// Moves the cursor to column `col` and scrolls to show it.
    fn move_to_col(&mut self, col: u16)
        requires
            old(self).wf(),
        ensures
            final(self).wf(),
            final(self)@ == moved_to_col(old(self)@, col),
    {
        self.view.cursor_col = col;
        follow_cursor(&mut self.view);
        assert(self@ =~= moved_to_col(old(self)@, col));
    }

    /// Makes `idx` the current match and puts the cursor on it.
    fn go_to_match(&mut self, idx: Option<usize>)
        requires
            old(self).wf(),
        ensures
            final(self).wf(),
            final(self)@ == at_match(old(self)@, idx),
    {
        self.search_idx = idx;
        match idx {
            Some(i) => {
                let line = if i < self.view.max_scroll {
                    i
                } else {
                    self.view.max_scroll
                };
                self.move_to(line);
            },
            None => {},
        }
    }

    /// Shows the file at `index` from its top.
    fn go_to_file(&mut self, index: usize)
        requires
            old(self).wf(),
            index < old(self)@.files.len(),
        ensures
            final(self).wf(),
            final(self)@ == at_file_top(old(self)@, index),
    {
        self.file_index = index;
        self.view.cursor_line = 0;
        self.view.cursor_col = 0;
        self.view.scroll = 0;
        self.view.h_scroll = 0;
        self.search_idx = None;
        assert(self@ =~= at_file_top(old(self)@, index));
    }

    /// Switches between the rendered document and its markdown source; the
    /// search is cleared and the cursor kept within the lines shown.
    pub fn toggle_raw(&mut self)
        requires
            old(self).wf(),
        ensures
            final(self).wf(),
            final(self)@ == toggled_raw(old(self)@),
    {
        self.view.raw_mode = !self.view.raw_mode;
        let n = if self.view.raw_mode {
            self.content_lines.len()
        } else {
            self.lines.len()
        };
        self.view.max_scroll = if n == 0 {
            0
        } else {
            n - 1
        };
        self.search_query = String::new();
        self.search_results = Vec::new();
        self.search_idx = None;
        if self.view.cursor_line > self.view.max_scroll {
            self.view.cursor_line = self.view.max_scroll;
        }
        follow_cursor(&mut self.view);
        proof {
            assert(self.search_results@ =~= Seq::<usize>::empty());
        }
        assert(self@ =~= toggled_raw(old(self)@));
    }

    /// `Enter`: the link under the cursor, chosen by its column, to be opened.
    fn follow_link(&mut self) -> (a: Action)
        requires
            old(self).wf(),
        ensures
            final(self).wf(),
            (final(self)@, a@) == enter_spec(old(self)@),
    {
        let line = self.view.cursor_line;
        if line < self.lines.len() {
            let ls = links_of_line(&self.lines[line].spans);
            proof {
                assert(lines_view(self.lines@)[line as int] == spans_view(self.lines@[line as int].spans@));
            }
            if ls.len() > 0 {
                let i = choose_link(&ls, self.view.cursor_col);
                let url = ls[i].url.clone();
                return Action::OpenLink(url, ls[i].image);
            }
        }
        self.status_message = Some(String::from_str("No link on this line"));
        Action::Nothing
    }

    /// Takes the outcome of opening link `url` (an image's when `image` is
    /// set): the status line says where it was opened or that it failed.
    pub fn link_opened(&mut self, url: &str, image: bool, ok: bool)
        requires
            old(self).wf(),
        ensures
            final(self).wf(),
            final(self)@ == (AppView { status: Some(opened_message(url@, image, ok)), ..old(self)@ }),
    {
        let msg = if !ok {
            let mut m = String::from_str("Failed to open: ");
            m.append(url);
            m
        } else if image {
            String::from_str("Opened in image viewer")
        } else {
            String::from_str("Opened in browser")
        };
        self.status_message = Some(msg);
    }

    fn navigate_back(&mut self) -> (a: Action)
        requires
            old(self).wf(),
        ensures
            final(self).wf(),
            (final(self)@, a@) == back_spec(old(self)@),
    {
        self.view.raw_mode = false;
        let ghost s1 = self@;
        match self.file_history.pop() {
            None => {
                self.status_message = Some(String::from_str("No previous file in history"));
                assert(self@ =~= back_spec(old(self)@).0);
                Action::Nothing
            },
            Some(prev) => {
                proof {
                    assert(strings_view(self.file_history@) =~= s1.file_history.drop_last());
                }
                let index = if self.files.len() > 0 {
                    let ghost fv = strings_view(self.files@);
                    self.files.set(self.file_index, prev);
                    assert(strings_view(self.files@) =~= fv.update(s1.file_index as int, s1.file_history.last()));
                    self.file_index
                } else {
                    self.files.push(prev);
                    assert(strings_view(self.files@) =~= seq![s1.file_history.last()]);
                    0
                };
                self.file_index = index;
                self.view.cursor_line = 0;
                self.view.cursor_col = 0;
                self.view.scroll = 0;
                self.view.h_scroll = 0;
                self.search_idx = None;
                self.search_query = String::new();
                self.search_results = Vec::new();
                proof {
                    assert(self.search_results@ =~= Seq::<usize>::empty());
                }
                assert(self@ =~= back_spec(old(self)@).0);
                Action::Load(Load::Back)
            },
        }
    }

    fn vertical_target(&self, key: KeyPress) -> (r: usize)
        requires
            self.wf(),
            is_vertical(key),
        ensures
            r == vertical_target(self@, key),
            r <= self@.view.max_scroll,
    {
        let count: usize = match self.pending_count {
            Some(c) => c,
            None => 1,
        };
        let cur = self.view.cursor_line;
        let max = self.view.max_scroll;
        let half: usize = if self.view.viewport_height / 2 == 0 {
            1
        } else {
            (self.view.viewport_height / 2) as usize
        };
        let vh = self.view.viewport_height as usize;
        let c = key.code;
        if c == KeyCode::Up || c == KeyCode::Char('k') {
            cur.saturating_sub(count)
        } else if c == KeyCode::Down || c == KeyCode::Char('j') {
            let t = cur.saturating_add(count);
            if t < max {
                t
            } else {
                max
            }
        } else if c == KeyCode::Char('u') && key.ctrl {
            cur.saturating_sub(half.wrapping_mul(count))
        } else if c == KeyCode::Char('d') && key.ctrl {
            let t = cur.saturating_add(half.wrapping_mul(count));
            if t < max {
                t
            } else {
                max
            }
        } else if c == KeyCode::PageUp || c == KeyCode::Char('b') {
            cur.saturating_sub(vh.wrapping_mul(count))
        } else {
            let t = cur.saturating_add(vh.wrapping_mul(count));
            if t < max {
                t
            } else {
                max
            }
        }
    }

    fn horizontal_target(&self, key: KeyPress) -> (r: u16)
        requires
            self.wf(),
        ensures
            r == horizontal_target(self@, key),
    {
        let count: usize = match self.pending_count {
            Some(c) => c,
            None => 1,
        };
        let c16 = #[verifier::truncate] (count as u16);
        if key.code == KeyCode::Left || key.code == KeyCode::Char('h') {
            self.view.cursor_col.saturating_sub(c16)
        } else {
            let w = self.line_width(self.view.cursor_line);
            let col = self.view.cursor_col.saturating_add(c16);
            if col < w {
                col
            } else {
                w
            }
        }
    }

    fn jump(&mut self, key: KeyPress)
        requires
            old(self).wf(),
        ensures
            final(self).wf(),
            final(self)@ == jump_spec(old(self)@, key),
    {
        let max = self.view.max_scroll;
        if key.code == KeyCode::Home || key.code == KeyCode::Char('g') {
            let target = match self.pending_count {
                Some(p) => p.saturating_sub(1),
                None => 0,
            };
            let t = if target < max {
                target
            } else {
                max
            };
            self.view.cursor_line = t;
            self.view.cursor_col = 0;
            self.view.h_scroll = 0;
            self.view.scroll = t;
        } else {
            let target = match self.pending_count {
                Some(p) => p.saturating_sub(1),
                None => max,
            };
            self.view.cursor_line = if target < max {
                target
            } else {
                max
            };
            self.view.cursor_col = 0;
            follow_cursor(&mut self.view);
        }
        assert(self@ =~= jump_spec(old(self)@, key));
    }

    fn step_matches(&mut self, forward: bool)
        requires
            old(self).wf(),
            old(self)@.results.len() > 0,
        ensures
            final(self).wf(),
            forward ==> final(self)@ == at_match(old(self)@, next_n(old(self)@.results, old(self)@.idx, count_of(old(self)@.pending) as nat)),
            !forward ==> final(self)@ == at_match(old(self)@, prev_n(old(self)@.results, old(self)@.idx, count_of(old(self)@.pending) as nat)),
    {
        let count: usize = match self.pending_count {
            Some(c) => c,
            None => 1,
        };
        let ghost r = self.search_results@;
        let ghost i0 = self.search_idx;
        let mut idx = self.search_idx;
        let mut i: usize = 0;
        while i < count
            invariant
                i <= count,
                r == self.search_results@,
                strictly_sorted(r),
                forward ==> idx == next_n(r, i0, i as nat),
                !forward ==> idx == prev_n(r, i0, i as nat),
            decreases count - i,
        {
            idx = if forward {
                find_next_match(self.search_results.as_slice(), idx)
            } else {
                find_prev_match(self.search_results.as_slice(), idx)
            };
            i = i + 1;
        }
        self.go_to_match(idx);
    }

    #[verifier::rlimit(30)]
    fn other_command(&mut self, key: KeyPress) -> (a: Action)
        requires
            old(self).wf(),
        ensures
            final(self).wf(),
            (final(self)@, a@) == other_command_spec(old(self)@, key),
    {
        let c = key.code;
        if c == KeyCode::Char('/') || c == KeyCode::Char('?') || c == KeyCode::Char(':') {
            self.mode = if c == KeyCode::Char('/') {
                Mode::SearchForward
            } else if c == KeyCode::Char('?') {
                Mode::SearchBackward
            } else {
                Mode::GoToLine
            };
            self.input_buf = String::new();
            if c != KeyCode::Char(':') {
                self.saved_query = self.search_query.clone();
                self.saved_results = copy_usizes(&self.search_results);
                self.saved_idx = self.search_idx;
            }
            assert(self@ =~= other_command_spec(old(self)@, key).0);
            Action::Nothing
        } else if c == KeyCode::Char('n') || c == KeyCode::Char('N') {
            if self.search_results.len() > 0 {
                self.step_matches(c == KeyCode::Char('n'));
            }
            Action::Nothing
        } else if (c == KeyCode::Char('r') || c == KeyCode::Char('R')) && self.files.len() > 0 {
            Action::Load(Load::Reload)
        } else if c == KeyCode::Char(']') && self.files.len() > 1 {
            self.go_to_file((self.file_index + 1) % self.files.len());
            Action::Load(Load::Open)
        } else if c == KeyCode::Char('[') && self.files.len() > 1 {
            let index = if self.file_index == 0 {
                self.files.len() - 1
            } else {
                self.file_index - 1
            };
            self.go_to_file(index);
            Action::Load(Load::Open)
        } else if c == KeyCode::Char('m') {
            self.expecting_bookmark_set = true;
            assert(self@ =~= other_command_spec(old(self)@, key).0);
            Action::Nothing
        } else if c == KeyCode::Char('\'') {
            self.expecting_bookmark_jump = true;
            assert(self@ =~= other_command_spec(old(self)@, key).0);
            Action::Nothing
        } else if c == KeyCode::Enter {
            self.follow_link()
        } else if c == KeyCode::Backspace {
            self.navigate_back()
        } else {
            Action::Nothing
        }
    }

    /// Runs the command of a key that is not part of a count.
    fn command(&mut self, key: KeyPress) -> (a: Action)
        requires
            old(self).wf(),
        ensures
            final(self).wf(),
            (final(self)@, a@) == command_spec(old(self)@, key),
    {
        let c = key.code;
        if c == KeyCode::Char('q') || c == KeyCode::Esc {
            Action::Quit
        } else if c == KeyCode::Up || c == KeyCode::Char('k') || c == KeyCode::Down || c == KeyCode::Char('j')
            || (c == KeyCode::Char('u') && key.ctrl) || (c == KeyCode::Char('d') && key.ctrl) || c
            == KeyCode::PageUp || c == KeyCode::Char('b') || c == KeyCode::PageDown || c == KeyCode::Char('f') {
            let t = self.vertical_target(key);
            self.move_to(t);
            Action::Nothing
        } else if c == KeyCode::Left || c == KeyCode::Char('h') || c == KeyCode::Right || c == KeyCode::Char('l') {
            let col = self.horizontal_target(key);
            self.move_to_col(col);
            Action::Nothing
        } else if c == KeyCode::Home || c == KeyCode::Char('g') || c == KeyCode::End || c == KeyCode::Char('G') {
            self.jump(key);
            Action::Nothing
        } else {
            self.other_command(key)
        }
    }

    /// Handles a key press in normal mode; see `normal_key_spec`.
    pub fn handle_normal_key(&mut self, key: KeyPress) -> (a: Action)
        requires
            old(self).wf(),
        ensures
            final(self).wf(),
            (final(self)@, a@) == normal_key_spec(old(self)@, key),
    {
        self.status_message = None;
        let ghost s = self@;
        assert(s =~= AppView { status: None, ..old(self)@ });
        if self.expecting_bookmark_set {
            self.expecting_bookmark_set = false;
            match key.code {
                KeyCode::Char(c) => {
                    if 'a' <= c && c <= 'z' {
                        let slot = (c as u32 - 'a' as u32) as usize;
                        self.bookmarks.set(slot, Some(self.view.cursor_line));
                    }
                },
                _ => {},
            }
            assert(self@ =~= normal_key_spec(old(self)@, key).0);
            return Action::Nothing;
        }
        if self.expecting_bookmark_jump {
            self.expecting_bookmark_jump = false;
            let ghost s1 = self@;
            match key.code {
                KeyCode::Char(c) => {
                    if 'a' <= c && c <= 'z' {
                        let slot = (c as u32 - 'a' as u32) as usize;
                        match self.bookmarks[slot] {
                            Some(pos) => {
                                let line = if pos < self.view.max_scroll {
                                    pos
                                } else {
                                    self.view.max_scroll
                                };
                                self.move_to(line);
                            },
                            None => {},
                        }
                    }
                },
                _ => {},
            }
            assert(self@ =~= normal_key_spec(old(self)@, key).0);
            return Action::Nothing;
        }
        match key.code {
            KeyCode::Char(c) => {
                if '0' <= c && c <= '9' {
                    if c == '0' && self.pending_count.is_none() {
                        self.view.cursor_col = 0;
                    } else {
                        let p = match self.pending_count {
                            Some(p) => p,
                            None => 0,
                        };
                        let d = (c as u32 - '0' as u32) as usize;
                        self.pending_count = Some(p.wrapping_mul(10).wrapping_add(d));
                    }
                    assert(self@ =~= normal_key_spec(old(self)@, key).0);
                    return Action::Nothing;
                }
            },
            _ => {},
        }
        let a = self.command(key);
        self.pending_count = None;
        let ghost s2 = command_spec(s, key).0;
        assert(self@ =~= AppView { pending: None, ..s2 });
        a
    }
}


// ---------------------------------------------------------------------------
// Keys while typing a search
// ---------------------------------------------------------------------------

/// The search history after confirming `q`: `q` is added unless it is the
/// last entry already, keeping the 50 latest.
pub open spec fn history_after(h: Seq<Seq<char>>, q: Seq<char>) -> Seq<Seq<char>> {
    if h.len() > 0 && h.last() == q {
        h
    } else {
        let h2 = h.push(q);
        if h2.len() > 50 {
            h2.drop_first()
        } else {
            h2
        }
    }
}

/// The state with `q` both typed and searched for, with no current match.
pub open spec fn searching(s: AppView, q: Seq<char>) -> AppView {
    AppView { input: q, query: q, results: search_for_mode(s, q), idx: None, ..s }
}

/// A key while a search is typed. `Enter` makes the typed text the search:
/// a non-empty one joins the history and is run, the first match from the
/// top line of the view on (backwards for `?`) becomes the current one and
/// is scrolled to the top; `Up` and `Down` walk the history, searching for
/// the entry reached; `Backspace` and typed characters edit the text and
/// search for it as it is typed (an emptied text clears the results). `Esc`
/// cancels: the search, its matches and the current match come back as they
/// were when typing the search began.
pub open spec fn search_key_spec(s: AppView, code: KeyCode) -> AppView {
    match code {
        KeyCode::Enter => {
            let q = s.input;
            let forward = s.mode == Mode::SearchForward;
            let s1 = AppView { input: Seq::empty(), query: q, ..s };
            let s2 = if q.len() > 0 {
                let results = search_for_mode(s1, q);
                let idx = if forward {
                    spec_next_match(results, s.view.scroll)
                } else {
                    spec_prev_match(results, s.view.scroll)
                };
                let s3 = AppView { history: history_after(s.history, q), history_idx: None, results, idx, ..s1 };
                match idx {
                    Some(i) => AppView { view: ViewState { scroll: umin(i, s.view.max_scroll), ..s.view }, ..s3 },
                    None => s3,
                }
            } else {
                s1
            };
            AppView { mode: Mode::Normal, ..s2 }
        },
        KeyCode::Up => {
            let i = match s.history_idx {
                Some(i) => i,
                None => s.history.len() as usize,
            };
            if i > 0 {
                AppView { history_idx: Some((i - 1) as usize), ..searching(s, s.history[i - 1]) }
            } else {
                AppView { history_idx: Some(i), ..s }
            }
        },
        KeyCode::Down => match s.history_idx {
            Some(i) => if i + 1 < s.history.len() {
                AppView { history_idx: Some((i + 1) as usize), ..searching(s, s.history[i + 1]) }
            } else {
                AppView { history_idx: None, ..searching(s, Seq::empty()) }
            },
            None => s,
        },
        KeyCode::Esc => AppView {
            mode: Mode::Normal,
            input: Seq::empty(),
            query: s.saved_query,
            results: s.saved_results,
            idx: s.saved_idx,
            ..s
        },
        KeyCode::Backspace => {
            let q = if s.input.len() > 0 {
                s.input.drop_last()
            } else {
                s.input
            };
            if q.len() > 0 {
                searching(s, q)
            } else {
                AppView { input: q, query: q, results: Seq::empty(), idx: None, ..s }
            }
        },
        KeyCode::Char(c) => searching(s, s.input.push(c)),
        _ => s,
    }
}

// ---------------------------------------------------------------------------
// Keys while typing a command after `:`
// ---------------------------------------------------------------------------

/// The line `n%` of the way down: `n` times the last line, over 100, the
/// product wrapping as a release build computes it.
pub open spec fn percent_line(n: usize, max: usize) -> usize {
    umin((vstd::wrapping::usize_specs::wrapping_mul(n, max) / 100) as usize, max)
}

/// A key while a command is typed after `:`. `Enter` runs the command,
/// taken without surrounding whitespace: `theme NAME` switches to that
/// theme, `reload` reads the configuration again, `files` lists the open
/// files when there are several, `N%` goes that far down the document and a
/// number goes to that line; anything else is ignored. `Esc` cancels;
/// `Backspace` and typed characters other than control characters edit the
/// command.
pub open spec fn goto_key_spec(s: AppView, code: KeyCode) -> (AppView, ActionView) {
    match code {
        KeyCode::Enter => {
            let t = crate::text::trim_ws(s.input);
            let s1 = AppView { input: Seq::empty(), ..s };
            let done = AppView { mode: Mode::Normal, ..s1 };
            let max = s.view.max_scroll;
            if crate::text::has_prefix(t, "theme "@) {
                (
                    done,
                    ActionView::SwitchTheme(crate::text::trim_ws(crate::text::strip_prefixes(t, "theme "@))),
                )
            } else if t == "reload"@ {
                (done, ActionView::ReloadConfig)
            } else if t == "files"@ && s.files.len() > 1 {
                (AppView { mode: Mode::FileList, ..s1 }, ActionView::Nothing)
            } else if t.len() > 0 && t.last() == '%' && crate::text::parse_usize_spec(t.drop_last()) is Some {
                let line = percent_line(crate::text::parse_usize_spec(t.drop_last()).unwrap(), max);
                (AppView { view: ViewState { cursor_line: line, scroll: line, ..s.view }, ..done }, ActionView::Nothing)
            } else if crate::text::parse_usize_spec(t) is Some {
                let line = umin(crate::text::parse_usize_spec(t).unwrap().saturating_sub(1), max);
                (AppView { view: ViewState { cursor_line: line, scroll: line, ..s.view }, ..done }, ActionView::Nothing)
            } else {
                (done, ActionView::Nothing)
            }
        },
        KeyCode::Esc => (AppView { mode: Mode::Normal, input: Seq::empty(), ..s }, ActionView::Nothing),
        KeyCode::Backspace => (
            AppView {
                input: if s.input.len() > 0 {
                    s.input.drop_last()
                } else {
                    s.input
                },
                ..s
            },
            ActionView::Nothing,
        ),
        KeyCode::Char(c) => if !crate::text::is_control(c) {
            (AppView { input: s.input.push(c), ..s }, ActionView::Nothing)
        } else {
            (s, ActionView::Nothing)
        },
        _ => (s, ActionView::Nothing),
    }
}

// ---------------------------------------------------------------------------
// Keys in the file list
// ---------------------------------------------------------------------------

/// A key in the file list: `Up`/`k` and `Down`/`j` select the previous or
/// next file; `Enter` shows the selected file from the top (reading it) and
/// leaves the list; `Esc` leaves the list.
pub open spec fn filelist_key_spec(s: AppView, code: KeyCode) -> (AppView, ActionView) {
    if (code == KeyCode::Up || code == KeyCode::Char('k')) && s.file_index > 0 {
        (AppView { file_index: (s.file_index - 1) as usize, ..s }, ActionView::Nothing)
    } else if (code == KeyCode::Down || code == KeyCode::Char('j')) && s.file_index + 1 < s.files.len() {
        (AppView { file_index: (s.file_index + 1) as usize, ..s }, ActionView::Nothing)
    } else if code == KeyCode::Enter {
        (
            AppView { view: ViewState { scroll: 0, h_scroll: 0, ..s.view }, idx: None, mode: Mode::Normal, ..s },
            if s.files.len() > 0 {
                ActionView::Load(Load::Open)
            } else {
                ActionView::Nothing
            },
        )
    } else if code == KeyCode::Esc {
        (AppView { mode: Mode::Normal, ..s }, ActionView::Nothing)
    } else {
        (s, ActionView::Nothing)
    }
}

/// A key press in the current mode.
pub open spec fn key_spec(s: AppView, k: KeyPress) -> (AppView, ActionView) {
    match s.mode {
        Mode::Normal => normal_key_spec(s, k),
        Mode::SearchForward | Mode::SearchBackward => (search_key_spec(s, k.code), ActionView::Nothing),
        Mode::GoToLine => goto_key_spec(s, k.code),
        Mode::FileList => filelist_key_spec(s, k.code),
    }
}

/// The state after the shown file was read: its text becomes the document
/// (an empty one, with a message, when it could not be read); a reloaded
/// file is searched again; going back clears any message.
pub open spec fn load_spec(s: AppView, kind: Load, text: Result<Seq<char>, Seq<char>>) -> AppView {
    let s0 = AppView { file_name: current_file(s), ..s };
    let s1 = match text {
        Ok(t) => with_document(s0, t),
        Err(e) => with_document(AppView { status: Some("Error reading file: "@ + e), ..s0 }, Seq::empty()),
    };
    let s2 = if kind == Load::Reload {
        AppView {
            results: if s1.query.len() == 0 {
                Seq::empty()
            } else {
                search_for_mode(s1, s1.query)
            },
            ..s1
        }
    } else {
        s1
    };
    if kind == Load::Back {
        AppView { status: None, ..s2 }
    } else {
        s2
    }
}

/// The name of the shown file; empty when reading standard input.
pub open spec fn current_file(s: AppView) -> Seq<char> {
    if s.files.len() > 0 {
        s.files[s.file_index as int]
    } else {
        Seq::empty()
    }
}

pub open spec fn result_view(r: Result<String, String>) -> Result<Seq<char>, Seq<char>> {
    match r {
        Ok(t) => Ok(t@),
        Err(e) => Err(e@),
    }
}


/// Adds `q` to the search history; see `history_after`.
fn push_history(h: &mut Vec<String>, q: &String)
    requires
        old(h)@.len() <= 50,
    ensures
        strings_view(final(h)@) == history_after(strings_view(old(h)@), q@),
        final(h)@.len() <= 50,
{
    let n = h.len();
    let same = n > 0 && str_eq(h[n - 1].as_str(), q.as_str());
    let ghost h0 = strings_view(h@);
    if !same {
        h.push(q.clone());
        assert(strings_view(h@) =~= h0.push(q@));
        if h.len() > 50 {
            let ghost h1 = strings_view(h@);
            h.remove(0);
            assert(strings_view(h@) =~= h1.drop_first());
        }
    }
}

impl App {
    /// The lines that match `q` in the current mode.
    fn search_for_mode(&self, q: &str) -> (r: Vec<usize>)
        requires
            self.wf(),
        ensures
            r@ == search_for_mode(self@, q@),
            strictly_sorted(r@),
    {
        if self.view.raw_mode {
            search_lines(self.content_lines.as_slice(), q)
        } else {
            assert(strings_view(self.raw_lines@) =~= strs_view(self.raw_lines@));
            search_lines(self.raw_lines.as_slice(), q)
        }
    }

    /// Makes `q` the typed text and the search, and searches for it.
    fn search_typed(&mut self, q: String)
        requires
            old(self).wf(),
        ensures
            final(self).wf(),
            final(self)@ == searching(old(self)@, q@),
    {
        let results = self.search_for_mode(q.as_str());
        self.input_buf = q.clone();
        self.search_query = q;
        self.search_results = results;
        self.search_idx = None;
        assert(self@ =~= searching(old(self)@, self@.query));
    }

    fn confirm_search(&mut self)
        requires
            old(self).wf(),
        ensures
            final(self).wf(),
            final(self)@ == search_key_spec(old(self)@, KeyCode::Enter),
    {
        let q = self.input_buf.clone();
        self.input_buf = String::new();
        let forward = self.mode == Mode::SearchForward;
        self.search_query = q.clone();
        let ghost s1 = self@;
        if !crate::text::str_is_empty(q.as_str()) {
            push_history(&mut self.search_history, &q);
            self.search_history_idx = None;
            let results = self.search_for_mode(q.as_str());
            assert(results@ == search_for_mode(s1, q@));
            let scroll = self.view.scroll;
            let idx = if forward {
                find_next_match(results.as_slice(), Some(scroll))
            } else {
                find_prev_match(results.as_slice(), Some(scroll))
            };
            self.search_results = results;
            self.search_idx = idx;
            match idx {
                Some(i) => {
                    self.view.scroll = if i < self.view.max_scroll {
                        i
                    } else {
                        self.view.max_scroll
                    };
                },
                None => {},
            }
        }
        self.mode = Mode::Normal;
        assert(self@ =~= search_key_spec(old(self)@, KeyCode::Enter));
    }

    /// Handles a key while a search is typed; see `search_key_spec`.
    pub fn handle_search_key(&mut self, code: KeyCode)
        requires
            old(self).wf(),
        ensures
            final(self).wf(),
            final(self)@ == search_key_spec(old(self)@, code),
    {
        match code {
            KeyCode::Enter => self.confirm_search(),
            KeyCode::Up => {
                let i = match self.search_history_idx {
                    Some(i) => i,
                    None => self.search_history.len(),
                };
                if i > 0 {
                    let q = self.search_history[i - 1].clone();
                    self.search_typed(q);
                    self.search_history_idx = Some(i - 1);
                    assert(self@ =~= search_key_spec(old(self)@, code));
                } else {
                    self.search_history_idx = Some(i);
                    assert(self@ =~= search_key_spec(old(self)@, code));
                }
            },
            KeyCode::Down => {
                match self.search_history_idx {
                    Some(i) => {
                        if self.search_history.len() > 0 && i < self.search_history.len() - 1 {
                            let q = self.search_history[i + 1].clone();
                            self.search_typed(q);
                            self.search_history_idx = Some(i + 1);
                        } else {
                            self.search_typed(String::new());
                            self.search_history_idx = None;
                        }
                        assert(self@ =~= search_key_spec(old(self)@, code));
                    },
                    None => {},
                }
            },
            KeyCode::Esc => {
                self.mode = Mode::Normal;
                self.input_buf = String::new();
                self.search_query = self.saved_query.clone();
                self.search_results = copy_usizes(&self.saved_results);
                self.search_idx = self.saved_idx;
                assert(self@ =~= search_key_spec(old(self)@, code));
            },
            KeyCode::Backspace => {
                let mut v = chars_of(self.input_buf.as_str());
                let ghost v0 = v@;
                if v.len() > 0 {
                    v.pop();
                }
                let q = string_of(v.as_slice());
                if v.len() > 0 {
                    self.search_typed(q);
                } else {
                    self.input_buf = q.clone();
                    self.search_query = q;
                    self.search_results = Vec::new();
                    self.search_idx = None;
                    assert(self.search_results@ =~= Seq::<usize>::empty());
                    assert(self@ =~= search_key_spec(old(self)@, code));
                }
            },
            KeyCode::Char(c) => {
                let mut v = chars_of(self.input_buf.as_str());
                v.push(c);
                let q = string_of(v.as_slice());
                self.search_typed(q);
            },
            _ => {},
        }
    }

    /// Handles a key while a command is typed after `:`; see `goto_key_spec`.
    pub fn handle_goto_key(&mut self, code: KeyCode) -> (a: Action)
        requires
            old(self).wf(),
        ensures
            final(self).wf(),
            (final(self)@, a@) == goto_key_spec(old(self)@, code),
    {
        match code {
            KeyCode::Enter => self.run_goto_command(),
            KeyCode::Esc => {
                self.mode = Mode::Normal;
                self.input_buf = String::new();
                assert(self@ =~= goto_key_spec(old(self)@, code).0);
                Action::Nothing
            },
            KeyCode::Backspace => {
                let mut v = chars_of(self.input_buf.as_str());
                if v.len() > 0 {
                    v.pop();
                }
                self.input_buf = string_of(v.as_slice());
                assert(self@ =~= goto_key_spec(old(self)@, code).0);
                Action::Nothing
            },
            KeyCode::Char(c) => {
                if !crate::text::is_control_exec(c) {
                    let mut v = chars_of(self.input_buf.as_str());
                    v.push(c);
                    self.input_buf = string_of(v.as_slice());
                    assert(self@ =~= goto_key_spec(old(self)@, code).0);
                }
                Action::Nothing
            },
            _ => Action::Nothing,
        }
    }

    #[verifier::rlimit(30)]
    fn run_goto_command(&mut self) -> (a: Action)
        requires
            old(self).wf(),
        ensures
            final(self).wf(),
            (final(self)@, a@) == goto_key_spec(old(self)@, KeyCode::Enter),
    {
        let inp = chars_of(self.input_buf.as_str());
        self.input_buf = String::new();
        let t = crate::text::trim_chars(&inp);
        let pfx = chars_of("theme ");
        let max = self.view.max_scroll;
        if crate::text::has_prefix_exec(&t, &pfx) {
            let rest = crate::text::strip_prefixes_exec(&t, &pfx);
            let name = crate::text::trim_chars(&rest);
            self.mode = Mode::Normal;
            assert(self@ =~= goto_key_spec(old(self)@, KeyCode::Enter).0);
            return Action::SwitchTheme(string_of(name.as_slice()));
        }
        if crate::text::eq_chars(&t, &chars_of("reload")) {
            self.mode = Mode::Normal;
            assert(self@ =~= goto_key_spec(old(self)@, KeyCode::Enter).0);
            return Action::ReloadConfig;
        }
        if crate::text::eq_chars(&t, &chars_of("files")) && self.files.len() > 1 {
            self.mode = Mode::FileList;
            assert(self@ =~= goto_key_spec(old(self)@, KeyCode::Enter).0);
            return Action::Nothing;
        }
        if t.len() > 0 && t[t.len() - 1] == '%' {
            let num = crate::text::sub_chars(&t, 0, t.len() - 1);
            assert(num@ =~= t@.drop_last());
            match crate::text::parse_usize(&num) {
                Some(v) => {
                    let p = v.wrapping_mul(max) / 100;
                    let line = if p < max {
                        p
                    } else {
                        max
                    };
                    self.view.cursor_line = line;
                    self.view.scroll = line;
                    self.mode = Mode::Normal;
                    assert(self@ =~= goto_key_spec(old(self)@, KeyCode::Enter).0);
                    return Action::Nothing;
                },
                None => {},
            }
        }
        match crate::text::parse_usize(&t) {
            Some(n) => {
                let l = n.saturating_sub(1);
                let line = if l < max {
                    l
                } else {
                    max
                };
                self.view.cursor_line = line;
                self.view.scroll = line;
            },
            None => {},
        }
        self.mode = Mode::Normal;
        assert(self@ =~= goto_key_spec(old(self)@, KeyCode::Enter).0);
        Action::Nothing
    }

    /// Handles a key in the file list; see `filelist_key_spec`.
    pub fn handle_filelist_key(&mut self, code: KeyCode) -> (a: Action)
        requires
            old(self).wf(),
        ensures
            final(self).wf(),
            (final(self)@, a@) == filelist_key_spec(old(self)@, code),
    {
        if (code == KeyCode::Up || code == KeyCode::Char('k')) && self.file_index > 0 {
            self.file_index = self.file_index - 1;
            assert(self@ =~= filelist_key_spec(old(self)@, code).0);
            Action::Nothing
        } else if (code == KeyCode::Down || code == KeyCode::Char('j')) && self.files.len() > 0 && self.file_index < self.files.len() - 1 {
            self.file_index = self.file_index + 1;
            assert(self@ =~= filelist_key_spec(old(self)@, code).0);
            Action::Nothing
        } else if code == KeyCode::Enter {
            self.view.scroll = 0;
            self.view.h_scroll = 0;
            self.search_idx = None;
            self.mode = Mode::Normal;
            assert(self@ =~= filelist_key_spec(old(self)@, code).0);
            if self.files.len() > 0 {
                Action::Load(Load::Open)
            } else {
                Action::Nothing
            }
        } else if code == KeyCode::Esc {
            self.mode = Mode::Normal;
            assert(self@ =~= filelist_key_spec(old(self)@, code).0);
            Action::Nothing
        } else {
            Action::Nothing
        }
    }

    /// Handles a key press in the current mode: the viewer's step from a
    /// state and a key to the next state and the outside work to do.
    pub fn handle_key(&mut self, key: KeyPress) -> (a: Action)
        requires
            old(self).wf(),
        ensures
            final(self).wf(),
            (final(self)@, a@) == key_spec(old(self)@, key),
    {
        match self.mode {
            Mode::Normal => self.handle_normal_key(key),
            Mode::SearchForward | Mode::SearchBackward => {
                self.handle_search_key(key.code);
                Action::Nothing
            },
            Mode::GoToLine => self.handle_goto_key(key.code),
            Mode::FileList => self.handle_filelist_key(key.code),
        }
    }

    /// Makes `text` the document, rendered with the theme.
    pub fn set_document(&mut self, text: String)
        requires
            old(self).wf(),
        ensures
            final(self).wf(),
            final(self)@ == with_document(old(self)@, text@),
    {
        self.content = text;
        self.render_content();
    }

    fn take_text(&mut self, text: Result<String, String>)
        requires
            old(self).wf(),
        ensures
            final(self).wf(),
            final(self)@ == (match result_view(text) {
                Ok(t) => with_document(AppView { file_name: current_file(old(self)@), ..old(self)@ }, t),
                Err(e) => with_document(
                    AppView { status: Some("Error reading file: "@ + e), file_name: current_file(old(self)@), ..old(self)@ },
                    Seq::empty(),
                ),
            }),
    {
        self.file_name = if self.files.len() > 0 {
            self.files[self.file_index].clone()
        } else {
            String::new()
        };
        match text {
            Ok(t) => self.set_document(t),
            Err(e) => {
                let mut m = String::from_str("Error reading file: ");
                m.append(e.as_str());
                self.status_message = Some(m);
                self.set_document(String::new());
            },
        }
    }

    fn rerun_search(&mut self)
        requires
            old(self).wf(),
        ensures
            final(self).wf(),
            final(self)@ == (AppView {
                results: if old(self)@.query.len() == 0 {
                    Seq::empty()
                } else {
                    search_for_mode(old(self)@, old(self)@.query)
                },
                ..old(self)@
            }),
    {
        if crate::text::str_is_empty(self.search_query.as_str()) {
            self.search_results = Vec::new();
            assert(self.search_results@ =~= Seq::<usize>::empty());
        } else {
            let q = self.search_query.clone();
            self.search_results = self.search_for_mode(q.as_str());
        }
        assert(self@ =~= AppView {
            results: if old(self)@.query.len() == 0 {
                Seq::empty()
            } else {
                search_for_mode(old(self)@, old(self)@.query)
            },
            ..old(self)@
        });
    }

    /// Takes the result of reading the shown file; see `load_spec`.
    pub fn finish_load(&mut self, kind: Load, text: Result<String, String>)
        requires
            old(self).wf(),
        ensures
            final(self).wf(),
            final(self)@ == load_spec(old(self)@, kind, result_view(text)),
    {
        self.take_text(text);
        if kind == Load::Reload {
            self.rerun_search();
        }
        if kind == Load::Back {
            self.status_message = None;
        }
        proof {
            let target = load_spec(old(self)@, kind, result_view(text));
            assert(self@ =~= target);
        }
    }

    /// Switches to `theme` and renders the document with it.
    pub fn set_theme(&mut self, theme: Theme)
        requires
            old(self).wf(),
        ensures
            final(self).wf(),
            final(self)@ == with_document(AppView { theme: theme@, ..old(self)@ }, old(self)@.text),
    {
        self.theme = theme;
        self.render_content();
    }

    /// Takes the configuration read again: its theme, when it names one
    /// (else the document is rendered again), and its wrap mode, when it
    /// gives one.
    pub fn config_reloaded(&mut self, wrap: Option<String>, theme: Option<Theme>)
        requires
            old(self).wf(),
        ensures
            final(self).wf(),
            final(self)@ == ({
                let s1 = match theme {
                    Some(t) => with_document(AppView { theme: t@, ..old(self)@ }, old(self)@.text),
                    None => with_document(old(self)@, old(self)@.text),
                };
                match wrap {
                    Some(w) => AppView { view: ViewState { wrap_mode: wrap_mode_of(w@), ..s1.view }, ..s1 },
                    None => s1,
                }
            }),
    {
        match theme {
            Some(t) => self.set_theme(t),
            None => self.render_content(),
        }
        match wrap {
            Some(w) => {
                self.view.wrap_mode = WrapMode::from_str(w.as_str());
            },
            None => {},
        }
    }

    /// Starts at line `start` (counted from 1) when it is past the first:
    /// the cursor goes there, within the document, scrolled to the top.
    pub fn go_to_start(&mut self, start: usize)
        requires
            old(self).wf(),
        ensures
            final(self).wf(),
            final(self)@ == (if start > 1 {
                AppView {
                    view: ViewState {
                        cursor_line: umin((start - 1) as usize, old(self)@.view.max_scroll),
                        scroll: umin((start - 1) as usize, old(self)@.view.max_scroll),
                        ..old(self)@.view
                    },
                    ..old(self)@
                }
            } else {
                old(self)@
            }),
    {
        if start > 1 {
            let sl = if start - 1 < self.view.max_scroll {
                start - 1
            } else {
                self.view.max_scroll
            };
            self.view.cursor_line = sl;
            self.view.scroll = sl;
        }
    }

    /// Records the height of the area the document is drawn in.
    pub fn set_viewport_height(&mut self, height: u16)
        requires
            old(self).wf(),
        ensures
            final(self).wf(),
            final(self)@ == (AppView { view: ViewState { viewport_height: height, ..old(self)@.view }, ..old(self)@ }),
    {
        self.view.viewport_height = height;
    }

    /// The name of the shown file; none when reading standard input.
    pub fn shown_file(&self) -> (r: Option<String>)
        requires
            self.wf(),
        ensures
            r matches Some(n) ==> self@.files.len() > 0 && n@ == current_file(self@),
            r is None ==> self@.files.len() == 0,
    {
        if self.files.len() > 0 {
            Some(self.files[self.file_index].clone())
        } else {
            None
        }
    }

    /// The input mode.
    pub fn mode(&self) -> (r: Mode)
        ensures
            r == self@.mode,
    {
        self.mode
    }

    /// The view: cursor, scroll and display settings.
    pub fn view_state(&self) -> (r: ViewState)
        ensures
            r == self@.view,
    {
        self.view
    }
}


// ---------------------------------------------------------------------------
// Laws of the viewer
// ---------------------------------------------------------------------------

/// A state in normal mode waiting for no bookmark letter.
pub open spec fn ready(s: AppView) -> bool {
    s.mode == Mode::Normal && !s.expect_set && !s.expect_jump
}

pub open spec fn press(c: char) -> KeyPress {
    KeyPress { code: KeyCode::Char(c), ctrl: false }
}

/// `]` then `[` shows the same file again, when several are open.
#[verifier::rlimit(30)]
pub proof fn law_next_file_then_previous(s: AppView)
    requires
        state_wf(s),
        ready(s),
        1 < s.files.len() <= usize::MAX,
    ensures
        key_spec(key_spec(s, press(']')).0, press('[')).0.file_index == s.file_index,
        key_spec(s, press(']')).1 == ActionView::Load(Load::Open),
{
    let n = s.files.len();
    let i = s.file_index as int;
    if i + 1 < n {
        assert((i + 1) % (n as int) == i + 1) by (nonlinear_arith)
            requires
                0 <= i + 1 < n,
        ;
    } else {
        assert((i + 1) % (n as int) == 0) by (nonlinear_arith)
            requires
                i + 1 == n,
                n > 0,
        ;
    }
    let s1 = key_spec(s, press(']')).0;
    assert(s1.mode == Mode::Normal && !s1.expect_set && !s1.expect_jump);
    assert(s1.files == s.files);
    let j = #[verifier::truncate] (((s.file_index + 1) % (n as int)) as usize);
    assert(s1.file_index == j);
    assert(j < n);
    let s2 = key_spec(s1, press('[')).0;
    if s.file_index + 1 < n {
        assert(j == s.file_index + 1);
        assert(s2.file_index == j - 1);
    } else {
        assert(j == 0);
        assert(s2.file_index == n - 1);
    }
}

proof fn lemma_set_mark(s: AppView, c: char)
    requires
        state_wf(s),
        ready(s),
        is_lower(c),
    ensures
        ({
            let s1 = key_spec(key_spec(s, press('m')).0, press(c)).0;
            &&& s1.marks == s.marks.update(mark_slot(c), Some(s.view.cursor_line))
            &&& s1.view == s.view
            &&& ready(s1)
        }),
{
    let s0 = key_spec(s, press('m')).0;
    assert(s0.expect_set && !s0.expect_jump && s0.mode == Mode::Normal);
    assert(s0.view == s.view && s0.marks == s.marks);
}

/// A bookmark set with `m` and a letter gives the cursor line back: `'` and
/// the same letter return the cursor to it.
pub proof fn law_bookmark_round_trip(s: AppView, c: char)
    requires
        state_wf(s),
        ready(s),
        is_lower(c),
    ensures
        ({
            let s1 = key_spec(key_spec(s, press('m')).0, press(c)).0;
            let s2 = key_spec(key_spec(s1, press('\'')).0, press(c)).0;
            &&& s1.marks[mark_slot(c)] == Some(s.view.cursor_line)
            &&& s2.view.cursor_line == s.view.cursor_line
        }),
{
    lemma_set_mark(s, c);
    let s1 = key_spec(key_spec(s, press('m')).0, press(c)).0;
    assert(s1.marks[mark_slot(c)] == Some(s.view.cursor_line));
    lemma_jump_mark_any(s1, c);
}

proof fn lemma_jump_mark_any(s: AppView, c: char)
    requires
        s.view.cursor_line <= s.view.max_scroll,
        ready(s),
        is_lower(c),
        s.marks[mark_slot(c)] == Some(s.view.cursor_line),
    ensures
        key_spec(key_spec(s, press('\'')).0, press(c)).0.view.cursor_line == s.view.cursor_line,
{
    let s0 = key_spec(s, press('\'')).0;
    assert(s0.expect_jump && !s0.expect_set && s0.mode == Mode::Normal);
    assert(s0.view == s.view && s0.marks == s.marks);
}

/// `n` with matches lands the current match on one of them, and the cursor
/// on that line when it is within the document.
pub proof fn law_next_lands_on_a_match(s: AppView)
    requires
        state_wf(s),
        ready(s),
        s.pending is None,
        s.results.len() > 0,
    ensures
        ({
            let s1 = key_spec(s, press('n')).0;
            &&& s1.idx is Some
            &&& s.results.contains(s1.idx.unwrap())
            &&& s1.view.cursor_line == umin(s1.idx.unwrap(), s.view.max_scroll)
        }),
{
    let cur = s.idx.unwrap_or(0);
    reveal_with_fuel(next_n, 2);
    assert(next_n(s.results, s.idx, 1) == spec_next_match(s.results, cur));
    crate::search::law_match_is_a_result(s.results, cur);
}


// ---------------------------------------------------------------------------
// The screen
// ---------------------------------------------------------------------------

/// Bold white on blue: the status bar.
pub open spec fn bar_style() -> Style {
    Style::spec_default().spec_fg(Color::White).spec_bg(Color::Blue).spec_add(
        Modifier { bold: true, ..Modifier::spec_empty() },
    )
}

/// Bold yellow on blue: messages and prompts in the status bar.
pub open spec fn prompt_style() -> Style {
    Style::spec_default().spec_fg(Color::Yellow).spec_bg(Color::Blue).spec_add(
        Modifier { bold: true, ..Modifier::spec_empty() },
    )
}

/// The number of lines shown: text lines in raw mode, rendered lines otherwise.
pub open spec fn total_lines(s: AppView) -> nat {
    if s.view.raw_mode {
        text_lines(s).len()
    } else {
        s.lines.len()
    }
}

/// The position of the first `x` in `r`.
pub open spec fn position_of(r: Seq<usize>, x: usize) -> Option<nat>
    decreases r.len(),
{
    if r.len() == 0 {
        None
    } else if r[0] == x {
        Some(0)
    } else {
        match position_of(r.drop_first(), x) {
            Some(p) => Some(p + 1),
            None => None,
        }
    }
}

/// The number of the current match among the results, counted from 1; 0
/// when there is none or it is not among them.
pub open spec fn match_number(s: AppView) -> nat {
    match s.idx {
        Some(i) => match position_of(s.results, i) {
            Some(p) => p + 1,
            None => 0,
        },
        None => 0,
    }
}

/// The text of the status bar: the file name (`<stdin>` without files), the
/// cursor line out of the total and how far down it is in percent (the
/// product wrapping as a release build computes it), the wrap mode, raw
/// mode, the file number when several are open, the search with the number
/// of the current match out of all, and a mark when line numbers are shown.
pub open spec fn status_text(s: AppView) -> Seq<char> {
    status_head(s) + status_tail(s)
}

/// The file name, the cursor line out of the total, and the percentage.
pub open spec fn status_head(s: AppView) -> Seq<char> {
    let name = if s.files.len() > 0 {
        s.file_name
    } else {
        "<stdin>"@
    };
    let total = total_lines(s);
    let ln: nat = if s.view.cursor_line + 1 < total {
        (s.view.cursor_line + 1) as nat
    } else {
        total
    };
    let pct: nat = if total == 0 {
        0
    } else {
        let p = vstd::wrapping::usize_specs::wrapping_mul(s.view.cursor_line, 100) as nat / total;
        if p < 100 {
            p
        } else {
            100
        }
    };
    " "@ + name + " — Ln "@ + decimal(ln) + "/"@ + decimal(total) + " ("@ + decimal(pct) + "%) "@
}

/// The wrap mode, raw mode, the file number, the search, and the line-number mark.
pub open spec fn status_tail(s: AppView) -> Seq<char> {
    let wrap = " wrap:"@ + wrap_mode_name(s.view.wrap_mode) + " "@;
    let raw = if s.view.raw_mode {
        " RAW "@
    } else {
        Seq::empty()
    };
    let file = if s.files.len() > 1 {
        " file "@ + decimal((s.file_index + 1) as nat) + "/"@ + decimal(s.files.len()) + " "@
    } else {
        Seq::empty()
    };
    let found = if s.query.len() > 0 {
        " \""@ + s.query + "\" ["@ + decimal(match_number(s)) + "/"@ + decimal(s.results.len()) + "] "@
    } else {
        Seq::empty()
    };
    let numbers = if s.view.show_line_numbers {
        " # "@
    } else {
        Seq::empty()
    };
    wrap + raw + file + found + numbers
}

/// The status bar: its text, then the message when there is one, then the
/// text being typed with its prompt.
pub open spec fn status_line_spec(s: AppView) -> Seq<SpanV> {
    let message = match s.status {
        Some(m) => seq![(" ⚠ "@ + m + " "@, prompt_style())],
        None => Seq::empty(),
    };
    let prompt = match s.mode {
        Mode::SearchForward => seq![(" /"@ + s.input + "_ "@, prompt_style())],
        Mode::SearchBackward => seq![(" ?"@ + s.input + "_ "@, prompt_style())],
        Mode::GoToLine => seq![(" :"@ + s.input + "_ "@, prompt_style())],
        _ => Seq::empty(),
    };
    seq![(status_text(s), bar_style())] + message + prompt
}

fn dec(n: usize) -> (r: String)
    ensures
        r@ == decimal(n as nat),
{
    let d = decimal_exec(n);
    string_of(d.as_slice())
}

proof fn lemma_position_bound(r: Seq<usize>, x: usize)
    ensures
        position_of(r, x) matches Some(k) ==> k < r.len(),
    decreases r.len(),
{
    if r.len() > 0 && r[0] != x {
        lemma_position_bound(r.drop_first(), x);
    }
}

fn position_exec(r: &Vec<usize>, x: usize) -> (p: Option<usize>)
    ensures
        p matches Some(k) ==> k < r@.len(),
        match position_of(r@, x) {
            Some(k) => p == Some(k as usize),
            None => p is None,
        },
{
    let mut k: usize = 0;
    assert(r@.subrange(0, r@.len() as int) =~= r@);
    while k < r.len()
        invariant
            k <= r@.len(),
            match position_of(r@, x) {
                Some(q) => q >= k && position_of(r@.subrange(k as int, r@.len() as int), x) == Some((q - k) as nat),
                None => position_of(r@.subrange(k as int, r@.len() as int), x) is None,
            },
        decreases r.len() - k,
    {
        assert(r@.subrange(k as int, r@.len() as int)[0] == r@[k as int]);
        assert(r@.subrange(k as int, r@.len() as int).drop_first() =~= r@.subrange(k + 1, r@.len() as int));
        if r[k] == x {
            return Some(k);
        }
        k = k + 1;
    }
    None
}

impl App {
    fn match_number(&self) -> (n: usize)
        requires
            self.wf(),
        ensures
            n == match_number(self@),
    {
        let nres = self.search_results.len();
        proof {
            match self.search_idx {
                Some(i) => lemma_position_bound(self.search_results@, i),
                None => {},
            }
        }
        match self.search_idx {
            Some(i) => match position_exec(&self.search_results, i) {
                Some(p) => p + 1,
                None => 0,
            },
            None => 0,
        }
    }

    fn status_head(&self) -> (r: String)
        requires
            self.wf(),
        ensures
            r@ == status_head(self@),
    {
        let mut t = String::from_str(" ");
        if self.files.len() > 0 {
            t.append(self.file_name.as_str());
        } else {
            t.append("<stdin>");
        }
        let total = if self.view.raw_mode {
            self.content_lines.len()
        } else {
            self.lines.len()
        };
        let ln = if self.view.cursor_line + 1 < total {
            self.view.cursor_line + 1
        } else {
            total
        };
        let pct = if total == 0 {
            0
        } else {
            let p = self.view.cursor_line.wrapping_mul(100) / total;
            if p < 100 {
                p
            } else {
                100
            }
        };
        t.append(" — Ln ");
        t.append(dec(ln).as_str());
        t.append("/");
        t.append(dec(total).as_str());
        t.append(" (");
        t.append(dec(pct).as_str());
        t.append("%) ");
        t
    }

    fn found_text(&self) -> (r: String)
        requires
            self.wf(),
        ensures
            r@ == (if self@.query.len() > 0 {
                " \""@ + self@.query + "\" ["@ + decimal(match_number(self@)) + "/"@ + decimal(self@.results.len()) + "] "@
            } else {
                Seq::<char>::empty()
            }),
    {
        if !crate::text::str_is_empty(self.search_query.as_str()) {
            let n = self.match_number();
            let mut t = String::from_str(" \"");
            t.append(self.search_query.as_str());
            t.append("\" [");
            t.append(dec(n).as_str());
            t.append("/");
            t.append(dec(self.search_results.len()).as_str());
            t.append("] ");
            t
        } else {
            String::new()
        }
    }

    fn file_text(&self) -> (r: String)
        requires
            self.wf(),
        ensures
            r@ == (if self@.files.len() > 1 {
                " file "@ + decimal((self@.file_index + 1) as nat) + "/"@ + decimal(self@.files.len()) + " "@
            } else {
                Seq::<char>::empty()
            }),
    {
        if self.files.len() > 1 {
            let mut t = String::from_str(" file ");
            t.append(dec(self.file_index + 1).as_str());
            t.append("/");
            t.append(dec(self.files.len()).as_str());
            t.append(" ");
            t
        } else {
            String::new()
        }
    }

    fn status_tail(&self) -> (r: String)
        requires
            self.wf(),
        ensures
            r@ == status_tail(self@),
    {
        let mut t = String::from_str(" wrap:");
        t.append(self.view.wrap_mode.as_str());
        t.append(" ");
        t.append(if self.view.raw_mode {
            " RAW "
        } else {
            ""
        });
        t.append(self.file_text().as_str());
        t.append(self.found_text().as_str());
        t.append(if self.view.show_line_numbers {
            " # "
        } else {
            ""
        });
        proof {
            reveal_strlit("");
        }
        assert(t@ =~= status_tail(self@));
        t
    }

    fn status_text(&self) -> (r: String)
        requires
            self.wf(),
        ensures
            r@ == status_text(self@),
    {
        let mut t = self.status_head();
        let tail = self.status_tail();
        t.append(tail.as_str());
        t
    }

    /// The status bar.
    pub fn status_line(&self) -> (r: Line)
        requires
            self.wf(),
        ensures
            crate::style::spans_view(r.spans@) == status_line_spec(self@),
    {
        let bold = Modifier::bold();
        let bar = Style::new().fg(Color::White).bg(Color::Blue).add_modifier(bold);
        let warn = Style::new().fg(Color::Yellow).bg(Color::Blue).add_modifier(bold);
        let mut spans: Vec<Span> = Vec::new();
        spans.push(Span::styled(self.status_text(), bar));
        let ghost v0 = crate::style::spans_view(spans@);
        assert(v0 =~= seq![(status_text(self@), bar_style())]);
        match &self.status_message {
            Some(m) => {
                let mut t = String::from_str(" ⚠ ");
                t.append(m.as_str());
                t.append(" ");
                spans.push(Span::styled(t, warn));
            },
            None => {},
        }
        let ghost v1 = crate::style::spans_view(spans@);
        let lead = match self.mode {
            Mode::SearchForward => Some(" /"),
            Mode::SearchBackward => Some(" ?"),
            Mode::GoToLine => Some(" :"),
            _ => None,
        };
        match lead {
            Some(l) => {
                let mut t = String::from_str(l);
                t.append(self.input_buf.as_str());
                t.append("_ ");
                spans.push(Span::styled(t, warn));
            },
            None => {},
        }
        assert(crate::style::spans_view(spans@) =~= status_line_spec(self@));
        Line { spans }
    }
}


/// Rendered line `i` as shown: the search highlighted in it (unless some
/// piece holds a match and lowercasing moves its positions), after its number
/// when line numbers are shown.
pub open spec fn shown_line(s: AppView, i: int) -> Seq<SpanV> {
    let l = s.lines[i];
    let h = if s.query.len() > 0 && highlightable(l, s.query) {
        highlight_view(l, s.query)
    } else {
        l
    };
    if s.view.show_line_numbers {
        seq![(number_cell((i + 1) as usize, s.lines.len() as usize), gutter_style())] + h
    } else {
        h
    }
}

/// The style of a raw markdown line of kind `k`: front matter dimmed, code,
/// each heading level, text, from the theme (paragraph style by default).
pub open spec fn kind_style(t: ThemeView, k: LineKind) -> Style {
    let para = match style_as_style_spec(t, "paragraph"@) {
        Some(x) => x,
        None => Style::spec_default(),
    };
    match k {
        LineKind::FrontMatter => para.spec_add(Modifier { dim: true, ..Modifier::spec_empty() }),
        LineKind::Code => match style_as_style_spec(t, "code_block"@) {
            Some(x) => x,
            None => Style::spec_default(),
        },
        LineKind::Heading(n) => match style_as_style_spec(t, heading_key(n)) {
            Some(x) => x,
            None => para,
        },
        LineKind::Text => para,
    }
}

/// The theme key of heading level `n` (1 to 6).
pub open spec fn heading_key(n: usize) -> Seq<char> {
    if n <= 1 {
        "heading1"@
    } else if n == 2 {
        "heading2"@
    } else if n == 3 {
        "heading3"@
    } else if n == 4 {
        "heading4"@
    } else if n == 5 {
        "heading5"@
    } else {
        "heading6"@
    }
}

/// Text line `i` as shown in raw mode: in the style of its kind, with the
/// search highlighted when the line contains it, after its number when line
/// numbers are shown.
pub open spec fn raw_shown_line(s: AppView, i: int) -> Seq<SpanV> {
    let ls = text_lines(s);
    let l = ls[i];
    let base = seq![(l, kind_style(s.theme, line_kinds(ls)[i]))];
    let h = if s.query.len() > 0 && contains_seq(spec_lowercase(l), spec_lowercase(s.query)) && highlightable(
        base,
        s.query,
    ) {
        highlight_view(base, s.query)
    } else {
        base
    };
    if s.view.show_line_numbers {
        seq![(number_cell((i + 1) as usize, ls.len() as usize), gutter_style())] + h
    } else {
        h
    }
}

/// The file list: a title, a rule, then each file with the selected one marked.
pub open spec fn file_list_spec(s: AppView) -> Seq<Seq<SpanV>> {
    seq![seq![(" Files "@, bar_style())], seq![("───"@, Style::spec_default().spec_fg(Color::DarkGray))]]
        + Seq::new(
        s.files.len(),
        |i: int|
            {
                let sel = i == s.file_index;
                seq![
                    (
                        (if sel {
                            "▸ "@
                        } else {
                            "  "@
                        }) + s.files[i],
                        Style::spec_default().spec_fg(
                            if sel {
                                Color::Cyan
                            } else {
                                Color::White
                            },
                        ).spec_add(Modifier { bold: sel, ..Modifier::spec_empty() }),
                    ),
                ]
            },
    )
}

fn line_of(sp: Span) -> (r: Line)
    ensures
        crate::style::spans_view(r.spans@) == seq![crate::style::span_view(sp)],
{
    let mut spans: Vec<Span> = Vec::new();
    spans.push(sp);
    assert(crate::style::spans_view(spans@) =~= seq![crate::style::span_view(sp)]);
    Line { spans }
}

impl App {
    fn shown_line(&self, i: usize) -> (r: Line)
        requires
            self.wf(),
            i < self@.lines.len(),
        ensures
            crate::style::spans_view(r.spans@) == shown_line(self@, i as int),
    {
        let n = self.lines.len();
        let line = &self.lines[i];
        assert(crate::style::spans_view(line.spans@) == self@.lines[i as int]);
        let q = self.search_query.as_str();
        let h = if !crate::text::str_is_empty(q) && line_highlightable(line, q) {
            let r = highlight_line(line, q);
            proof {
                crate::search::lemma_highlight_view(line.spans@, q@);
            }
            r
        } else {
            line.copy()
        };
        if self.view.show_line_numbers {
            prepend_line_number(h, i + 1, n)
        } else {
            h
        }
    }

    /// The rendered lines as shown, with the search highlighted and line
    /// numbers when they are on.
    pub fn display_lines(&self) -> (r: Vec<Line>)
        requires
            self.wf(),
        ensures
            lines_view(r@) == Seq::new(self@.lines.len(), |i: int| shown_line(self@, i)),
    {
        let mut out: Vec<Line> = Vec::new();
        let mut i: usize = 0;
        while i < self.lines.len()
            invariant
                self.wf(),
                i <= self@.lines.len(),
                lines_view(out@) == Seq::new(i as nat, |k: int| shown_line(self@, k)),
            decreases self.lines.len() - i,
        {
            let l = self.shown_line(i);
            let ghost before = lines_view(out@);
            out.push(l);
            assert(lines_view(out@) =~= before.push(shown_line(self@, i as int)));
            i = i + 1;
            assert(lines_view(out@) =~= Seq::new(i as nat, |k: int| shown_line(self@, k)));
        }
        out
    }

    fn raw_style(&self, k: LineKind) -> (r: Style)
        requires
            self.wf(),
        ensures
            r == kind_style(self@.theme, k),
    {
        let para = match self.theme.style_as_style("paragraph") {
            Some(x) => x,
            None => Style::new(),
        };
        match k {
            LineKind::FrontMatter => para.add_modifier(Modifier::dim()),
            LineKind::Code => match self.theme.style_as_style("code_block") {
                Some(x) => x,
                None => Style::new(),
            },
            LineKind::Heading(n) => {
                let key = if n <= 1 {
                    "heading1"
                } else if n == 2 {
                    "heading2"
                } else if n == 3 {
                    "heading3"
                } else if n == 4 {
                    "heading4"
                } else if n == 5 {
                    "heading5"
                } else {
                    "heading6"
                };
                match self.theme.style_as_style(key) {
                    Some(x) => x,
                    None => para,
                }
            },
            LineKind::Text => para,
        }
    }

    fn raw_shown_line(&self, i: usize, kind: LineKind, text: &Vec<char>) -> (r: Line)
        requires
            self.wf(),
            i < text_lines(self@).len(),
            kind == line_kinds(text_lines(self@))[i as int],
            text@ == text_lines(self@)[i as int],
        ensures
            crate::style::spans_view(r.spans@) == raw_shown_line(self@, i as int),
    {
        let n = self.content_lines.len();
        let st = self.raw_style(kind);
        let base = line_of(Span::styled(string_of(text.as_slice()), st));
        let q = self.search_query.as_str();
        let h = if !crate::text::str_is_empty(q) {
            let lower_line = to_lowercase(self.content_lines[i].as_str());
            let lower_q = to_lowercase(q);
            let found = crate::text::contains_exec(&chars_of(lower_line.as_str()), &chars_of(lower_q.as_str()));
            if found && line_highlightable(&base, q) {
                let r = highlight_line(&base, q);
                proof {
                    crate::search::lemma_highlight_view(base.spans@, q@);
                }
                r
            } else {
                base
            }
        } else {
            base
        };
        if self.view.show_line_numbers {
            prepend_line_number(h, i + 1, n)
        } else {
            h
        }
    }

    /// The text lines as shown in raw mode, styled by kind, with the search
    /// highlighted and line numbers when they are on.
    pub fn raw_display_lines(&self) -> (r: Vec<Line>)
        requires
            self.wf(),
        ensures
            lines_view(r@) == Seq::new(text_lines(self@).len(), |i: int| raw_shown_line(self@, i)),
    {
        let chars = chars_of(self.content.as_str());
        let ls = split_lines(&chars);
        let kinds = line_kinds_exec(&ls);
        let mut out: Vec<Line> = Vec::new();
        let mut i: usize = 0;
        while i < ls.len()
            invariant
                self.wf(),
                vv(ls@) == text_lines(self@),
                kinds@ == line_kinds(text_lines(self@)),
                kinds@.len() == ls@.len(),
                i <= ls@.len(),
                lines_view(out@) == Seq::new(i as nat, |k: int| raw_shown_line(self@, k)),
            decreases ls.len() - i,
        {
            assert(vv(ls@)[i as int] == ls@[i as int]@);
            let l = self.raw_shown_line(i, kinds[i], &ls[i]);
            let ghost before = lines_view(out@);
            out.push(l);
            assert(lines_view(out@) =~= before.push(raw_shown_line(self@, i as int)));
            i = i + 1;
            assert(lines_view(out@) =~= Seq::new(i as nat, |k: int| raw_shown_line(self@, k)));
        }
        out
    }

    /// The list of open files, the selected one marked.
    pub fn file_list_lines(&self) -> (r: Vec<Line>)
        requires
            self.wf(),
        ensures
            lines_view(r@) == file_list_spec(self@),
    {
        let mut out: Vec<Line> = Vec::new();
        let bold = Modifier::bold();
        out.push(line_of(Span::styled(
            String::from_str(" Files "),
            Style::new().fg(Color::White).bg(Color::Blue).add_modifier(bold),
        )));
        out.push(line_of(Span::styled(String::from_str("───"), Style::new().fg(Color::DarkGray))));
        let ghost head = seq![seq![(" Files "@, bar_style())], seq![("───"@, Style::spec_default().spec_fg(Color::DarkGray))]];
        assert(lines_view(out@) =~= head);
        let mut i: usize = 0;
        while i < self.files.len()
            invariant
                self.wf(),
                i <= self@.files.len(),
                lines_view(out@) == head + file_list_spec(self@).subrange(2, i + 2),
            decreases self.files.len() - i,
        {
            let sel = i == self.file_index;
            let mut t = String::from_str(if sel {
                "▸ "
            } else {
                "  "
            });
            t.append(self.files[i].as_str());
            let st = Style::new().fg(if sel {
                Color::Cyan
            } else {
                Color::White
            }).add_modifier(if sel {
                Modifier::bold()
            } else {
                Modifier::empty()
            });
            let ghost before = lines_view(out@);
            let ghost tv = t@;
            proof {
                assert(self@.files[i as int] == self.files@[i as int]@);
                assert(file_list_spec(self@)[i + 2] == seq![(tv, st)]);
            }
            out.push(line_of(Span::styled(t, st)));
            assert(lines_view(out@) =~= before.push(seq![(tv, st)]));
            assert(file_list_spec(self@).subrange(2, i + 3) =~= file_list_spec(self@).subrange(2, i + 2).push(
                seq![(tv, st)],
            ));
            assert(lines_view(out@) =~= head + file_list_spec(self@).subrange(2, i + 3));
            i = i + 1;
        }
        assert(file_list_spec(self@).subrange(2, self@.files.len() as int + 2) =~= file_list_spec(self@).subrange(2, file_list_spec(self@).len() as int));
        assert(lines_view(out@) =~= file_list_spec(self@));
        out
    }
}


// ---------------------------------------------------------------------------
// Drawing a frame
// ---------------------------------------------------------------------------

/// Whether a text holds a piece of a table border.
pub open spec fn has_table_char(t: Seq<char>) -> bool {
    t.contains('┌') || t.contains('│') || t.contains('└') || t.contains('├')
}

/// Whether any of the lines draws part of a table.
pub open spec fn draws_table(lines: Seq<Seq<SpanV>>) -> bool {
    exists|i: int, k: int| 0 <= i < lines.len() && 0 <= k < lines[i].len() && has_table_char(#[trigger] lines[i][k].0)
}

fn has_table_char_exec(t: &str) -> (r: bool)
    ensures
        r == has_table_char(t@),
{
    let c = chars_of(t);
    let mut k: usize = 0;
    while k < c.len()
        invariant
            c@ == t@,
            k <= c@.len(),
            forall|j: int| 0 <= j < k ==> c@[j] != '┌' && c@[j] != '│' && c@[j] != '└' && c@[j] != '├',
        decreases c.len() - k,
    {
        let ch = c[k];
        if ch == '┌' || ch == '│' || ch == '└' || ch == '├' {
            assert(t@.contains(ch) && t@[k as int] == ch);
            return true;
        }
        k = k + 1;
    }
    assert(!t@.contains('┌') && !t@.contains('│') && !t@.contains('└') && !t@.contains('├')) by {
        if t@.contains('┌') {
            let j = choose|j: int| 0 <= j < t@.len() && t@[j] == '┌';
            assert(c@[j] != '┌');
        }
        if t@.contains('│') {
            let j = choose|j: int| 0 <= j < t@.len() && t@[j] == '│';
            assert(c@[j] != '│');
        }
        if t@.contains('└') {
            let j = choose|j: int| 0 <= j < t@.len() && t@[j] == '└';
            assert(c@[j] != '└');
        }
        if t@.contains('├') {
            let j = choose|j: int| 0 <= j < t@.len() && t@[j] == '├';
            assert(c@[j] != '├');
        }
    }
    false
}

/// Whether any of the lines draws part of a table; wrapping is turned off then.
pub fn has_table(lines: &Vec<Line>) -> (r: bool)
    ensures
        r == draws_table(lines_view(lines@)),
{
    let ghost lv = lines_view(lines@);
    let mut i: usize = 0;
    while i < lines.len()
        invariant
            i <= lines@.len(),
            lv == lines_view(lines@),
            forall|a: int, k: int| 0 <= a < i && 0 <= k < lv[a].len() ==> !has_table_char(#[trigger] lv[a][k].0),
        decreases lines.len() - i,
    {
        let spans = &lines[i].spans;
        let mut k: usize = 0;
        while k < spans.len()
            invariant
                i < lines@.len(),
                *spans == lines@[i as int].spans,
                k <= spans@.len(),
                lv == lines_view(lines@),
                lv[i as int] == crate::style::spans_view(spans@),
                forall|a: int, j: int| 0 <= a < i && 0 <= j < lv[a].len() ==> !has_table_char(#[trigger] lv[a][j].0),
                forall|j: int| 0 <= j < k ==> !has_table_char(#[trigger] lv[i as int][j].0),
            decreases spans.len() - k,
        {
            assert(lv[i as int][k as int].0 == spans@[k as int].content@);
            if has_table_char_exec(spans[k].content.as_str()) {
                assert(has_table_char(lv[i as int][k as int].0));
                return true;
            }
            k = k + 1;
        }
        i = i + 1;
    }
    false
}

/// How lines are wrapped: not at all when a table is shown or wrapping is
/// off; at words without trimming, or at characters with trimming.
pub open spec fn wrapping_spec(table: bool, mode: WrapMode) -> Option<bool> {
    if table {
        None
    } else {
        match mode {
            WrapMode::Word => Some(false),
            WrapMode::Char => Some(true),
            WrapMode::NoWrap => None,
        }
    }
}

/// How lines are wrapped: `None` for not at all, else whether wrapped lines
/// are trimmed.
pub fn wrapping(table: bool, mode: WrapMode) -> (r: Option<bool>)
    ensures
        r == wrapping_spec(table, mode),
{
    if table {
        None
    } else {
        match mode {
            WrapMode::Word => Some(false),
            WrapMode::Char => Some(true),
            WrapMode::NoWrap => None,
        }
    }
}

/// The screen cell of the cursor in an area at `(x, y)` of `width` by
/// `height`, when the cursor is shown (in normal mode and in the file list)
/// and falls inside the area: below the top by the cursor line less the
/// scroll, right of the left edge by the line-number gutter and the cursor
/// column less the sideways scroll. Sums wrap in 16 bits and the area's far
/// edges saturate, as a release build computes them.
pub open spec fn cursor_cell_spec(s: AppView, x: u16, y: u16, width: u16, height: u16) -> Option<(u16, u16)> {
    if s.mode == Mode::Normal || s.mode == Mode::FileList {
        let gutter: u16 = if s.view.show_line_numbers {
            ((decimal(total_lines(s)).len() + 1) % 0x10000) as u16
        } else {
            0
        };
        let dy = (s.view.cursor_line.saturating_sub(s.view.scroll) % 0x10000) as u16;
        let sy = vstd::wrapping::u16_specs::wrapping_add(y, dy);
        let sx = vstd::wrapping::u16_specs::wrapping_add(
            vstd::wrapping::u16_specs::wrapping_add(x, gutter),
            s.view.cursor_col.saturating_sub(s.view.h_scroll),
        );
        if sy < y.saturating_add(height) && sx < x.saturating_add(width) {
            Some((sx, sy))
        } else {
            None
        }
    } else {
        None
    }
}

impl App {
    /// The lines of the frame: the file list, the raw text lines, or the
    /// rendered lines, by mode.
    pub fn frame_lines(&self) -> (r: Vec<Line>)
        requires
            self.wf(),
        ensures
            self@.mode == Mode::FileList ==> lines_view(r@) == file_list_spec(self@),
            self@.mode != Mode::FileList && self@.view.raw_mode ==> lines_view(r@) == Seq::new(
                text_lines(self@).len(),
                |i: int| raw_shown_line(self@, i),
            ),
            self@.mode != Mode::FileList && !self@.view.raw_mode ==> lines_view(r@) == Seq::new(
                self@.lines.len(),
                |i: int| shown_line(self@, i),
            ),
    {
        if self.mode == Mode::FileList {
            self.file_list_lines()
        } else if self.view.raw_mode {
            self.raw_display_lines()
        } else {
            self.display_lines()
        }
    }

    /// Where the cursor is drawn; see `cursor_cell_spec`.
    pub fn cursor_cell(&self, x: u16, y: u16, width: u16, height: u16) -> (r: Option<(u16, u16)>)
        requires
            self.wf(),
        ensures
            r == cursor_cell_spec(self@, x, y, width, height),
    {
        if self.mode == Mode::Normal || self.mode == Mode::FileList {
            let total = if self.view.raw_mode {
                self.content_lines.len()
            } else {
                self.lines.len()
            };
            let gutter: u16 = if self.view.show_line_numbers {
                let w = decimal_exec(total).len();
                ((w as u128 + 1) % 0x10000) as u16
            } else {
                0
            };
            let dy = (self.view.cursor_line.saturating_sub(self.view.scroll) as u64 % 0x10000) as u16;
            let sy = y.wrapping_add(dy);
            let sx = x.wrapping_add(gutter).wrapping_add(self.view.cursor_col.saturating_sub(self.view.h_scroll));
            if sy < y.saturating_add(height) && sx < x.saturating_add(width) {
                Some((sx, sy))
            } else {
                None
            }
        } else {
            None
        }
    }
}

} // verus!
