//! A window with a text that is wrapped to the window's width and scrolled
//! where it has more lines than the window.

use vstd::prelude::*;

verus! {

/// The columns that the frame of the window and the space within it take.
pub const FRAME_WIDTH: u16 = 6;

/// The lines that the frame of the window and the space within it take.
pub const FRAME_HEIGHT: u16 = 4;

/// What `textwrap::wrap` returns for `text` and the line width `width`: the lines into
/// which the text is broken so that none is wider than `width` where that can be had.
pub uninterp spec fn wrapped_lines(text: Seq<char>, width: usize) -> Seq<Seq<char>>;

/// `textwrap::wrap` with a width for its options: the lines of the wrapped text, which
/// depend on the text and the width alone.
#[verifier::external_body]
fn wrap(text: &str, width: usize) -> (lines: Vec<String>)
    ensures
        lines@.map_values(|line: String| line@) == wrapped_lines(text@, width),
{
    textwrap::wrap(text, width).into_iter().map(String::from).collect()
}

/// A window with a title and a text.
#[derive(Debug)]
pub struct PopUp {
    title: &'static str,
    text: &'static str,
}

/// What a `PopUp` keeps from one drawing to the next.
#[derive(Debug, Default)]
pub struct PopUpState {
    /// The lines of the text, as they were wrapped for `last_width`.
    wrapped_text: Option<Vec<String>>,
    /// The width of the whole window for which the text was wrapped.
    last_width: u16,
    /// The number of lines that are scrolled out at the top.
    scroll: u16,
    /// The number of lines that the window shows.
    window_height: u16,
    /// The number of lines that the text has.
    content_height: u16,
}

/// The model of a `PopUpState`.
pub struct PopUpStateView {
    pub wrapped_text: Option<Seq<Seq<char>>>,
    pub last_width: u16,
    pub scroll: u16,
    pub window_height: u16,
    pub content_height: u16,
}

impl View for PopUpState {
    type V = PopUpStateView;

    closed spec fn view(&self) -> PopUpStateView {
        PopUpStateView {
            wrapped_text: match self.wrapped_text {
                Some(lines) => Some(lines@.map_values(|line: String| line@)),
                None => None,
            },
            last_width: self.last_width,
            scroll: self.scroll,
            window_height: self.window_height,
            content_height: self.content_height,
        }
    }
}

/// `a - b`, or nothing where `b` is the larger.
pub open spec fn minus(a: u16, b: u16) -> u16 {
    if a >= b {
        (a - b) as u16
    } else {
        0
    }
}

/// How far the text can be scrolled: by the lines that the window does not hold.
pub open spec fn max_scroll(v: PopUpStateView) -> u16 {
    minus(v.content_height, v.window_height)
}

/// `scroll + by`, but no more than `limit`.
pub open spec fn scrolled_down(scroll: u16, by: u16, limit: u16) -> u16 {
    if scroll + by > limit {
        limit
    } else {
        (scroll + by) as u16
    }
}

/// The state after the text `text` was laid out for a window of the given width and height:
/// the text is wrapped anew where it was not wrapped for this width, and the number of lines
/// that the window shows is noted.
pub open spec fn laid_out(v: PopUpStateView, text: Seq<char>, width: u16, height: u16) -> PopUpStateView {
    let lines = wrapped_lines(text, minus(width, FRAME_WIDTH) as usize);
    let wrapped = if v.wrapped_text is None || v.last_width != width {
        PopUpStateView {
            wrapped_text: Some(lines),
            last_width: width,
            content_height: (lines.len() % 0x1_0000) as u16,
            ..v
        }
    } else {
        v
    };
    PopUpStateView { window_height: minus(height, FRAME_HEIGHT), ..wrapped }
}

impl PopUp {
    pub fn new(title: &'static str, text: &'static str) -> (pop_up: PopUp)
        ensures
            pop_up.title()@ == title@,
            pop_up.text()@ == text@,
    {
        PopUp { title, text }
    }

    pub closed spec fn title(&self) -> &'static str {
        self.title
    }

    pub closed spec fn text(&self) -> &'static str {
        self.text
    }

    /// The title of the window.
    pub fn get_title(&self) -> (title: &'static str)
        ensures
            title@ == self.title()@,
    {
        self.title
    }

    /// The width that is left for the text in a window of the width `area_width`.
    pub fn width(&self, area_width: u16) -> (width: u16)
        ensures
            width == minus(area_width, FRAME_WIDTH),
    {
        area_width.saturating_sub(FRAME_WIDTH)
    }

    /// The number of lines that a window of the height `area_height` shows.
    pub fn height(&self, area_height: u16) -> (height: u16)
        ensures
            height == minus(area_height, FRAME_HEIGHT),
    {
        area_height.saturating_sub(FRAME_HEIGHT)
    }

    /// Lays the text out for a window of the given width and height.
    pub fn layout(&self, state: &mut PopUpState, area_width: u16, area_height: u16)
        ensures
            final(state)@ == laid_out(old(state)@, self.text()@, area_width, area_height),
    {
        if state.wrapped_text.is_none() || state.last_width != area_width {
            let lines = wrap(self.text, self.width(area_width) as usize);
            let count = lines.len();
            state.wrapped_text = Some(lines);
            state.last_width = area_width;
            state.content_height = (count % 0x1_0000) as u16;
        }
        state.window_height = self.height(area_height);
    }
}

impl PopUpState {
    /// A state that holds no text yet.
    pub fn new() -> (state: PopUpState)
        ensures
            state@ == (PopUpStateView {
                wrapped_text: None,
                last_width: 0,
                scroll: 0,
                window_height: 0,
                content_height: 0,
            }),
    {
        PopUpState {
            wrapped_text: None,
            last_width: 0,
            scroll: 0,
            window_height: 0,
            content_height: 0,
        }
    }

    /// The lines of the text, once it was laid out.
    pub fn lines(&self) -> (lines: Option<&Vec<String>>)
        ensures
            match lines {
                Some(lines) => self@.wrapped_text == Some(lines@.map_values(|line: String| line@)),
                None => self@.wrapped_text is None,
            },
    {
        match &self.wrapped_text {
            Some(lines) => Some(lines),
            None => None,
        }
    }

    /// The number of lines that are scrolled out at the top.
    pub fn scroll(&self) -> (scroll: u16)
        ensures
            scroll == self@.scroll,
    {
        self.scroll
    }

    /// How far the text can be scrolled, where it does not fit into the window.
    pub fn scroll_range(&self) -> (range: Option<u16>)
        ensures
            range == if self@.content_height > self@.window_height {
                Some(max_scroll(self@))
            } else {
                None
            },
    {
        if self.content_height > self.window_height {
            Some(self.content_height - self.window_height)
        } else {
            None
        }
    }

    /// Scrolls one line up.
    pub fn up(&mut self)
        ensures
            final(self)@ == (PopUpStateView { scroll: minus(old(self)@.scroll, 1), ..old(self)@ }),
    {
        self.scroll = self.scroll.saturating_sub(1);
    }

    /// Scrolls one line down, as far as there is text.
    pub fn down(&mut self)
        ensures
            final(self)@ == (PopUpStateView {
                scroll: scrolled_down(old(self)@.scroll, 1, max_scroll(old(self)@)),
                ..old(self)@
            }),
    {
        let max_scroll = self.content_height.saturating_sub(self.window_height);
        let next = self.scroll.saturating_add(1);
        self.scroll = if next > max_scroll {
            max_scroll
        } else {
            next
        };
    }

    /// Scrolls one window up.
    pub fn page_up(&mut self)
        ensures
            final(self)@ == (PopUpStateView {
                scroll: minus(old(self)@.scroll, old(self)@.window_height),
                ..old(self)@
            }),
    {
        self.scroll = self.scroll.saturating_sub(self.window_height);
    }

    /// Scrolls one window down, as far as there is text.
    pub fn page_down(&mut self)
        ensures
            final(self)@ == (PopUpStateView {
                scroll: scrolled_down(
                    old(self)@.scroll,
                    old(self)@.window_height,
                    max_scroll(old(self)@),
                ),
                ..old(self)@
            }),
    {
        let max_scroll = self.content_height.saturating_sub(self.window_height);
        let next = self.scroll.saturating_add(self.window_height);
        self.scroll = if next > max_scroll {
            max_scroll
        } else {
            next
        };
    }

    /// Scrolls to the first line.
    pub fn home(&mut self)
        ensures
            final(self)@ == (PopUpStateView { scroll: 0, ..old(self)@ }),
    {
        self.scroll = 0;
    }

    /// Scrolls to the last line.
    pub fn end(&mut self)
        ensures
            final(self)@ == (PopUpStateView { scroll: max_scroll(old(self)@), ..old(self)@ }),
    {
        self.scroll = self.content_height.saturating_sub(self.window_height);
    }
}

} // verus!
