//! How images are shown in a terminal: which protocol the terminal speaks
//! and how large an image may be.
//!
//! Reading the environment and drawing are the caller's part. What was
//! found there comes in as a `TerminalProbe`; what is to be drawn goes out
//! as a `RenderPlan`.

use vstd::prelude::*;
use crate::cell::is_word;
use crate::model::opt_text;
use crate::text::chars_of;

verus! {

/// The widest that an image is drawn, in columns.
pub const MAX_RENDER_WIDTH: u32 = 80;

/// The highest that an image is drawn, in rows.
pub const MAX_RENDER_HEIGHT: u32 = 24;

/// The width that is taken for a terminal whose size is not known.
pub const DEFAULT_TERMINAL_WIDTH: u32 = 80;

/// The height that is taken for a terminal whose size is not known.
pub const DEFAULT_TERMINAL_HEIGHT: u32 = 24;

/// What a terminal can do with an image.
#[derive(Debug, Clone, Copy, PartialEq, Eq, Structural)]
pub enum TerminalImageSupport {
    /// The graphics protocol of Kitty.
    Kitty,
    /// The graphics protocol of iTerm2.
    ITerm2,
    /// Sixel graphics.
    Sixel,
    /// Half blocks of Unicode.
    HalfBlocks,
    /// A description in words only.
    TextOnly,
}

/// What was found out about the terminal.
#[derive(Debug, Clone)]
pub struct TerminalProbe {
    /// The value of the variable `TERM_PROGRAM`, if it is set.
    pub term_program: Option<String>,
    /// Whether the terminal speaks the protocol of iTerm2.
    pub iterm_supported: bool,
    /// The value of the variable `TERM`, if it is set.
    pub term: Option<String>,
    /// Columns and rows of the terminal, if they could be read.
    pub size: Option<(u16, u16)>,
}

/// The view of a `TerminalProbe`: every string as the sequence of its characters.
pub struct TerminalProbeModel {
    pub term_program: Option<Seq<char>>,
    pub iterm_supported: bool,
    pub term: Option<Seq<char>>,
    pub size: Option<(u16, u16)>,
}

impl View for TerminalProbe {
    type V = TerminalProbeModel;

    open spec fn view(&self) -> TerminalProbeModel {
        TerminalProbeModel {
            term_program: opt_text(self.term_program),
            iterm_supported: self.iterm_supported,
            term: opt_text(self.term),
            size: self.size,
        }
    }
}

/// What the terminal can do. A terminal program `WezTerm` comes first and
/// speaks Kitty's protocol; then comes the protocol of iTerm2; then the
/// terminal type: `xterm-kitty` and `wezterm` speak Kitty's protocol, and
/// everything else gets half blocks.
pub open spec fn detected_support(probe: TerminalProbeModel) -> TerminalImageSupport {
    if probe.term_program == Some("WezTerm"@) {
        TerminalImageSupport::Kitty
    } else if probe.iterm_supported {
        TerminalImageSupport::ITerm2
    } else if probe.term == Some("xterm-kitty"@) || probe.term == Some("wezterm"@) {
        TerminalImageSupport::Kitty
    } else {
        TerminalImageSupport::HalfBlocks
    }
}

/// Columns and rows of the terminal, and 80 by 24 where they are not
/// known.
pub open spec fn terminal_size(size: Option<(u16, u16)>) -> (u32, u32) {
    match size {
        Some((width, height)) => (width as u32, height as u32),
        None => (DEFAULT_TERMINAL_WIDTH, DEFAULT_TERMINAL_HEIGHT),
    }
}

/// The protocol that an image is drawn with.
#[derive(Debug, Clone, Copy, PartialEq, Eq, Structural)]
pub enum ImageProtocol {
    Kitty,
    ITerm,
    /// Whatever the drawing routine picks by itself.
    Automatic,
}

/// What is to be done for one image.
#[derive(Debug, Clone, Copy, PartialEq, Eq, Structural)]
pub enum RenderPlan {
    /// Print the description and draw nothing.
    DescriptionOnly,
    /// Draw the image, no larger than `width` by `height`.
    Inline { width: u32, height: u32, protocol: ImageProtocol },
}

/// Shows images in a terminal.
#[derive(Debug)]
pub struct TerminalImageRenderer {
    support: TerminalImageSupport,
    max_width: u32,
    max_height: u32,
}

/// The smaller of two numbers.
pub open spec fn min_of(a: u32, b: u32) -> u32 {
    if a <= b {
        a
    } else {
        b
    }
}

/// What is done for an image under the given support and limits: with no
/// support the description alone; else the image, held to 80 columns and
/// 24 rows, in the protocol that the support names.
pub open spec fn plan_for(support: TerminalImageSupport, max_width: u32, max_height: u32) -> RenderPlan {
    match support {
        TerminalImageSupport::TextOnly => RenderPlan::DescriptionOnly,
        _ => RenderPlan::Inline {
            width: min_of(max_width, MAX_RENDER_WIDTH),
            height: min_of(max_height, MAX_RENDER_HEIGHT),
            protocol: match support {
                TerminalImageSupport::Kitty => ImageProtocol::Kitty,
                TerminalImageSupport::ITerm2 => ImageProtocol::ITerm,
                _ => ImageProtocol::Automatic,
            },
        },
    }
}

fn option_is(value: &Option<String>, word: &str) -> (r: bool)
    ensures
        r == (opt_text(*value) == Some(word@)),
{
    match value {
        Some(v) => {
            let cs = chars_of(v.as_str());
            is_word(cs.as_slice(), word)
        },
        None => false,
    }
}

fn size_or_default(size: Option<(u16, u16)>) -> (r: (u32, u32))
    ensures
        r == terminal_size(size),
{
    match size {
        Some((width, height)) => (width as u32, height as u32),
        None => (DEFAULT_TERMINAL_WIDTH, DEFAULT_TERMINAL_HEIGHT),
    }
}

impl TerminalImageRenderer {
    /// What the terminal can do with an image.
    pub closed spec fn spec_support(&self) -> TerminalImageSupport {
        self.support
    }

    /// The widest that an image may be, in columns.
    pub closed spec fn spec_max_width(&self) -> u32 {
        self.max_width
    }

    /// The highest that an image may be, in rows.
    pub closed spec fn spec_max_height(&self) -> u32 {
        self.max_height
    }

    /// A renderer for the terminal that was probed: with the support that
    /// was detected and the size of the terminal as limits.
    pub fn new(probe: &TerminalProbe) -> (r: Self)
        ensures
            r.spec_support() == detected_support(probe@),
            (r.spec_max_width(), r.spec_max_height()) == terminal_size(probe.size),
    {
        let support = Self::detect_capabilities(probe);
        let (max_width, max_height) = size_or_default(probe.size);
        TerminalImageRenderer { support, max_width, max_height }
    }

    /// A renderer for the terminal that was probed, with limits of its
    /// own; a limit that is not given is the size of the terminal.
    pub fn with_size_limits(probe: &TerminalProbe, max_width: Option<u32>, max_height: Option<
        u32,
    >) -> (r: Self)
        ensures
            r.spec_support() == detected_support(probe@),
            r.spec_max_width() == match max_width {
                Some(w) => w,
                None => terminal_size(probe.size).0,
            },
            r.spec_max_height() == match max_height {
                Some(h) => h,
                None => terminal_size(probe.size).1,
            },
    {
        let support = Self::detect_capabilities(probe);
        let (default_width, default_height) = size_or_default(probe.size);
        TerminalImageRenderer {
            support,
            max_width: match max_width {
                Some(w) => w,
                None => default_width,
            },
            max_height: match max_height {
                Some(h) => h,
                None => default_height,
            },
        }
    }

    /// A renderer with the given support, and the size of the terminal as
    /// limits.
    pub fn with_support(support: TerminalImageSupport, size: Option<(u16, u16)>) -> (r: Self)
        ensures
            r.spec_support() == support,
            (r.spec_max_width(), r.spec_max_height()) == terminal_size(size),
    {
        let (max_width, max_height) = size_or_default(size);
        TerminalImageRenderer { support, max_width, max_height }
    }

    /// What the terminal that was probed can do with an image.
    pub fn detect_capabilities(probe: &TerminalProbe) -> (r: TerminalImageSupport)
        ensures
            r == detected_support(probe@),
    {
        if option_is(&probe.term_program, "WezTerm") {
            TerminalImageSupport::Kitty
        } else if probe.iterm_supported {
            TerminalImageSupport::ITerm2
        } else if option_is(&probe.term, "xterm-kitty") || option_is(&probe.term, "wezterm") {
            TerminalImageSupport::Kitty
        } else {
            TerminalImageSupport::HalfBlocks
        }
    }

    /// What the terminal can do with an image.
    pub fn support(&self) -> (r: TerminalImageSupport)
        ensures
            r == self.spec_support(),
    {
        self.support
    }

    /// The widest that an image may be, in columns.
    pub fn max_width(&self) -> (r: u32)
        ensures
            r == self.spec_max_width(),
    {
        self.max_width
    }

    /// The highest that an image may be, in rows.
    pub fn max_height(&self) -> (r: u32)
        ensures
            r == self.spec_max_height(),
    {
        self.max_height
    }

    /// Whether images can be drawn at all.
    pub fn can_display_images(&self) -> (r: bool)
        ensures
            r == (self.spec_support() != TerminalImageSupport::TextOnly),
    {
        match self.support {
            TerminalImageSupport::TextOnly => false,
            _ => true,
        }
    }

    /// What is to be done for one image.
    pub fn render_plan(&self) -> (plan: RenderPlan)
        ensures
            plan == plan_for(self.spec_support(), self.spec_max_width(), self.spec_max_height()),
    {
        match self.support {
            TerminalImageSupport::TextOnly => RenderPlan::DescriptionOnly,
            _ => {
                let width = if self.max_width <= MAX_RENDER_WIDTH {
                    self.max_width
                } else {
                    MAX_RENDER_WIDTH
                };
                let height = if self.max_height <= MAX_RENDER_HEIGHT {
                    self.max_height
                } else {
                    MAX_RENDER_HEIGHT
                };
                let protocol = match self.support {
                    TerminalImageSupport::Kitty => ImageProtocol::Kitty,
                    TerminalImageSupport::ITerm2 => ImageProtocol::ITerm,
                    _ => ImageProtocol::Automatic,
                };
                RenderPlan::Inline { width, height, protocol }
            },
        }
    }
}

} // verus!
