//! Where things go on the screen, in whole points.
use vstd::prelude::*;

use crate::chart::{between, larger, smaller};
use crate::i18n::Language;

verus! {

/// How much the toolbar spells out.
#[derive(Debug, Clone, Copy, PartialEq, Eq, Structural)]
pub enum ToolbarDensity {
    Full,
    Compact,
    Narrow,
}

/// How much the toolbar of a window spells out.
pub fn toolbar_density(width: i32) -> (density: ToolbarDensity)
    ensures
        density == (if width < 1120 {
            ToolbarDensity::Narrow
        } else if width < 1360 {
            ToolbarDensity::Compact
        } else {
            ToolbarDensity::Full
        }),
{
    if width < 1120 {
        ToolbarDensity::Narrow
    } else if width < 1360 {
        ToolbarDensity::Compact
    } else {
        ToolbarDensity::Full
    }
}

/// Whether the monitor page is laid out compactly. What counts is the space
/// that the toolbars leave.
pub fn uses_compact_monitor_layout(width: i32, height: i32) -> (compact: bool)
    ensures
        compact == (width < 1240 || height < 620),
{
    width < 1240 || height < 620
}

/// Whether the header is laid out compactly.
pub fn uses_compact_header(width: i32) -> (compact: bool)
    ensures
        compact == (width < 1240),
{
    width < 1240
}

/// How wide the rail with the instruments is.
pub fn rail_width(compact: bool, language: Language) -> (width: i32)
    ensures
        width == (match (compact, language) {
            (true, Language::English) => 252int,
            (true, Language::SimplifiedChinese) => 238,
            (false, Language::English) => 292,
            (false, Language::SimplifiedChinese) => 282,
        }),
{
    match (compact, language) {
        (true, Language::English) => 252,
        (true, Language::SimplifiedChinese) => 238,
        (false, Language::English) => 292,
        (false, Language::SimplifiedChinese) => 282,
    }
}

/// How high the navigator below the chart is.
pub fn navigator_height(compact: bool) -> (height: i32)
    ensures
        height == (if compact {
            62int
        } else {
            76
        }),
{
    if compact {
        62
    } else {
        76
    }
}

/// How high the chart is.
pub open spec fn chart_space(available: int, compact: bool, banner: bool) -> int {
    larger(
        available - (if compact {
            62int
        } else {
            76
        }) - (if banner {
            44int
        } else {
            0
        }) - (if compact {
            208int
        } else {
            220
        }),
        240,
    )
}

/// `a - b`, as far as it can be told.
fn less(a: i32, b: i32) -> (result: i32)
    requires
        0 <= b,
    ensures
        result == larger(a - b, i32::MIN as int),
{
    if a < i32::MIN + b {
        i32::MIN
    } else {
        a - b
    }
}

/// How high the chart is, given the space below the toolbars and whether a
/// banner names the recording.
pub fn chart_height(available: i32, compact: bool, banner: bool) -> (height: i32)
    ensures
        height == chart_space(available as int, compact, banner),
{
    let navigator: i32 = navigator_height(compact);
    let names: i32 = if banner {
        44
    } else {
        0
    };
    let rest: i32 = if compact {
        208
    } else {
        220
    };
    let height: i32 = less(available, navigator + names + rest);
    if height < 240 {
        240
    } else {
        height
    }
}

/// How many points of a line are drawn on `width` points of the screen.
pub fn drawn_points(width: i32) -> (count: usize)
    ensures
        count == 2 * larger(width as int, 320),
{
    if width < 320 {
        640
    } else {
        2 * width as usize
    }
}

// -- The settings window --

/// The space round the settings window.
pub const VIEWPORT_MARGIN: i32 = 48;

pub const MIN_WINDOW_WIDTH: i32 = 820;

pub const MAX_WINDOW_WIDTH: i32 = 900;

pub const MIN_WINDOW_HEIGHT: i32 = 560;

pub const MAX_WINDOW_HEIGHT: i32 = 700;

pub const NAVIGATION_WIDTH: i32 = 184;

pub const COLUMN_GAP: i32 = 12;

pub const FOOTER_HEIGHT: i32 = 44;

pub const WINDOW_HORIZONTAL_CHROME: i32 = 24;

pub const WINDOW_VERTICAL_CHROME: i32 = 44;

pub const PAGE_HEADER_HEIGHT: i32 = 62;

/// The measures of the settings window.
#[derive(Debug, Clone, Copy, PartialEq, Eq, Structural)]
pub struct SettingsLayoutMetrics {
    pub window_width: i32,
    pub window_height: i32,
    pub navigation_width: i32,
    pub column_gap: i32,
    pub content_width: i32,
    pub scroll_height: i32,
    pub footer_height: i32,
}

/// How long a side of the settings window is: between two limits, and no
/// longer than `available` allows.
pub open spec fn window_side(available: int, shortest: int, longest: int) -> int {
    smaller(
        between(available - VIEWPORT_MARGIN, shortest, longest),
        larger(available - 24, 0),
    )
}

/// How long a side of the settings window is.
fn side(available: i32, shortest: i32, longest: i32) -> (length: i32)
    requires
        0 <= shortest <= longest,
    ensures
        length == window_side(available as int, shortest as int, longest as int),
        0 <= length <= longest,
{
    let inner: i32 = less(available, 24);
    let most: i32 = if inner < 0 {
        0
    } else {
        inner
    };
    let wanted: i32 = less(available, VIEWPORT_MARGIN);
    let length: i32 = if wanted < shortest {
        shortest
    } else if wanted > longest {
        longest
    } else {
        wanted
    };
    if length <= most {
        length
    } else {
        most
    }
}

impl SettingsLayoutMetrics {
    /// The measures for a window with so much space.
    pub open spec fn measured(width: int, height: int) -> SettingsLayoutMetrics {
        let window_width = window_side(width, MIN_WINDOW_WIDTH as int, MAX_WINDOW_WIDTH as int);
        let window_height = window_side(height, MIN_WINDOW_HEIGHT as int, MAX_WINDOW_HEIGHT as int);
        SettingsLayoutMetrics {
            window_width: window_width as i32,
            window_height: window_height as i32,
            navigation_width: NAVIGATION_WIDTH,
            column_gap: COLUMN_GAP,
            content_width: larger(
                window_width - WINDOW_HORIZONTAL_CHROME - NAVIGATION_WIDTH - COLUMN_GAP,
                0,
            ) as i32,
            scroll_height: larger(
                larger(window_height - WINDOW_VERTICAL_CHROME, 0) - PAGE_HEADER_HEIGHT
                    - FOOTER_HEIGHT,
                0,
            ) as i32,
            footer_height: FOOTER_HEIGHT,
        }
    }

    /// The measures for a window with so much space.
    pub fn for_content_rect(width: i32, height: i32) -> (metrics: SettingsLayoutMetrics)
        ensures
            metrics == SettingsLayoutMetrics::measured(width as int, height as int),
    {
        let window_width: i32 = side(width, MIN_WINDOW_WIDTH, MAX_WINDOW_WIDTH);
        let window_height: i32 = side(height, MIN_WINDOW_HEIGHT, MAX_WINDOW_HEIGHT);
        let content: i32 = window_width - WINDOW_HORIZONTAL_CHROME - NAVIGATION_WIDTH - COLUMN_GAP;
        let inner: i32 = window_height - WINDOW_VERTICAL_CHROME;
        let body: i32 = if inner < 0 {
            0
        } else {
            inner
        };
        let scroll: i32 = body - PAGE_HEADER_HEIGHT - FOOTER_HEIGHT;
        SettingsLayoutMetrics {
            window_width,
            window_height,
            navigation_width: NAVIGATION_WIDTH,
            column_gap: COLUMN_GAP,
            content_width: if content < 0 {
                0
            } else {
                content
            },
            scroll_height: if scroll < 0 {
                0
            } else {
                scroll
            },
            footer_height: FOOTER_HEIGHT,
        }
    }
}

/// How wide the labels of a settings form are.
pub const SETTINGS_FORM_LABEL_WIDTH: i32 = 148;

/// How wide the controls of a settings form are.
pub fn settings_control_width(available_width: i32) -> (width: i32)
    ensures
        width == between(available_width - SETTINGS_FORM_LABEL_WIDTH - 12, 180, 360),
{
    let width: i32 = less(available_width, SETTINGS_FORM_LABEL_WIDTH + 12);
    if width < 180 {
        180
    } else if width > 360 {
        360
    } else {
        width
    }
}

pub const RECOVERABLE_FILE_BUTTON_WIDTH: i32 = 72;

pub const RECOVERABLE_FILE_COLUMN_GAP: i32 = 10;

pub const RECOVERABLE_SESSION_CONTINUE_WIDTH: i32 = 100;

pub const RECOVERABLE_SESSION_SECONDARY_WIDTH: i32 = 64;

pub const RECOVERABLE_SESSION_ACTION_GAP: i32 = 8;

/// The columns of a file that can be recovered: its name and its button.
pub fn recoverable_file_columns(available_width: i32) -> (columns: (i32, i32))
    ensures
        columns.0 == larger(
            available_width - RECOVERABLE_FILE_BUTTON_WIDTH - RECOVERABLE_FILE_COLUMN_GAP,
            120,
        ),
        columns.1 == RECOVERABLE_FILE_BUTTON_WIDTH,
{
    let name: i32 = less(
        available_width,
        RECOVERABLE_FILE_BUTTON_WIDTH + RECOVERABLE_FILE_COLUMN_GAP,
    );
    (
        if name < 120 {
            120
        } else {
            name
        },
        RECOVERABLE_FILE_BUTTON_WIDTH,
    )
}

/// The columns of a session that can be recovered: what it is, and its three
/// buttons.
pub fn recoverable_session_columns(available_width: i32) -> (columns: (i32, i32))
    ensures
        columns.1 == RECOVERABLE_SESSION_CONTINUE_WIDTH + RECOVERABLE_SESSION_SECONDARY_WIDTH * 2
            + RECOVERABLE_SESSION_ACTION_GAP * 2,
        columns.0 == larger(available_width - columns.1 - 12, 160),
{
    let actions: i32 = RECOVERABLE_SESSION_CONTINUE_WIDTH + RECOVERABLE_SESSION_SECONDARY_WIDTH * 2
        + RECOVERABLE_SESSION_ACTION_GAP * 2;
    let detail: i32 = less(available_width, actions + 12);
    (
        if detail < 160 {
            160
        } else {
            detail
        },
        actions,
    )
}

/// The settings window lies inside the space that there is, and its columns
/// and its footer lie inside the window.
pub proof fn law_settings_stay_in_bounds(width: int, height: int)
    requires
        width <= i32::MAX,
        height <= i32::MAX,
    ensures
        ({
            let metrics = SettingsLayoutMetrics::measured(width, height);
            &&& width >= 24 ==> metrics.window_width <= width - 24
            &&& height >= 24 ==> metrics.window_height <= height - 24
            &&& metrics.window_width <= MAX_WINDOW_WIDTH
            &&& metrics.window_height <= MAX_WINDOW_HEIGHT
            &&& metrics.content_width > 0 ==> metrics.navigation_width + metrics.column_gap
                + metrics.content_width + WINDOW_HORIZONTAL_CHROME == metrics.window_width
            &&& metrics.scroll_height > 0 ==> metrics.scroll_height + metrics.footer_height
                + PAGE_HEADER_HEIGHT + WINDOW_VERTICAL_CHROME == metrics.window_height
        }),
{
}

} // verus!
