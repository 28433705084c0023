//! The settings of the viewer.
//!
//! Numbers with a fraction are held in thousandths: a scroll speed of 20 is
//! 20000, a minimal scale of 0.2 is 200.

use crate::viewer::clamp;
use vstd::prelude::*;

verus! {

/// What a key can be bound to.
#[derive(Clone, Copy, Debug, PartialEq, Eq, Structural)]
pub enum ConfigAction {
    ToggleAlpha,
    ToggleInverse,
    CenterViewer,
    MoveUp,
    MoveDown,
    MoveLeft,
    MoveRight,
    ZoomIn,
    ZoomOut,
    JumpFirstPage,
    JumpLastPage,
    PrevPage,
    NextPage,
    Quit,
}

/// The bar that shows where a link leads.
#[derive(Debug)]
pub struct ConfigViewerUriHint {
    pub enabled: bool,
    /// Name of the background colour.
    pub background: String,
    /// Name of the colour of the text.
    pub foreground: String,
    /// Share of the terminal's width that the bar takes, in thousandths.
    pub width: i64,
}

/// The settings of the viewport and its images.
#[derive(Debug)]
pub struct ConfigViewer {
    pub scroll_speed: i64,
    pub render_precision: i64,
    pub memory_limit: usize,
    pub scale_min: i64,
    pub scale_amount: i64,
    pub margin_bottom: i64,
    pub pages_preloaded: usize,
    pub inverse_scroll: bool,
    pub uri_hint: ConfigViewerUriHint,
}

/// A key sequence and the action bound to it.
#[derive(Debug)]
pub struct Binding {
    pub keys: String,
    pub action: ConfigAction,
}

/// All settings.
#[derive(Debug)]
pub struct Config {
    pub viewer: ConfigViewer,
    pub bindings: Option<Vec<Binding>>,
}

/// What is wrong with a configuration, the first fault in this order.
#[derive(Clone, Copy, Debug, PartialEq, Eq, Structural)]
pub enum ConfigError {
    /// `viewer.render_precision` is zero or below, or beyond 32 bits.
    RenderPrecision,
    /// `viewer.scale_min` is zero or below, or beyond 32 bits.
    ScaleMin,
    /// `viewer.margin_bottom` is below zero, or beyond 32 bits.
    MarginBottom,
    /// No key is bound.
    Bindings,
}

/// The first fault of a configuration, if it has one.
pub open spec fn fault_of(config: Config) -> Option<ConfigError> {
    if !(0 < config.viewer.render_precision <= u32::MAX) {
        Some(ConfigError::RenderPrecision)
    } else if !(0 < config.viewer.scale_min <= u32::MAX) {
        Some(ConfigError::ScaleMin)
    } else if !(0 <= config.viewer.margin_bottom <= u32::MAX) {
        Some(ConfigError::MarginBottom)
    } else if config.bindings is None {
        Some(ConfigError::Bindings)
    } else {
        None
    }
}

/// Checks what a configuration has to meet: a render precision and a minimal
/// scale above zero, a bottom margin that is not negative, and bindings.
pub fn validate(config: &Config) -> (res: Result<(), ConfigError>)
    ensures
        fault_of(*config) matches Some(e) ==> res == Err::<(), ConfigError>(e),
        fault_of(*config) is None ==> res == Ok::<(), ConfigError>(()),
{
    if config.viewer.render_precision <= 0 || config.viewer.render_precision > u32::MAX as i64 {
        return Err(ConfigError::RenderPrecision);
    }
    if config.viewer.scale_min <= 0 || config.viewer.scale_min > u32::MAX as i64 {
        return Err(ConfigError::ScaleMin);
    }
    if config.viewer.margin_bottom < 0 || config.viewer.margin_bottom > u32::MAX as i64 {
        return Err(ConfigError::MarginBottom);
    }
    if config.bindings.is_none() {
        return Err(ConfigError::Bindings);
    }
    Ok(())
}

/// The border every image needs so that it can be placed at any pixel at
/// any scale from the minimal one up: the larger side of a cell, in bitmap
/// pixels at the minimal scale, rounded up and kept within `usize`.
pub open spec fn padding_of(
    width: int,
    height: int,
    columns: int,
    rows: int,
    render_precision: int,
    scale_min: int,
) -> int {
    let across = (width * render_precision + columns * scale_min - 1) / (columns * scale_min);
    let down = (height * render_precision + rows * scale_min - 1) / (rows * scale_min);
    clamp(if across > down {
        across
    } else {
        down
    }, 0, usize::MAX as int)
}

/// Computes the border of the images from the size of the terminal: `None`
/// when the terminal has no cells or the minimal scale is zero.
pub fn image_padding(
    width: u16,
    height: u16,
    columns: u16,
    rows: u16,
    render_precision: u32,
    scale_min: u32,
) -> (padding: Option<usize>)
    ensures
        padding is Some <==> columns > 0 && rows > 0 && scale_min > 0,
        padding matches Some(p) ==> p == padding_of(
            width as int,
            height as int,
            columns as int,
            rows as int,
            render_precision as int,
            scale_min as int,
        ),
{
    if columns == 0 || rows == 0 || scale_min == 0 {
        return None;
    }
    let across = cell_padding(width, columns, render_precision, scale_min);
    let down = cell_padding(height, rows, render_precision, scale_min);
    let larger = if across > down {
        across
    } else {
        down
    };
    if larger > usize::MAX as u64 {
        Some(usize::MAX)
    } else {
        Some(larger as usize)
    }
}

/// One side of a cell in bitmap pixels at the minimal scale, rounded up.
fn cell_padding(extent: u16, cells: u16, render_precision: u32, scale_min: u32) -> (padding: u64)
    requires
        cells > 0,
        scale_min > 0,
    ensures
        padding == (extent * render_precision + cells * scale_min - 1) / (cells * scale_min),
{
    assert(0 <= extent * render_precision <= 0xFFFF * 0xFFFF_FFFF && 0 < cells * scale_min
        <= 0xFFFF * 0xFFFF_FFFF) by (nonlinear_arith)
        requires
            0 <= extent <= 0xFFFF,
            0 <= render_precision <= 0xFFFF_FFFF,
            0 < cells <= 0xFFFF,
            0 < scale_min <= 0xFFFF_FFFF,
    ;
    let top: u64 = (extent as u64) * (render_precision as u64);
    let unit: u64 = (cells as u64) * (scale_min as u64);
    let q: u64 = (top + unit - 1) / unit;
    assert(q <= top) by (nonlinear_arith)
        requires
            q == (top + unit - 1) / (unit as int),
            unit >= 1,
            top >= 0,
    ;
    q
}

/// The border computed from the size of the terminal is at least one cell
/// of the smallest scale wide, along both axes, unless it had to be cut down
/// to fit in `usize`.
pub proof fn lemma_padding_covers_a_cell(
    width: int,
    height: int,
    columns: int,
    rows: int,
    render_precision: int,
    scale_min: int,
)
    requires
        0 <= width,
        0 <= height,
        0 < columns,
        0 < rows,
        0 <= render_precision,
        0 < scale_min,
        padding_of(width, height, columns, rows, render_precision, scale_min) < usize::MAX,
    ensures
        padding_of(width, height, columns, rows, render_precision, scale_min) * (columns
            * scale_min) >= width * render_precision,
        padding_of(width, height, columns, rows, render_precision, scale_min) * (rows
            * scale_min) >= height * render_precision,
{
    let p = padding_of(width, height, columns, rows, render_precision, scale_min);
    lemma_rounded_up_covers(width * render_precision, columns * scale_min, p);
    lemma_rounded_up_covers(height * render_precision, rows * scale_min, p);
    assert(width * render_precision >= 0 && height * render_precision >= 0 && columns * scale_min
        > 0 && rows * scale_min > 0) by (nonlinear_arith)
        requires
            0 <= width,
            0 <= height,
            0 < columns,
            0 < rows,
            0 <= render_precision,
            0 < scale_min,
    ;
}

/// A number that is at least a quotient rounded up, times the divisor, is at
/// least the dividend.
proof fn lemma_rounded_up_covers(a: int, b: int, p: int)
    ensures
        a >= 0 && b > 0 && p >= (a + b - 1) / b ==> p * b >= a,
{
    if a >= 0 && b > 0 && p >= (a + b - 1) / b {
        let q = (a + b - 1) / b;
        vstd::arithmetic::div_mod::lemma_fundamental_div_mod(a + b - 1, b);
        vstd::arithmetic::div_mod::lemma_mod_bound(a + b - 1, b);
        assert(b * q >= a);
        assert(p * b >= q * b) by (nonlinear_arith)
            requires
                p >= q,
                b > 0,
        ;
        assert(q * b == b * q) by (nonlinear_arith);
    }
}

} // verus!
