//! Chart configuration types the engine stores and returns but never
//! interprets.  Numeric chart data itself is a rendering concern and stays
//! with the boundary layer; these are the plain configuration records.

use vstd::prelude::*;

verus! {

/// Chart type enumeration.
#[derive(Clone, Copy, Debug, PartialEq, Eq, Structural)]
pub enum ChartType {
    Bar,
    Line,
    Pie,
    Doughnut,
    Scatter,
    Bubble,
    Histogram,
    Area,
    Timeline,
    Radar,
    Polar,
    Treemap,
    Sunburst,
    Choropleth,
}

/// Color value (single or array for gradients).
#[derive(Clone, Debug)]
pub enum ColorValue {
    Single(String),
    Multiple(Vec<String>),
}

/// Legend position.
#[derive(Clone, Copy, Debug, PartialEq, Eq, Structural)]
pub enum LegendPosition {
    Top,
    Bottom,
    Left,
    Right,
}

impl Default for LegendPosition {
    /// Legends sit on top unless configured otherwise.
    fn default() -> (r: Self)
        ensures
            r == LegendPosition::Top,
    {
        LegendPosition::Top
    }
}

/// Choropleth configuration.
#[derive(Clone, Debug)]
pub struct ChoroplethConfig {
    /// GeoJSON URL or inline data.
    pub geo_data: GeoSource,
    /// Property to match region IDs.
    pub region_property: String,
    /// Color scale.
    pub color_scale: ColorScale,
}

/// GeoJSON source.
#[derive(Clone, Debug)]
pub enum GeoSource {
    Url { url: String },
    Inline { geojson: String },
}

/// Color scale for choropleth.
#[derive(Clone, Debug)]
pub struct ColorScale {
    /// Minimum color.
    pub min_color: String,
    /// Maximum color.
    pub max_color: String,
    /// Number of steps.
    pub steps: u32,
}

/// Export configuration.
#[derive(Clone, Debug)]
pub struct ExportConfig {
    /// Export format.
    pub format: ExportFormat,
    /// Width in pixels.
    pub width: Option<u32>,
    /// Height in pixels.
    pub height: Option<u32>,
    /// Background color (default: transparent for SVG).
    pub background: Option<String>,
}

/// Export format.
#[derive(Clone, Copy, Debug, PartialEq, Eq, Structural)]
pub enum ExportFormat {
    Png,
    Svg,
}

/// Export request.
#[derive(Clone, Debug)]
pub struct ChartExportRequest {
    /// Chart ID to export.
    pub chart_id: String,
    /// Export configuration.
    pub config: ExportConfig,
}

/// Export result.
#[derive(Clone, Debug)]
pub struct ExportResult {
    /// Data URL (base64 for PNG, SVG text for SVG).
    pub data_url: String,
    /// MIME type.
    pub mime_type: String,
}

} // verus!
