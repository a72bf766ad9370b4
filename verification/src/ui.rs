//! How the parts of the interface look.

use crate::merge::{or_else, overlay_or, Mergeable};
use crate::ordered_map::{lemma_merged_maps_same, merged_maps, OrderedMap};
use crate::style::Style;
use tui::layout::Constraint as TuiConstraint;
use vstd::prelude::*;

verus! {

/// `tui::layout::Constraint`, the constraint on the size of a cell as the
/// layout engine takes it. It is declared with its variants, which are
/// `Percentage(u16)`, `Ratio(u32, u32)`, `Length(u16)`, `Max(u16)` and
/// `Min(u16)`; no more is claimed of it.
#[verifier::external_type_specification]
pub struct ExTuiConstraint(TuiConstraint);

/// A piece of the interface: what it shows and in which style.
#[derive(Debug, Clone, PartialEq, Default)]
pub struct UiElement {
    pub format: Option<String>,
    pub style: Style,
}

impl View for UiElement {
    type V = UiElement;

    open spec fn view(&self) -> UiElement {
        *self
    }
}

impl UiElement {
    /// Lays `other` onto this element: its format wins where it has one, and
    /// its style is laid onto the style of `self`.
    pub fn extend(self, other: Self) -> (r: Self)
        ensures
            r == Self::merged(self, other),
    {
        UiElement {
            format: overlay_or(other.format, self.format),
            style: self.style.extend(other.style),
        }
    }
}

impl Mergeable for UiElement {
    open spec fn merged(base: UiElement, overlay: UiElement) -> UiElement {
        UiElement {
            format: or_else(overlay.format, base.format),
            style: Style::merged(base.style, overlay.style),
        }
    }

    proof fn lemma_merged_same(v: UiElement) {
    }

    fn merge(self, overlay: Self) -> (r: Self) {
        self.extend(overlay)
    }
}

/// What surrounds a node of a kind, and its style.
#[derive(Debug, Clone, PartialEq, Default)]
pub struct UiConfig {
    pub prefix: Option<String>,
    pub suffix: Option<String>,
    pub style: Style,
}

impl View for UiConfig {
    type V = UiConfig;

    open spec fn view(&self) -> UiConfig {
        *self
    }
}

impl UiConfig {
    /// Lays `other` onto this configuration: its prefix and suffix win where
    /// it has them, and its style is laid onto the style of `self`.
    pub fn extend(self, other: Self) -> (r: Self)
        ensures
            r == Self::merged(self, other),
    {
        UiConfig {
            prefix: overlay_or(other.prefix, self.prefix),
            suffix: overlay_or(other.suffix, self.suffix),
            style: self.style.extend(other.style),
        }
    }
}

impl Mergeable for UiConfig {
    open spec fn merged(base: UiConfig, overlay: UiConfig) -> UiConfig {
        UiConfig {
            prefix: or_else(overlay.prefix, base.prefix),
            suffix: or_else(overlay.suffix, base.suffix),
            style: Style::merged(base.style, overlay.style),
        }
    }

    proof fn lemma_merged_same(v: UiConfig) {
    }

    fn merge(self, overlay: Self) -> (r: Self) {
        self.extend(overlay)
    }
}

/// A row of the table.
#[derive(Debug, Clone, PartialEq, Default)]
pub struct TableRowConfig {
    pub cols: Option<Vec<UiElement>>,
    pub style: Style,
    pub height: Option<u16>,
}

impl View for TableRowConfig {
    type V = TableRowConfig;

    open spec fn view(&self) -> TableRowConfig {
        *self
    }
}

impl TableRowConfig {
    /// Lays `other` onto this row: its columns, taken whole, and its height
    /// win where it has them, and its style is laid onto the style of `self`.
    pub fn extend(self, other: Self) -> (r: Self)
        ensures
            r == Self::merged(self, other),
    {
        TableRowConfig {
            cols: overlay_or(other.cols, self.cols),
            style: self.style.extend(other.style),
            height: overlay_or(other.height, self.height),
        }
    }
}

impl Mergeable for TableRowConfig {
    open spec fn merged(base: TableRowConfig, overlay: TableRowConfig) -> TableRowConfig {
        TableRowConfig {
            cols: or_else(overlay.cols, base.cols),
            style: Style::merged(base.style, overlay.style),
            height: or_else(overlay.height, base.height),
        }
    }

    proof fn lemma_merged_same(v: TableRowConfig) {
    }

    fn merge(self, overlay: Self) -> (r: Self) {
        self.extend(overlay)
    }
}

/// How wide a column of the table may be.
#[derive(Debug, Clone, Copy, PartialEq, Eq)]
pub enum Constraint {
    Percentage(u16),
    Ratio(u32, u32),
    Length(u16),
    Max(u16),
    Min(u16),
}

impl Default for Constraint {
    /// At least one cell wide.
    fn default() -> (r: Self)
        ensures
            r == Constraint::Min(1),
    {
        Constraint::Min(1)
    }
}

impl Constraint {
    /// The same constraint, as the layout engine writes it.
    pub open spec fn layout(self) -> TuiConstraint {
        match self {
            Constraint::Percentage(n) => TuiConstraint::Percentage(n),
            Constraint::Ratio(x, y) => TuiConstraint::Ratio(x, y),
            Constraint::Length(n) => TuiConstraint::Length(n),
            Constraint::Max(n) => TuiConstraint::Max(n),
            Constraint::Min(n) => TuiConstraint::Min(n),
        }
    }

    /// Hands the constraint to the layout engine.
    pub fn into_layout(self) -> (r: TuiConstraint)
        ensures
            r == self.layout(),
    {
        match self {
            Constraint::Percentage(n) => TuiConstraint::Percentage(n),
            Constraint::Ratio(x, y) => TuiConstraint::Ratio(x, y),
            Constraint::Length(n) => TuiConstraint::Length(n),
            Constraint::Max(n) => TuiConstraint::Max(n),
            Constraint::Min(n) => TuiConstraint::Min(n),
        }
    }
}

/// The table of nodes.
#[derive(Debug, Clone, PartialEq, Default)]
pub struct TableConfig {
    pub header: TableRowConfig,
    pub row: TableRowConfig,
    pub style: Style,
    /// The glyphs that draw the branches of the tree.
    pub tree: Option<(UiElement, UiElement, UiElement)>,
    pub col_spacing: Option<u16>,
    pub col_widths: Option<Vec<Constraint>>,
}

impl View for TableConfig {
    type V = TableConfig;

    open spec fn view(&self) -> TableConfig {
        *self
    }
}

impl TableConfig {
    /// Lays `other` onto this table: header, row and style are laid onto
    /// those of `self`; the tree glyphs, the column spacing and the column
    /// widths of `other`, each taken whole, win where it has them.
    pub fn extend(self, other: Self) -> (r: Self)
        ensures
            r == Self::merged(self, other),
    {
        TableConfig {
            header: self.header.extend(other.header),
            row: self.row.extend(other.row),
            style: self.style.extend(other.style),
            tree: overlay_or(other.tree, self.tree),
            col_spacing: overlay_or(other.col_spacing, self.col_spacing),
            col_widths: overlay_or(other.col_widths, self.col_widths),
        }
    }
}

impl Mergeable for TableConfig {
    open spec fn merged(base: TableConfig, overlay: TableConfig) -> TableConfig {
        TableConfig {
            header: TableRowConfig::merged(base.header, overlay.header),
            row: TableRowConfig::merged(base.row, overlay.row),
            style: Style::merged(base.style, overlay.style),
            tree: or_else(overlay.tree, base.tree),
            col_spacing: or_else(overlay.col_spacing, base.col_spacing),
            col_widths: or_else(overlay.col_widths, base.col_widths),
        }
    }

    proof fn lemma_merged_same(v: TableConfig) {
    }

    fn merge(self, overlay: Self) -> (r: Self) {
        self.extend(overlay)
    }
}

/// How each kind of log entry looks.
#[derive(Debug, Clone, PartialEq, Default)]
pub struct LogsConfig {
    pub info: UiElement,
    pub success: UiElement,
    pub error: UiElement,
}

impl View for LogsConfig {
    type V = LogsConfig;

    open spec fn view(&self) -> LogsConfig {
        *self
    }
}

impl LogsConfig {
    /// Lays `other` onto this configuration, kind by kind.
    pub fn extend(self, other: Self) -> (r: Self)
        ensures
            r == Self::merged(self, other),
    {
        LogsConfig {
            info: self.info.extend(other.info),
            success: self.success.extend(other.success),
            error: self.error.extend(other.error),
        }
    }
}

impl Mergeable for LogsConfig {
    open spec fn merged(base: LogsConfig, overlay: LogsConfig) -> LogsConfig {
        LogsConfig {
            info: UiElement::merged(base.info, overlay.info),
            success: UiElement::merged(base.success, overlay.success),
            error: UiElement::merged(base.error, overlay.error),
        }
    }

    proof fn lemma_merged_same(v: LogsConfig) {
    }

    fn merge(self, overlay: Self) -> (r: Self) {
        self.extend(overlay)
    }
}

/// How the two directions of a sort are marked.
#[derive(Debug, Clone, PartialEq, Default)]
pub struct SortDirectionIdentifiersUi {
    pub forward: UiElement,
    pub reverse: UiElement,
}

impl View for SortDirectionIdentifiersUi {
    type V = SortDirectionIdentifiersUi;

    open spec fn view(&self) -> SortDirectionIdentifiersUi {
        *self
    }
}

impl SortDirectionIdentifiersUi {
    /// Lays `other` onto these marks, direction by direction.
    pub fn extend(self, other: Self) -> (r: Self)
        ensures
            r == Self::merged(self, other),
    {
        SortDirectionIdentifiersUi {
            forward: self.forward.extend(other.forward),
            reverse: self.reverse.extend(other.reverse),
        }
    }
}

impl Mergeable for SortDirectionIdentifiersUi {
    open spec fn merged(
        base: SortDirectionIdentifiersUi,
        overlay: SortDirectionIdentifiersUi,
    ) -> SortDirectionIdentifiersUi {
        SortDirectionIdentifiersUi {
            forward: UiElement::merged(base.forward, overlay.forward),
            reverse: UiElement::merged(base.reverse, overlay.reverse),
        }
    }

    proof fn lemma_merged_same(v: SortDirectionIdentifiersUi) {
    }

    fn merge(self, overlay: Self) -> (r: Self) {
        self.extend(overlay)
    }
}

/// How the sorters and filters in force are shown.
#[derive(Debug, Clone, PartialEq, Default)]
pub struct SortAndFilterUi {
    pub separator: UiElement,
    pub sort_direction_identifiers: SortDirectionIdentifiersUi,
    /// The mark of each kind of sorter, by the name of the kind.
    pub sorter_identifiers: OrderedMap<UiElement>,
    /// The mark of each kind of filter, by the name of the kind.
    pub filter_identifiers: OrderedMap<UiElement>,
}

/// The mathematical model of `SortAndFilterUi`.
pub struct SortAndFilterUiView {
    pub separator: UiElement,
    pub sort_direction_identifiers: SortDirectionIdentifiersUi,
    pub sorter_identifiers: Map<Seq<char>, UiElement>,
    pub filter_identifiers: Map<Seq<char>, UiElement>,
}

impl View for SortAndFilterUi {
    type V = SortAndFilterUiView;

    open spec fn view(&self) -> SortAndFilterUiView {
        SortAndFilterUiView {
            separator: self.separator,
            sort_direction_identifiers: self.sort_direction_identifiers,
            sorter_identifiers: self.sorter_identifiers@,
            filter_identifiers: self.filter_identifiers@,
        }
    }
}

impl SortAndFilterUi {
    /// Lays `other` onto this configuration: the separator and the direction
    /// marks are laid onto those of `self`, and the marks of sorters and of
    /// filters are united, kind by kind.
    pub fn extend(self, other: Self) -> (r: Self)
        ensures
            r@ == Self::merged(self@, other@),
    {
        SortAndFilterUi {
            separator: self.separator.extend(other.separator),
            sort_direction_identifiers: self.sort_direction_identifiers.extend(
                other.sort_direction_identifiers,
            ),
            sorter_identifiers: self.sorter_identifiers.extend(other.sorter_identifiers),
            filter_identifiers: self.filter_identifiers.extend(other.filter_identifiers),
        }
    }
}

impl Mergeable for SortAndFilterUi {
    open spec fn merged(
        base: SortAndFilterUiView,
        overlay: SortAndFilterUiView,
    ) -> SortAndFilterUiView {
        SortAndFilterUiView {
            separator: UiElement::merged(base.separator, overlay.separator),
            sort_direction_identifiers: SortDirectionIdentifiersUi::merged(
                base.sort_direction_identifiers,
                overlay.sort_direction_identifiers,
            ),
            sorter_identifiers: merged_maps::<UiElement>(
                base.sorter_identifiers,
                overlay.sorter_identifiers,
            ),
            filter_identifiers: merged_maps::<UiElement>(
                base.filter_identifiers,
                overlay.filter_identifiers,
            ),
        }
    }

    proof fn lemma_merged_same(v: SortAndFilterUiView) {
        lemma_merged_maps_same::<UiElement>(v.sorter_identifiers);
        lemma_merged_maps_same::<UiElement>(v.filter_identifiers);
    }

    fn merge(self, overlay: Self) -> (r: Self) {
        self.extend(overlay)
    }
}

/// The format of an element is the overlay's wherever the overlay has one,
/// and the base's otherwise.
pub proof fn lemma_ui_element_is_right_biased(base: UiElement, overlay: UiElement)
    ensures
        overlay.format is Some ==> UiElement::merged(base, overlay).format == overlay.format,
        overlay.format is None ==> UiElement::merged(base, overlay).format == base.format,
{
}

/// Prefix and suffix are the overlay's wherever the overlay has them, and
/// the base's otherwise.
pub proof fn lemma_ui_config_is_right_biased(base: UiConfig, overlay: UiConfig)
    ensures
        overlay.prefix is Some ==> UiConfig::merged(base, overlay).prefix == overlay.prefix,
        overlay.prefix is None ==> UiConfig::merged(base, overlay).prefix == base.prefix,
        overlay.suffix is Some ==> UiConfig::merged(base, overlay).suffix == overlay.suffix,
        overlay.suffix is None ==> UiConfig::merged(base, overlay).suffix == base.suffix,
{
}

/// The columns, taken whole, and the height of a row are the overlay's
/// wherever the overlay has them, and the base's otherwise.
pub proof fn lemma_table_row_is_right_biased(base: TableRowConfig, overlay: TableRowConfig)
    ensures
        overlay.cols is Some ==> TableRowConfig::merged(base, overlay).cols == overlay.cols,
        overlay.cols is None ==> TableRowConfig::merged(base, overlay).cols == base.cols,
        overlay.height is Some ==> TableRowConfig::merged(base, overlay).height == overlay.height,
        overlay.height is None ==> TableRowConfig::merged(base, overlay).height == base.height,
{
}

/// The tree glyphs, the column spacing and the column widths of a table,
/// each taken whole, are the overlay's wherever the overlay has them, and the
/// base's otherwise.
pub proof fn lemma_table_is_right_biased(base: TableConfig, overlay: TableConfig)
    ensures
        overlay.tree is Some ==> TableConfig::merged(base, overlay).tree == overlay.tree,
        overlay.tree is None ==> TableConfig::merged(base, overlay).tree == base.tree,
        overlay.col_spacing is Some ==> TableConfig::merged(base, overlay).col_spacing == overlay.col_spacing,
        overlay.col_spacing is None ==> TableConfig::merged(base, overlay).col_spacing == base.col_spacing,
        overlay.col_widths is Some ==> TableConfig::merged(base, overlay).col_widths == overlay.col_widths,
        overlay.col_widths is None ==> TableConfig::merged(base, overlay).col_widths == base.col_widths,
{
}

} // verus!
