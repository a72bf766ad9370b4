//! The general settings of a configuration.

use crate::merge::{or_else, overlay_or, Mergeable};
use crate::ui::{
    LogsConfig, SortAndFilterUi, SortAndFilterUiView, TableConfig, UiConfig, UiElement,
};
use vstd::prelude::*;

verus! {

/// `indexmap::IndexSet`, a set that keeps its items in the order in which
/// they were put in. Nothing is claimed of it: the library carries such a set
/// through whole and never looks inside one.
#[verifier::external_type_specification]
#[verifier::external_body]
#[verifier::reject_recursive_types(T)]
#[verifier::reject_recursive_types(S)]
pub struct ExIndexSet<T, S>(indexmap::IndexSet<T, S>);

/// A sorter as it is applied: the name of its kind, and whether it runs in
/// reverse.
#[derive(Debug, Clone, PartialEq, Eq, Hash)]
pub struct NodeSorterApplicable {
    pub sorter: String,
    pub reverse: bool,
}

/// The general settings.
#[derive(Debug, Clone, PartialEq, Default)]
pub struct GeneralConfig {
    pub show_hidden: Option<bool>,
    pub read_only: Option<bool>,
    pub cursor: UiElement,
    pub prompt: UiElement,
    pub logs: LogsConfig,
    pub table: TableConfig,
    pub default_ui: UiConfig,
    pub focus_ui: UiConfig,
    pub selection_ui: UiConfig,
    pub sort_and_filter_ui: SortAndFilterUi,
    /// The sorters in force at the start, in their order, none of them twice.
    pub initial_sorting: Option<indexmap::IndexSet<NodeSorterApplicable>>,
}

/// The mathematical model of `GeneralConfig`.
pub struct GeneralConfigView {
    pub show_hidden: Option<bool>,
    pub read_only: Option<bool>,
    pub cursor: UiElement,
    pub prompt: UiElement,
    pub logs: LogsConfig,
    pub table: TableConfig,
    pub default_ui: UiConfig,
    pub focus_ui: UiConfig,
    pub selection_ui: UiConfig,
    pub sort_and_filter_ui: SortAndFilterUiView,
    pub initial_sorting: Option<indexmap::IndexSet<NodeSorterApplicable>>,
}

impl View for GeneralConfig {
    type V = GeneralConfigView;

    open spec fn view(&self) -> GeneralConfigView {
        GeneralConfigView {
            show_hidden: self.show_hidden,
            read_only: self.read_only,
            cursor: self.cursor,
            prompt: self.prompt,
            logs: self.logs,
            table: self.table,
            default_ui: self.default_ui,
            focus_ui: self.focus_ui,
            selection_ui: self.selection_ui,
            sort_and_filter_ui: self.sort_and_filter_ui@,
            initial_sorting: self.initial_sorting,
        }
    }
}

impl GeneralConfig {
    /// Lays `other` onto these settings: each plain setting of `other` wins
    /// where it is made, the initial sorting taken whole; each composite
    /// setting of `other` is laid onto that of `self`.
    pub fn extend(self, other: Self) -> (r: Self)
        ensures
            r@ == Self::merged(self@, other@),
    {
        GeneralConfig {
            show_hidden: overlay_or(other.show_hidden, self.show_hidden),
            read_only: overlay_or(other.read_only, self.read_only),
            cursor: self.cursor.extend(other.cursor),
            prompt: self.prompt.extend(other.prompt),
            logs: self.logs.extend(other.logs),
            table: self.table.extend(other.table),
            default_ui: self.default_ui.extend(other.default_ui),
            focus_ui: self.focus_ui.extend(other.focus_ui),
            selection_ui: self.selection_ui.extend(other.selection_ui),
            sort_and_filter_ui: self.sort_and_filter_ui.extend(other.sort_and_filter_ui),
            initial_sorting: overlay_or(other.initial_sorting, self.initial_sorting),
        }
    }
}

impl Mergeable for GeneralConfig {
    open spec fn merged(base: GeneralConfigView, overlay: GeneralConfigView) -> GeneralConfigView {
        GeneralConfigView {
            show_hidden: or_else(overlay.show_hidden, base.show_hidden),
            read_only: or_else(overlay.read_only, base.read_only),
            cursor: UiElement::merged(base.cursor, overlay.cursor),
            prompt: UiElement::merged(base.prompt, overlay.prompt),
            logs: LogsConfig::merged(base.logs, overlay.logs),
            table: TableConfig::merged(base.table, overlay.table),
            default_ui: UiConfig::merged(base.default_ui, overlay.default_ui),
            focus_ui: UiConfig::merged(base.focus_ui, overlay.focus_ui),
            selection_ui: UiConfig::merged(base.selection_ui, overlay.selection_ui),
            sort_and_filter_ui: SortAndFilterUi::merged(
                base.sort_and_filter_ui,
                overlay.sort_and_filter_ui,
            ),
            initial_sorting: or_else(overlay.initial_sorting, base.initial_sorting),
        }
    }

    proof fn lemma_merged_same(v: GeneralConfigView) {
        SortAndFilterUi::lemma_merged_same(v.sort_and_filter_ui);
    }

    fn merge(self, overlay: Self) -> (r: Self) {
        self.extend(overlay)
    }
}

/// The plain settings, and the initial sorting taken whole, are the
/// overlay's wherever the overlay makes them, and the base's otherwise.
pub proof fn lemma_general_is_right_biased(base: GeneralConfigView, overlay: GeneralConfigView)
    ensures
        overlay.show_hidden is Some ==> GeneralConfig::merged(base, overlay).show_hidden == overlay.show_hidden,
        overlay.show_hidden is None ==> GeneralConfig::merged(base, overlay).show_hidden == base.show_hidden,
        overlay.read_only is Some ==> GeneralConfig::merged(base, overlay).read_only == overlay.read_only,
        overlay.read_only is None ==> GeneralConfig::merged(base, overlay).read_only == base.read_only,
        overlay.initial_sorting is Some ==> GeneralConfig::merged(base, overlay).initial_sorting == overlay.initial_sorting,
        overlay.initial_sorting is None ==> GeneralConfig::merged(base, overlay).initial_sorting == base.initial_sorting,
{
}

} // verus!
