//! How nodes of each type look.

use crate::merge::Mergeable;
use crate::ordered_map::{lemma_merged_maps_same, merged_maps, OrderedMap};
use crate::style::Style;
use vstd::prelude::*;

verus! {

/// How the nodes of one type look.
#[derive(Debug, Clone, PartialEq, Default)]
pub struct NodeTypeConfig {
    pub style: Style,
    /// Free-form text attached to the type, by name.
    pub meta: OrderedMap<String>,
}

/// The mathematical model of `NodeTypeConfig`.
pub struct NodeTypeConfigView {
    pub style: Style,
    pub meta: Map<Seq<char>, Seq<char>>,
}

impl View for NodeTypeConfig {
    type V = NodeTypeConfigView;

    open spec fn view(&self) -> NodeTypeConfigView {
        NodeTypeConfigView { style: self.style, meta: self.meta@ }
    }
}

impl NodeTypeConfig {
    /// Lays `other` onto this configuration: its style is laid onto the style
    /// of `self`, and the attached texts are united, those of `other` winning.
    pub fn extend(self, other: Self) -> (r: Self)
        ensures
            r@ == Self::merged(self@, other@),
    {
        NodeTypeConfig { style: self.style.extend(other.style), meta: self.meta.extend(other.meta) }
    }
}

impl Mergeable for NodeTypeConfig {
    open spec fn merged(base: NodeTypeConfigView, overlay: NodeTypeConfigView) -> NodeTypeConfigView {
        NodeTypeConfigView {
            style: Style::merged(base.style, overlay.style),
            meta: merged_maps::<String>(base.meta, overlay.meta),
        }
    }

    proof fn lemma_merged_same(v: NodeTypeConfigView) {
        lemma_merged_maps_same::<String>(v.meta);
    }

    fn merge(self, overlay: Self) -> (r: Self) {
        self.extend(overlay)
    }
}

/// How nodes look, by what they are.
#[derive(Debug, Clone, PartialEq, Default)]
pub struct NodeTypesConfig {
    pub directory: NodeTypeConfig,
    pub file: NodeTypeConfig,
    pub symlink: NodeTypeConfig,
    /// By the essence of the mime type.
    pub mime_essence: OrderedMap<NodeTypeConfig>,
    /// By the extension of the file name.
    pub extension: OrderedMap<NodeTypeConfig>,
    /// By the file name.
    pub special: OrderedMap<NodeTypeConfig>,
}

/// The mathematical model of `NodeTypesConfig`.
pub struct NodeTypesConfigView {
    pub directory: NodeTypeConfigView,
    pub file: NodeTypeConfigView,
    pub symlink: NodeTypeConfigView,
    pub mime_essence: Map<Seq<char>, NodeTypeConfigView>,
    pub extension: Map<Seq<char>, NodeTypeConfigView>,
    pub special: Map<Seq<char>, NodeTypeConfigView>,
}

impl View for NodeTypesConfig {
    type V = NodeTypesConfigView;

    open spec fn view(&self) -> NodeTypesConfigView {
        NodeTypesConfigView {
            directory: self.directory@,
            file: self.file@,
            symlink: self.symlink@,
            mime_essence: self.mime_essence@,
            extension: self.extension@,
            special: self.special@,
        }
    }
}

impl NodeTypesConfig {
    /// Lays `other` onto this configuration: directories, files and symlinks
    /// each onto their own, and the three tables united entry by entry.
    pub fn extend(self, other: Self) -> (r: Self)
        ensures
            r@ == Self::merged(self@, other@),
    {
        NodeTypesConfig {
            directory: self.directory.extend(other.directory),
            file: self.file.extend(other.file),
            symlink: self.symlink.extend(other.symlink),
            mime_essence: self.mime_essence.extend(other.mime_essence),
            extension: self.extension.extend(other.extension),
            special: self.special.extend(other.special),
        }
    }
}

impl Mergeable for NodeTypesConfig {
    open spec fn merged(
        base: NodeTypesConfigView,
        overlay: NodeTypesConfigView,
    ) -> NodeTypesConfigView {
        NodeTypesConfigView {
            directory: NodeTypeConfig::merged(base.directory, overlay.directory),
            file: NodeTypeConfig::merged(base.file, overlay.file),
            symlink: NodeTypeConfig::merged(base.symlink, overlay.symlink),
            mime_essence: merged_maps::<NodeTypeConfig>(base.mime_essence, overlay.mime_essence),
            extension: merged_maps::<NodeTypeConfig>(base.extension, overlay.extension),
            special: merged_maps::<NodeTypeConfig>(base.special, overlay.special),
        }
    }

    proof fn lemma_merged_same(v: NodeTypesConfigView) {
        NodeTypeConfig::lemma_merged_same(v.directory);
        NodeTypeConfig::lemma_merged_same(v.file);
        NodeTypeConfig::lemma_merged_same(v.symlink);
        lemma_merged_maps_same::<NodeTypeConfig>(v.mime_essence);
        lemma_merged_maps_same::<NodeTypeConfig>(v.extension);
        lemma_merged_maps_same::<NodeTypeConfig>(v.special);
    }

    fn merge(self, overlay: Self) -> (r: Self) {
        self.extend(overlay)
    }
}

} // verus!
