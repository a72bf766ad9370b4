//! The modes of a configuration: the built-in ones, each in its own slot, and
//! those that the user adds by name.

use crate::merge::Mergeable;
use crate::mode::{Mode, ModeView};
use crate::ordered_map::{lemma_merged_maps_same, merged_maps, OrderedMap};
use crate::text::same_text;
use vstd::prelude::*;

verus! {

/// The built-in modes.
#[derive(Debug, Clone, Copy, PartialEq, Eq)]
pub enum BuiltinMode {
    Default,
    SelectionOps,
    Create,
    CreateDirectory,
    CreateFile,
    Number,
    GoTo,
    Rename,
    Delete,
    Action,
    Search,
    Filter,
    RelativePathDoesContain,
    RelativePathDoesNotContain,
    Sort,
}

/// The built-in mode that a name stands for. Names of several words are
/// understood with spaces and with underscores between the words.
pub open spec fn builtin_of(name: Seq<char>) -> Option<BuiltinMode> {
    if name == "default"@ {
        Some(BuiltinMode::Default)
    } else if name == "selection ops"@ {
        Some(BuiltinMode::SelectionOps)
    } else if name == "selection_ops"@ {
        Some(BuiltinMode::SelectionOps)
    } else if name == "create"@ {
        Some(BuiltinMode::Create)
    } else if name == "create file"@ {
        Some(BuiltinMode::CreateFile)
    } else if name == "create_file"@ {
        Some(BuiltinMode::CreateFile)
    } else if name == "create directory"@ {
        Some(BuiltinMode::CreateDirectory)
    } else if name == "create_directory"@ {
        Some(BuiltinMode::CreateDirectory)
    } else if name == "number"@ {
        Some(BuiltinMode::Number)
    } else if name == "go to"@ {
        Some(BuiltinMode::GoTo)
    } else if name == "go_to"@ {
        Some(BuiltinMode::GoTo)
    } else if name == "rename"@ {
        Some(BuiltinMode::Rename)
    } else if name == "delete"@ {
        Some(BuiltinMode::Delete)
    } else if name == "action"@ {
        Some(BuiltinMode::Action)
    } else if name == "search"@ {
        Some(BuiltinMode::Search)
    } else if name == "sort"@ {
        Some(BuiltinMode::Sort)
    } else if name == "filter"@ {
        Some(BuiltinMode::Filter)
    } else if name == "relative_path_does_contain"@ {
        Some(BuiltinMode::RelativePathDoesContain)
    } else if name == "relative path does contain"@ {
        Some(BuiltinMode::RelativePathDoesContain)
    } else if name == "relative_path_does_not_contain"@ {
        Some(BuiltinMode::RelativePathDoesNotContain)
    } else if name == "relative path does not contain"@ {
        Some(BuiltinMode::RelativePathDoesNotContain)
    } else {
        None
    }
}

/// The built-in mode that a name stands for, if any.
pub fn builtin_named(name: &str) -> (r: Option<BuiltinMode>)
    ensures
        r == builtin_of(name@),
{
    if same_text(name, "default") {
        Some(BuiltinMode::Default)
    } else if same_text(name, "selection ops") {
        Some(BuiltinMode::SelectionOps)
    } else if same_text(name, "selection_ops") {
        Some(BuiltinMode::SelectionOps)
    } else if same_text(name, "create") {
        Some(BuiltinMode::Create)
    } else if same_text(name, "create file") {
        Some(BuiltinMode::CreateFile)
    } else if same_text(name, "create_file") {
        Some(BuiltinMode::CreateFile)
    } else if same_text(name, "create directory") {
        Some(BuiltinMode::CreateDirectory)
    } else if same_text(name, "create_directory") {
        Some(BuiltinMode::CreateDirectory)
    } else if same_text(name, "number") {
        Some(BuiltinMode::Number)
    } else if same_text(name, "go to") {
        Some(BuiltinMode::GoTo)
    } else if same_text(name, "go_to") {
        Some(BuiltinMode::GoTo)
    } else if same_text(name, "rename") {
        Some(BuiltinMode::Rename)
    } else if same_text(name, "delete") {
        Some(BuiltinMode::Delete)
    } else if same_text(name, "action") {
        Some(BuiltinMode::Action)
    } else if same_text(name, "search") {
        Some(BuiltinMode::Search)
    } else if same_text(name, "sort") {
        Some(BuiltinMode::Sort)
    } else if same_text(name, "filter") {
        Some(BuiltinMode::Filter)
    } else if same_text(name, "relative_path_does_contain") {
        Some(BuiltinMode::RelativePathDoesContain)
    } else if same_text(name, "relative path does contain") {
        Some(BuiltinMode::RelativePathDoesContain)
    } else if same_text(name, "relative_path_does_not_contain") {
        Some(BuiltinMode::RelativePathDoesNotContain)
    } else if same_text(name, "relative path does not contain") {
        Some(BuiltinMode::RelativePathDoesNotContain)
    } else {
        None
    }
}

/// The built-in modes, each in its slot.
#[derive(Debug, Clone, PartialEq, Eq, Default)]
pub struct BuiltinModesConfig {
    pub default: Mode,
    pub selection_ops: Mode,
    pub create: Mode,
    pub create_directory: Mode,
    pub create_file: Mode,
    pub number: Mode,
    pub go_to: Mode,
    pub rename: Mode,
    pub delete: Mode,
    pub action: Mode,
    pub search: Mode,
    pub filter: Mode,
    pub relative_path_does_contain: Mode,
    pub relative_path_does_not_contain: Mode,
    pub sort: Mode,
}

/// The mathematical model of `BuiltinModesConfig`.
pub struct BuiltinModesConfigView {
    pub default: ModeView,
    pub selection_ops: ModeView,
    pub create: ModeView,
    pub create_directory: ModeView,
    pub create_file: ModeView,
    pub number: ModeView,
    pub go_to: ModeView,
    pub rename: ModeView,
    pub delete: ModeView,
    pub action: ModeView,
    pub search: ModeView,
    pub filter: ModeView,
    pub relative_path_does_contain: ModeView,
    pub relative_path_does_not_contain: ModeView,
    pub sort: ModeView,
}

impl View for BuiltinModesConfig {
    type V = BuiltinModesConfigView;

    open spec fn view(&self) -> BuiltinModesConfigView {
        BuiltinModesConfigView {
            default: self.default@,
            selection_ops: self.selection_ops@,
            create: self.create@,
            create_directory: self.create_directory@,
            create_file: self.create_file@,
            number: self.number@,
            go_to: self.go_to@,
            rename: self.rename@,
            delete: self.delete@,
            action: self.action@,
            search: self.search@,
            filter: self.filter@,
            relative_path_does_contain: self.relative_path_does_contain@,
            relative_path_does_not_contain: self.relative_path_does_not_contain@,
            sort: self.sort@,
        }
    }
}

impl BuiltinModesConfig {
    /// The mode in the slot of a built-in mode.
    pub open spec fn slot(&self, which: BuiltinMode) -> Mode {
        match which {
            BuiltinMode::Default => self.default,
            BuiltinMode::SelectionOps => self.selection_ops,
            BuiltinMode::Create => self.create,
            BuiltinMode::CreateDirectory => self.create_directory,
            BuiltinMode::CreateFile => self.create_file,
            BuiltinMode::Number => self.number,
            BuiltinMode::GoTo => self.go_to,
            BuiltinMode::Rename => self.rename,
            BuiltinMode::Delete => self.delete,
            BuiltinMode::Action => self.action,
            BuiltinMode::Search => self.search,
            BuiltinMode::Filter => self.filter,
            BuiltinMode::RelativePathDoesContain => self.relative_path_does_contain,
            BuiltinMode::RelativePathDoesNotContain => self.relative_path_does_not_contain,
            BuiltinMode::Sort => self.sort,
        }
    }

    /// The built-in mode that a name stands for, if any.
    pub open spec fn lookup(&self, name: Seq<char>) -> Option<Mode> {
        match builtin_of(name) {
            Some(which) => Some(self.slot(which)),
            None => None,
        }
    }

    /// The mode in the slot of a built-in mode.
    pub fn mode(&self, which: BuiltinMode) -> (r: &Mode)
        ensures
            *r == self.slot(which),
    {
        match which {
            BuiltinMode::Default => &self.default,
            BuiltinMode::SelectionOps => &self.selection_ops,
            BuiltinMode::Create => &self.create,
            BuiltinMode::CreateDirectory => &self.create_directory,
            BuiltinMode::CreateFile => &self.create_file,
            BuiltinMode::Number => &self.number,
            BuiltinMode::GoTo => &self.go_to,
            BuiltinMode::Rename => &self.rename,
            BuiltinMode::Delete => &self.delete,
            BuiltinMode::Action => &self.action,
            BuiltinMode::Search => &self.search,
            BuiltinMode::Filter => &self.filter,
            BuiltinMode::RelativePathDoesContain => &self.relative_path_does_contain,
            BuiltinMode::RelativePathDoesNotContain => &self.relative_path_does_not_contain,
            BuiltinMode::Sort => &self.sort,
        }
    }

    /// The built-in mode that a name stands for, if any.
    pub fn get(&self, name: &str) -> (r: Option<&Mode>)
        ensures
            r == match self.lookup(name@) {
                Some(mode) => Some(&mode),
                None => None,
            },
    {
        match builtin_named(name) {
            Some(which) => Some(self.mode(which)),
            None => None,
        }
    }

    /// Lays `other` onto these modes, slot by slot.
    pub fn extend(self, other: Self) -> (r: Self)
        ensures
            r@ == Self::merged(self@, other@),
    {
        BuiltinModesConfig {
            default: self.default.extend(other.default),
            selection_ops: self.selection_ops.extend(other.selection_ops),
            create: self.create.extend(other.create),
            create_directory: self.create_directory.extend(other.create_directory),
            create_file: self.create_file.extend(other.create_file),
            number: self.number.extend(other.number),
            go_to: self.go_to.extend(other.go_to),
            rename: self.rename.extend(other.rename),
            delete: self.delete.extend(other.delete),
            action: self.action.extend(other.action),
            search: self.search.extend(other.search),
            filter: self.filter.extend(other.filter),
            relative_path_does_contain: self.relative_path_does_contain.extend(other.relative_path_does_contain),
            relative_path_does_not_contain: self.relative_path_does_not_contain.extend(other.relative_path_does_not_contain),
            sort: self.sort.extend(other.sort),
        }
    }
}

impl Mergeable for BuiltinModesConfig {
    open spec fn merged(
        base: BuiltinModesConfigView,
        overlay: BuiltinModesConfigView,
    ) -> BuiltinModesConfigView {
        BuiltinModesConfigView {
            default: Mode::merged(base.default, overlay.default),
            selection_ops: Mode::merged(base.selection_ops, overlay.selection_ops),
            create: Mode::merged(base.create, overlay.create),
            create_directory: Mode::merged(base.create_directory, overlay.create_directory),
            create_file: Mode::merged(base.create_file, overlay.create_file),
            number: Mode::merged(base.number, overlay.number),
            go_to: Mode::merged(base.go_to, overlay.go_to),
            rename: Mode::merged(base.rename, overlay.rename),
            delete: Mode::merged(base.delete, overlay.delete),
            action: Mode::merged(base.action, overlay.action),
            search: Mode::merged(base.search, overlay.search),
            filter: Mode::merged(base.filter, overlay.filter),
            relative_path_does_contain: Mode::merged(base.relative_path_does_contain, overlay.relative_path_does_contain),
            relative_path_does_not_contain: Mode::merged(base.relative_path_does_not_contain, overlay.relative_path_does_not_contain),
            sort: Mode::merged(base.sort, overlay.sort),
        }
    }

    proof fn lemma_merged_same(v: BuiltinModesConfigView) {
        Mode::lemma_merged_same(v.default);
        Mode::lemma_merged_same(v.selection_ops);
        Mode::lemma_merged_same(v.create);
        Mode::lemma_merged_same(v.create_directory);
        Mode::lemma_merged_same(v.create_file);
        Mode::lemma_merged_same(v.number);
        Mode::lemma_merged_same(v.go_to);
        Mode::lemma_merged_same(v.rename);
        Mode::lemma_merged_same(v.delete);
        Mode::lemma_merged_same(v.action);
        Mode::lemma_merged_same(v.search);
        Mode::lemma_merged_same(v.filter);
        Mode::lemma_merged_same(v.relative_path_does_contain);
        Mode::lemma_merged_same(v.relative_path_does_not_contain);
        Mode::lemma_merged_same(v.sort);
    }

    fn merge(self, overlay: Self) -> (r: Self) {
        self.extend(overlay)
    }
}

/// The modes of a configuration.
#[derive(Debug, Clone, PartialEq, Eq, Default)]
pub struct ModesConfig {
    pub builtin: BuiltinModesConfig,
    /// The modes that the user adds, by name.
    pub custom: OrderedMap<Mode>,
}

/// The mathematical model of `ModesConfig`.
pub struct ModesConfigView {
    pub builtin: BuiltinModesConfigView,
    pub custom: Map<Seq<char>, ModeView>,
}

impl View for ModesConfig {
    type V = ModesConfigView;

    open spec fn view(&self) -> ModesConfigView {
        ModesConfigView { builtin: self.builtin@, custom: self.custom@ }
    }
}

impl ModesConfig {
    /// The mode that a name stands for: the built-in mode of that name, or
    /// else the custom mode entered under exactly that name.
    pub open spec fn lookup(&self, name: Seq<char>) -> Option<Mode> {
        match self.builtin.lookup(name) {
            Some(mode) => Some(mode),
            None => self.custom.model().get(name),
        }
    }

    /// The mode that a name stands for, if any.
    pub fn get(&self, name: &str) -> (r: Option<&Mode>)
        ensures
            r == match self.lookup(name@) {
                Some(mode) => Some(&mode),
                None => None,
            },
    {
        match self.builtin.get(name) {
            Some(mode) => Some(mode),
            None => self.custom.get(name),
        }
    }

    /// Lays `other` onto these modes: the built-in modes slot by slot, the
    /// custom modes name by name.
    pub fn extend(self, other: Self) -> (r: Self)
        ensures
            r@ == Self::merged(self@, other@),
    {
        ModesConfig {
            builtin: self.builtin.extend(other.builtin),
            custom: self.custom.extend(other.custom),
        }
    }
}

impl Mergeable for ModesConfig {
    open spec fn merged(base: ModesConfigView, overlay: ModesConfigView) -> ModesConfigView {
        ModesConfigView {
            builtin: BuiltinModesConfig::merged(base.builtin, overlay.builtin),
            custom: merged_maps::<Mode>(base.custom, overlay.custom),
        }
    }

    proof fn lemma_merged_same(v: ModesConfigView) {
        BuiltinModesConfig::lemma_merged_same(v.builtin);
        lemma_merged_maps_same::<Mode>(v.custom);
    }

    fn merge(self, overlay: Self) -> (r: Self) {
        self.extend(overlay)
    }
}

/// A name that stands for a built-in mode resolves to that mode, whatever the
/// custom modes hold under the name.
pub proof fn lemma_builtin_shadows_custom(modes: ModesConfig, name: Seq<char>)
    requires
        builtin_of(name) is Some,
    ensures
        modes.lookup(name) == Some(modes.builtin.slot(builtin_of(name)->0)),
{
}

/// The name `default` resolves to the built-in default mode, whatever the
/// custom modes hold.
pub proof fn lemma_default_is_builtin(modes: ModesConfig)
    ensures
        modes.lookup("default"@) == Some(modes.builtin.default),
{
}

/// The names of several words stand for the same built-in mode whether
/// written with spaces or with underscores.
pub proof fn lemma_spellings_agree()
    ensures
        builtin_of("selection ops"@) == Some(BuiltinMode::SelectionOps),
        builtin_of("selection_ops"@) == Some(BuiltinMode::SelectionOps),
        builtin_of("create file"@) == Some(BuiltinMode::CreateFile),
        builtin_of("create_file"@) == Some(BuiltinMode::CreateFile),
        builtin_of("create directory"@) == Some(BuiltinMode::CreateDirectory),
        builtin_of("create_directory"@) == Some(BuiltinMode::CreateDirectory),
        builtin_of("go to"@) == Some(BuiltinMode::GoTo),
        builtin_of("go_to"@) == Some(BuiltinMode::GoTo),
        builtin_of("relative path does contain"@) == Some(BuiltinMode::RelativePathDoesContain),
        builtin_of("relative_path_does_contain"@) == Some(BuiltinMode::RelativePathDoesContain),
        builtin_of("relative path does not contain"@) == Some(
            BuiltinMode::RelativePathDoesNotContain,
        ),
        builtin_of("relative_path_does_not_contain"@) == Some(
            BuiltinMode::RelativePathDoesNotContain,
        ),
{
    reveal_strlit("default");
    assert("default"@.len() == 7);
    reveal_strlit("selection ops");
    assert("selection ops"@.len() == 13);
    reveal_strlit("selection_ops");
    assert("selection_ops"@.len() == 13);
    reveal_strlit("create");
    assert("create"@.len() == 6);
    reveal_strlit("create file");
    assert("create file"@.len() == 11);
    reveal_strlit("create_file");
    assert("create_file"@.len() == 11);
    reveal_strlit("create directory");
    assert("create directory"@.len() == 16);
    reveal_strlit("create_directory");
    assert("create_directory"@.len() == 16);
    reveal_strlit("number");
    assert("number"@.len() == 6);
    reveal_strlit("go to");
    assert("go to"@.len() == 5);
    reveal_strlit("go_to");
    assert("go_to"@.len() == 5);
    reveal_strlit("rename");
    assert("rename"@.len() == 6);
    reveal_strlit("delete");
    assert("delete"@.len() == 6);
    reveal_strlit("action");
    assert("action"@.len() == 6);
    reveal_strlit("search");
    assert("search"@.len() == 6);
    reveal_strlit("sort");
    assert("sort"@.len() == 4);
    reveal_strlit("filter");
    assert("filter"@.len() == 6);
    reveal_strlit("relative_path_does_contain");
    assert("relative_path_does_contain"@.len() == 26);
    reveal_strlit("relative path does contain");
    assert("relative path does contain"@.len() == 26);
    reveal_strlit("relative_path_does_not_contain");
    assert("relative_path_does_not_contain"@.len() == 30);
    reveal_strlit("relative path does not contain");
    assert("relative path does not contain"@.len() == 30);
    assert("selection ops"@[9] == ' ' && "selection_ops"@[9] == '_');
    assert("create file"@[6] == ' ' && "create_file"@[6] == '_');
    assert("create directory"@[6] == ' ' && "create_directory"@[6] == '_');
    assert("go to"@[2] == ' ' && "go_to"@[2] == '_');
    assert("relative path does contain"@[8] == ' ' && "relative_path_does_contain"@[8] == '_');
    assert("relative path does not contain"@[8] == ' ' && "relative_path_does_not_contain"@[8] == '_');
}

} // verus!
