//! A mode: a named set of key bindings with its help text.

use crate::action::Action;
use crate::key_bindings::{KeyBindings, KeyBindingsView};
use crate::merge::{or_else, overlay_or, Mergeable};
use crate::text::{lines, lines_of, texts};
use vstd::prelude::*;

verus! {

/// One line of a help menu.
#[derive(Debug, Clone, PartialEq, Eq)]
pub enum HelpMenuLine {
    /// A key label and what the key does.
    KeyMap(String, String),
    /// A line of plain text.
    Paragraph(String),
}

/// The mathematical model of `HelpMenuLine`.
pub enum HelpLine {
    KeyMap(Seq<char>, Seq<char>),
    Paragraph(Seq<char>),
}

impl View for HelpMenuLine {
    type V = HelpLine;

    open spec fn view(&self) -> HelpLine {
        match self {
            HelpMenuLine::KeyMap(key, help) => HelpLine::KeyMap(key@, help@),
            HelpMenuLine::Paragraph(text) => HelpLine::Paragraph(text@),
        }
    }
}

/// The models of a sequence of help lines.
pub open spec fn help_lines_of(menu: Seq<HelpMenuLine>) -> Seq<HelpLine> {
    Seq::new(menu.len(), |i: int| menu[i]@)
}

/// One paragraph line for each line of text.
pub open spec fn paragraphs(lines: Seq<Seq<char>>) -> Seq<HelpLine> {
    Seq::new(lines.len(), |i: int| HelpLine::Paragraph(lines[i]))
}

/// The line of a binding under a label: one key-map line where the binding
/// exists and has a help text, else none.
pub open spec fn binding_line(label: Seq<char>, binding: Option<Action>) -> Seq<HelpLine> {
    match binding {
        Some(action) => match action.help {
            Some(help) => seq![HelpLine::KeyMap(label, help@)],
            None => Seq::empty(),
        },
        None => Seq::empty(),
    }
}

/// The lines of the key bindings, in the order of the keys: one for each key
/// that no remap leads to and whose action has a help text.
pub open spec fn key_lines(
    keys: Seq<Seq<char>>,
    actions: Seq<Action>,
    remaps: Map<Seq<char>, Seq<char>>,
) -> Seq<HelpLine>
    decreases keys.len(),
{
    if keys.len() == 0 || actions.len() != keys.len() {
        Seq::empty()
    } else {
        key_lines(keys.drop_last(), actions.drop_last(), remaps) + if remaps.contains_value(
            keys.last(),
        ) {
            Seq::empty()
        } else {
            binding_line(keys.last(), Some(actions.last()))
        }
    }
}

/// A mode: a name, help texts and key bindings.
#[derive(Debug, Clone, PartialEq, Eq, Default)]
pub struct Mode {
    pub name: String,
    /// The whole help menu, where the mode spells it out.
    pub help: Option<String>,
    /// Lines that precede the help menu derived from the bindings.
    pub extra_help: Option<String>,
    pub key_bindings: KeyBindings,
}

/// The mathematical model of `Mode`.
pub struct ModeView {
    pub name: String,
    pub help: Option<String>,
    pub extra_help: Option<String>,
    pub key_bindings: KeyBindingsView,
}

impl View for Mode {
    type V = ModeView;

    open spec fn view(&self) -> ModeView {
        ModeView {
            name: self.name,
            help: self.help,
            extra_help: self.extra_help,
            key_bindings: self.key_bindings@,
        }
    }
}

impl ModeView {
    /// The mode as far as a session may keep it: its key bindings are
    /// restricted, the rest stays.
    pub open spec fn restricted(self, read_only: bool) -> ModeView {
        ModeView { key_bindings: self.key_bindings.restricted(read_only), ..self }
    }
}

/// Appends one paragraph line for each line of `text`.
fn push_paragraphs(menu: &mut Vec<HelpMenuLine>, text: &str)
    ensures
        help_lines_of(final(menu)@) == help_lines_of(old(menu)@) + paragraphs(lines_of(text@)),
{
    let split = lines(text);
    let ghost all = texts(split@);
    proof {
        assert(help_lines_of(menu@) =~= help_lines_of(old(menu)@) + paragraphs(all.take(0)));
    }
    for line in it: split.into_iter()
        invariant
            all == texts(it.seq()),
            help_lines_of(menu@) == help_lines_of(old(menu)@) + paragraphs(
                all.take(it.index() as int),
            ),
    {
        let ghost i = it.index() as int;
        proof {
            assert(line@ == all[i]);
            assert(help_lines_of(menu@.push(HelpMenuLine::Paragraph(line))) =~= help_lines_of(
                menu@,
            ).push(HelpLine::Paragraph(line@)));
            assert(paragraphs(all.take(i + 1)) =~= paragraphs(all.take(i)).push(
                HelpLine::Paragraph(all[i]),
            ));
            assert(help_lines_of(menu@.push(HelpMenuLine::Paragraph(line))) =~= help_lines_of(
                old(menu)@,
            ) + paragraphs(all.take(i + 1)));
        }
        menu.push(HelpMenuLine::Paragraph(line));
    }
    proof {
        assert(all.take(all.len() as int) =~= all);
    }
}

/// Appends the line of a binding under a label, if it has one.
fn push_binding(menu: &mut Vec<HelpMenuLine>, label: &str, binding: &Option<Action>)
    ensures
        help_lines_of(final(menu)@) == help_lines_of(old(menu)@) + binding_line(label@, *binding),
{
    match binding {
        Some(action) => match &action.help {
            Some(help) => {
                let line = HelpMenuLine::KeyMap(label.to_owned(), help.clone());
                proof {
                    assert(help_lines_of(menu@.push(line)) =~= help_lines_of(menu@) + binding_line(
                        label@,
                        *binding,
                    ));
                }
                menu.push(line);
            },
            None => {
                assert(help_lines_of(menu@) =~= help_lines_of(menu@) + binding_line(
                    label@,
                    *binding,
                ));
            },
        },
        None => {
            assert(help_lines_of(menu@) =~= help_lines_of(menu@) + binding_line(label@, *binding));
        },
    }
}

impl Mode {
    /// The help menu of the mode. Where the mode spells its help out, the
    /// menu is that text, line by line. Otherwise it is made of the lines of
    /// the extra help, then the lines of the key bindings in ascending key
    /// order, then the lines of the bindings for letters, for digits, for
    /// special characters and for any other key.
    pub open spec fn help_lines(&self) -> Seq<HelpLine> {
        match self.help {
            Some(help) => paragraphs(lines_of(help@)),
            None => paragraphs(
                match self.extra_help {
                    Some(extra) => lines_of(extra@),
                    None => Seq::empty(),
                },
            ) + key_lines(
                self.key_bindings.on_key.keys(),
                self.key_bindings.on_key.values(),
                self.key_bindings.remaps@,
            ) + binding_line("[a-Z]"@, self.key_bindings.on_alphabet) + binding_line(
                "[0-9]"@,
                self.key_bindings.on_number,
            ) + binding_line("[spcl chars]"@, self.key_bindings.on_special_character)
                + binding_line("[default]"@, self.key_bindings.default),
        }
    }

    /// The mode as far as the session may keep it.
    pub fn sanitized(self, read_only: bool) -> (r: Self)
        ensures
            r@ == self@.restricted(read_only),
    {
        Mode {
            name: self.name,
            help: self.help,
            extra_help: self.extra_help,
            key_bindings: self.key_bindings.sanitized(read_only),
        }
    }

    /// Lays `other` onto this mode: the name stays, each help text of `other`
    /// wins where it has one, and the key bindings of `other` are laid onto
    /// those of `self`.
    pub fn extend(self, other: Self) -> (r: Self)
        ensures
            r@ == Self::merged(self@, other@),
    {
        Mode {
            name: self.name,
            help: overlay_or(other.help, self.help),
            extra_help: overlay_or(other.extra_help, self.extra_help),
            key_bindings: self.key_bindings.extend(other.key_bindings),
        }
    }

    /// The help menu of the mode.
    pub fn help_menu(&self) -> (r: Vec<HelpMenuLine>)
        ensures
            help_lines_of(r@) == self.help_lines(),
    {
        let mut menu: Vec<HelpMenuLine> = Vec::new();
        proof {
            assert(help_lines_of(menu@) =~= Seq::<HelpLine>::empty());
        }
        match &self.help {
            Some(help) => {
                push_paragraphs(&mut menu, help.as_str());
                proof {
                    assert(help_lines_of(menu@) =~= paragraphs(lines_of(help@)));
                }
            },
            None => {
                match &self.extra_help {
                    Some(extra) => {
                        push_paragraphs(&mut menu, extra.as_str());
                    },
                    None => {},
                }
                let ghost head = help_lines_of(menu@);
                let ghost keys = self.key_bindings.on_key.keys();
                let ghost actions = self.key_bindings.on_key.values();
                let ghost remaps = self.key_bindings.remaps@;
                proof {
                    assert(head =~= paragraphs(
                        match self.extra_help {
                            Some(extra) => lines_of(extra@),
                            None => Seq::empty(),
                        },
                    ));
                    assert(help_lines_of(menu@) =~= head + key_lines(
                        keys.take(0),
                        actions.take(0),
                        remaps,
                    ));
                }
                let n: usize = self.key_bindings.on_key.len();
                let mut i: usize = 0;
                while i < n
                    invariant
                        i <= n,
                        n == keys.len(),
                        n == actions.len(),
                        keys == self.key_bindings.on_key.keys(),
                        actions == self.key_bindings.on_key.values(),
                        remaps == self.key_bindings.remaps@,
                        help_lines_of(menu@) == head + key_lines(
                            keys.take(i as int),
                            actions.take(i as int),
                            remaps,
                        ),
                    decreases n - i,
                {
                    let key = self.key_bindings.on_key.key_at(i);
                    let ghost before = help_lines_of(menu@);
                    proof {
                        assert(keys.take(i + 1).drop_last() =~= keys.take(i as int));
                        assert(actions.take(i + 1).drop_last() =~= actions.take(i as int));
                    }
                    if !self.key_bindings.is_remap_target(key) {
                        match &self.key_bindings.on_key.value_at(i).help {
                            Some(help) => {
                                let line = HelpMenuLine::KeyMap(key.to_owned(), help.clone());
                                proof {
                                    assert(help_lines_of(menu@.push(line)) =~= before.push(line@));
                                }
                                menu.push(line);
                            },
                            None => {},
                        }
                    }
                    proof {
                        let step = if remaps.contains_value(keys[i as int]) {
                            Seq::<HelpLine>::empty()
                        } else {
                            binding_line(keys[i as int], Some(actions[i as int]))
                        };
                        assert(keys.take(i + 1).last() == keys[i as int]);
                        assert(actions.take(i + 1).last() == actions[i as int]);
                        assert(key_lines(keys.take(i + 1), actions.take(i + 1), remaps) == key_lines(
                            keys.take(i as int),
                            actions.take(i as int),
                            remaps,
                        ) + step);
                        assert(help_lines_of(menu@) =~= before + step);
                        assert(help_lines_of(menu@) =~= head + key_lines(
                            keys.take(i + 1),
                            actions.take(i + 1),
                            remaps,
                        ));
                    }
                    i = i + 1;
                }
                proof {
                    assert(keys.take(n as int) =~= keys);
                    assert(actions.take(n as int) =~= actions);
                }
                push_binding(&mut menu, "[a-Z]", &self.key_bindings.on_alphabet);
                push_binding(&mut menu, "[0-9]", &self.key_bindings.on_number);
                push_binding(&mut menu, "[spcl chars]", &self.key_bindings.on_special_character);
                push_binding(&mut menu, "[default]", &self.key_bindings.default);
            },
        }
        menu
    }
}

impl Mergeable for Mode {
    open spec fn merged(base: ModeView, overlay: ModeView) -> ModeView {
        ModeView {
            name: base.name,
            help: or_else(overlay.help, base.help),
            extra_help: or_else(overlay.extra_help, base.extra_help),
            key_bindings: KeyBindings::merged(base.key_bindings, overlay.key_bindings),
        }
    }

    proof fn lemma_merged_same(v: ModeView) {
        KeyBindings::lemma_merged_same(v.key_bindings);
    }

    fn merge(self, overlay: Self) -> (r: Self) {
        self.extend(overlay)
    }
}

/// The help texts of a mode are the overlay's wherever the overlay has them,
/// and the base's otherwise; the name is always the base's.
pub proof fn lemma_mode_is_right_biased(base: ModeView, overlay: ModeView)
    ensures
        overlay.help is Some ==> Mode::merged(base, overlay).help == overlay.help,
        overlay.help is None ==> Mode::merged(base, overlay).help == base.help,
        overlay.extra_help is Some ==> Mode::merged(base, overlay).extra_help == overlay.extra_help,
        overlay.extra_help is None ==> Mode::merged(base, overlay).extra_help == base.extra_help,
        Mode::merged(base, overlay).name == base.name,
{
}

} // verus!
