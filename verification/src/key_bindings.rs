//! The key bindings of a mode.

use crate::action::{all_read_only, Action};
use crate::merge::{or_else, overlay_or, Mergeable};
use crate::ordered_map::{
    keys_of, lemma_merged_maps_same, lemma_prefix_step, lemma_view_insert, merged_maps, model_of,
    values_of, OrderedMap,
};
use crate::text::{ascending, same_text};
use vstd::prelude::*;

verus! {

/// The bindings of a mode: what each key does, what the keys of each class do
/// where no binding names them, and which keys stand for which others.
#[derive(Debug, Clone, PartialEq, Eq, Default)]
pub struct KeyBindings {
    /// Keys that stand for another key: each maps to the key whose binding it
    /// triggers.
    pub remaps: OrderedMap<String>,
    /// The binding of each key.
    pub on_key: OrderedMap<Action>,
    pub on_alphabet: Option<Action>,
    pub on_number: Option<Action>,
    pub on_special_character: Option<Action>,
    pub default: Option<Action>,
}

/// The mathematical model of `KeyBindings`.
pub struct KeyBindingsView {
    pub remaps: Map<Seq<char>, Seq<char>>,
    pub on_key: Map<Seq<char>, Action>,
    pub on_alphabet: Option<Action>,
    pub on_number: Option<Action>,
    pub on_special_character: Option<Action>,
    pub default: Option<Action>,
}

impl View for KeyBindings {
    type V = KeyBindingsView;

    open spec fn view(&self) -> KeyBindingsView {
        KeyBindingsView {
            remaps: self.remaps@,
            on_key: self.on_key@,
            on_alphabet: self.on_alphabet,
            on_number: self.on_number,
            on_special_character: self.on_special_character,
            default: self.default,
        }
    }
}

/// What is left of a class binding in a read-only session.
pub open spec fn restricted_binding(binding: Option<Action>) -> Option<Action> {
    match binding {
        Some(action) => action.restricted(true),
        None => None,
    }
}

/// The key bindings that survive in a read-only session: those whose action
/// survives.
pub open spec fn restricted_on_key(on_key: Map<Seq<char>, Action>) -> Map<Seq<char>, Action> {
    Map::new(
        |k: Seq<char>| on_key.dom().contains(k) && on_key[k].restricted(true) is Some,
        |k: Seq<char>| on_key[k],
    )
}

/// The remaps whose target is among the given keys.
pub open spec fn remaps_into(remaps: Map<Seq<char>, Seq<char>>, keys: Set<Seq<char>>) -> Map<
    Seq<char>,
    Seq<char>,
> {
    Map::new(
        |k: Seq<char>| remaps.dom().contains(k) && keys.contains(remaps[k]),
        |k: Seq<char>| remaps[k],
    )
}

impl KeyBindingsView {
    /// The bindings as far as a session may keep them. A session that is not
    /// read-only keeps them all. A read-only session keeps the bindings whose
    /// action survives, and the remaps that lead to a key binding that is
    /// kept.
    pub open spec fn restricted(self, read_only: bool) -> KeyBindingsView {
        if read_only {
            KeyBindingsView {
                remaps: remaps_into(self.remaps, restricted_on_key(self.on_key).dom()),
                on_key: restricted_on_key(self.on_key),
                on_alphabet: restricted_binding(self.on_alphabet),
                on_number: restricted_binding(self.on_number),
                on_special_character: restricted_binding(self.on_special_character),
                default: restricted_binding(self.default),
            }
        } else {
            self
        }
    }
}

/// A class binding as far as a read-only session may keep it.
fn sanitized_binding(binding: Option<Action>) -> (r: Option<Action>)
    ensures
        r == restricted_binding(binding),
{
    match binding {
        Some(action) => action.sanitized(true),
        None => None,
    }
}

/// The key bindings whose action a read-only session may keep.
fn sanitized_on_key(on_key: OrderedMap<Action>) -> (r: OrderedMap<Action>)
    ensures
        r@ == restricted_on_key(on_key@),
{
    let ghost keys = on_key.keys();
    let ghost values = on_key.values();
    let ghost whole = on_key@;
    let entries = on_key.into_entries();
    let mut kept: OrderedMap<Action> = OrderedMap::new();
    proof {
        assert(kept@ =~= restricted_on_key(model_of(keys.take(0), values.take(0))));
    }
    for e in it: entries.into_iter()
        invariant
            keys == keys_of(it.seq()),
            values == values_of(it.seq()),
            ascending(keys),
            kept@ == restricted_on_key(
                model_of(keys.take(it.index() as int), values.take(it.index() as int)),
            ),
    {
        let ghost i = it.index() as int;
        proof {
            lemma_prefix_step(keys, values, i);
            assert(e.0@ == keys[i]);
            assert(e.1 == values[i]);
        }
        let ghost before = kept.model();
        match e.1.sanitized(true) {
            Some(action) => {
                kept.insert(e.0, action);
                proof {
                    lemma_view_insert(before, keys[i], action);
                }
            },
            None => {},
        }
        proof {
            assert(kept@ =~= restricted_on_key(model_of(keys.take(i + 1), values.take(i + 1))));
        }
    }
    proof {
        assert(keys.take(keys.len() as int) =~= keys);
        assert(values.take(values.len() as int) =~= values);
        assert(whole =~= model_of(keys, values));
    }
    kept
}

/// The remaps that lead to one of the given key bindings.
fn sanitized_remaps(remaps: OrderedMap<String>, on_key: &OrderedMap<Action>) -> (r: OrderedMap<
    String,
>)
    ensures
        r@ == remaps_into(remaps@, on_key@.dom()),
{
    let ghost keys = remaps.keys();
    let ghost values = remaps.values();
    let ghost targets = on_key@.dom();
    let entries = remaps.into_entries();
    let mut kept: OrderedMap<String> = OrderedMap::new();
    proof {
        assert(kept@ =~= remaps_into(
            model_of(keys.take(0), values.take(0)).map_values(|v: String| v@),
            targets,
        ));
    }
    for e in it: entries.into_iter()
        invariant
            keys == keys_of(it.seq()),
            values == values_of(it.seq()),
            targets == on_key@.dom(),
            ascending(keys),
            kept@ == remaps_into(
                model_of(keys.take(it.index() as int), values.take(it.index() as int)).map_values(
                    |v: String| v@,
                ),
                targets,
            ),
    {
        let ghost i = it.index() as int;
        proof {
            lemma_prefix_step(keys, values, i);
            assert(e.0@ == keys[i]);
            assert(e.1 == values[i]);
        }
        let ghost before = kept.model();
        let ghost shorter = model_of(keys.take(i), values.take(i));
        if on_key.contains_key(e.1.as_str()) {
            kept.insert(e.0, e.1);
            proof {
                lemma_view_insert(before, keys[i], values[i]);
            }
        }
        proof {
            lemma_view_insert(shorter, keys[i], values[i]);
            assert(kept@ =~= remaps_into(
                model_of(keys.take(i + 1), values.take(i + 1)).map_values(|v: String| v@),
                targets,
            ));
        }
    }
    proof {
        assert(keys.take(keys.len() as int) =~= keys);
        assert(values.take(values.len() as int) =~= values);
    }
    kept
}

impl KeyBindings {
    /// The bindings as far as the session may keep them.
    pub fn sanitized(self, read_only: bool) -> (r: Self)
        ensures
            r@ == self@.restricted(read_only),
    {
        if read_only {
            let on_key = sanitized_on_key(self.on_key);
            let remaps = sanitized_remaps(self.remaps, &on_key);
            KeyBindings {
                remaps,
                on_key,
                on_alphabet: sanitized_binding(self.on_alphabet),
                on_number: sanitized_binding(self.on_number),
                on_special_character: sanitized_binding(self.on_special_character),
                default: sanitized_binding(self.default),
            }
        } else {
            self
        }
    }

    /// Lays `other` onto these bindings. Remaps and key bindings are united;
    /// where both remap a key the remap of `other` wins, and where both bind a
    /// key the action of `other` is laid onto the action of `self`. A class
    /// binding of `other` wins where it has one.
    pub fn extend(self, other: Self) -> (r: Self)
        ensures
            r@ == Self::merged(self@, other@),
    {
        KeyBindings {
            remaps: self.remaps.extend(other.remaps),
            on_key: self.on_key.extend(other.on_key),
            on_alphabet: overlay_or(other.on_alphabet, self.on_alphabet),
            on_number: overlay_or(other.on_number, self.on_number),
            on_special_character: overlay_or(
                other.on_special_character,
                self.on_special_character,
            ),
            default: overlay_or(other.default, self.default),
        }
    }

    /// Whether some remap leads to `key`.
    pub fn is_remap_target(&self, key: &str) -> (r: bool)
        ensures
            r == self.remaps@.contains_value(key@),
    {
        proof {
            use_type_invariant(&self.remaps);
            self.remaps.lemma_view();
        }
        let n: usize = self.remaps.len();
        let mut i: usize = 0;
        while i < n
            invariant
                i <= n,
                n == self.remaps.keys().len(),
                n == self.remaps.values().len(),
                forall|j: int| 0 <= j < i ==> (#[trigger] self.remaps.values()[j])@ != key@,
            decreases n - i,
        {
            if same_text(self.remaps.value_at(i).as_str(), key) {
                proof {
                    use_type_invariant(&self.remaps);
                    self.remaps.lemma_view();
                    let k = self.remaps.keys()[i as int];
                    assert(self.remaps@.dom().contains(k));
                    assert(self.remaps@[k] == self.remaps.values()[i as int]@);
                }
                return true;
            }
            i = i + 1;
        }
        proof {
            if self.remaps@.contains_value(key@) {
                let k = choose|k: Seq<char>| #[trigger]
                    self.remaps@.dom().contains(k) && self.remaps@[k] == key@;
                let j = self.remaps.keys().index_of(k);
                assert(self.remaps.keys()[j] == k);
                assert(self.remaps.values()[j]@ == key@);
            }
        }
        false
    }
}

impl Mergeable for KeyBindings {
    open spec fn merged(base: KeyBindingsView, overlay: KeyBindingsView) -> KeyBindingsView {
        KeyBindingsView {
            remaps: merged_maps::<String>(base.remaps, overlay.remaps),
            on_key: merged_maps::<Action>(base.on_key, overlay.on_key),
            on_alphabet: or_else(overlay.on_alphabet, base.on_alphabet),
            on_number: or_else(overlay.on_number, base.on_number),
            on_special_character: or_else(overlay.on_special_character, base.on_special_character),
            default: or_else(overlay.default, base.default),
        }
    }

    proof fn lemma_merged_same(v: KeyBindingsView) {
        lemma_merged_maps_same::<String>(v.remaps);
        lemma_merged_maps_same::<Action>(v.on_key);
    }

    fn merge(self, overlay: Self) -> (r: Self) {
        self.extend(overlay)
    }
}

/// In a read-only session every remap that is kept leads to a key binding
/// that is kept, and every action that is kept holds messages, all of them
/// read-only.
pub proof fn lemma_restricted_is_closed(bindings: KeyBindingsView)
    ensures
        forall|k: Seq<char>| #[trigger]
            bindings.restricted(true).remaps.dom().contains(k) ==> bindings.restricted(
                true,
            ).on_key.dom().contains(bindings.restricted(true).remaps[k]),
        forall|k: Seq<char>| #[trigger]
            bindings.restricted(true).on_key.dom().contains(k) ==> {
                &&& bindings.restricted(true).on_key[k].messages@.len() > 0
                &&& all_read_only(bindings.restricted(true).on_key[k].messages@)
            },
{
}

/// A class binding is the overlay's, taken whole, wherever the overlay has
/// one, and the base's otherwise.
pub proof fn lemma_class_bindings_are_right_biased(base: KeyBindingsView, overlay: KeyBindingsView)
    ensures
        overlay.on_alphabet is Some ==> KeyBindings::merged(base, overlay).on_alphabet == overlay.on_alphabet,
        overlay.on_alphabet is None ==> KeyBindings::merged(base, overlay).on_alphabet == base.on_alphabet,
        overlay.on_number is Some ==> KeyBindings::merged(base, overlay).on_number == overlay.on_number,
        overlay.on_number is None ==> KeyBindings::merged(base, overlay).on_number == base.on_number,
        overlay.on_special_character is Some ==> KeyBindings::merged(base, overlay).on_special_character == overlay.on_special_character,
        overlay.on_special_character is None ==> KeyBindings::merged(base, overlay).on_special_character == base.on_special_character,
        overlay.default is Some ==> KeyBindings::merged(base, overlay).default == overlay.default,
        overlay.default is None ==> KeyBindings::merged(base, overlay).default == base.default,
{
}

} // verus!
