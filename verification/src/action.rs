//! What a key binding does.

use crate::merge::{or_else, overlay_or, Mergeable};
use vstd::prelude::*;

verus! {

/// A message that a binding sends when it is triggered. The configuration
/// carries the message through and reads one thing of it: whether it may be
/// sent in a read-only session.
#[derive(Debug, Clone, PartialEq, Eq, Default)]
pub struct ExternalMsg {
    /// The message itself, in the form in which it was configured.
    pub payload: String,
    /// Whether the message leaves the explored files as they are.
    pub read_only: bool,
}

impl ExternalMsg {
    /// Whether the message may be sent in a read-only session.
    pub fn is_read_only(&self) -> (r: bool)
        ensures
            r == self.read_only,
    {
        self.read_only
    }
}

/// Whether every message of the sequence may be sent in a read-only session.
pub open spec fn all_read_only(messages: Seq<ExternalMsg>) -> bool {
    forall|i: int| 0 <= i < messages.len() ==> (#[trigger] messages[i]).read_only
}

/// One bound action: an optional help text and the messages that it sends.
#[derive(Debug, Clone, PartialEq, Eq, Default)]
pub struct Action {
    pub help: Option<String>,
    pub messages: Vec<ExternalMsg>,
}

impl View for Action {
    type V = Action;

    open spec fn view(&self) -> Action {
        *self
    }
}

impl Action {
    /// What is left of the action in a session that is read-only or not: an
    /// action without messages is void; in a read-only session an action with
    /// a message that is not read-only is dropped whole; any other action
    /// stays as it is.
    pub open spec fn restricted(self, read_only: bool) -> Option<Action> {
        if self.messages@.len() == 0 {
            None
        } else if read_only && !all_read_only(self.messages@) {
            None
        } else {
            Some(self)
        }
    }

    /// The action as far as the session may keep it.
    pub fn sanitized(self, read_only: bool) -> (r: Option<Self>)
        ensures
            r == self.restricted(read_only),
    {
        let n: usize = self.messages.len();
        if n == 0 {
            return None;
        }
        if read_only {
            let mut i: usize = 0;
            while i < n
                invariant
                    read_only,
                    0 < n,
                    i <= n,
                    n == self.messages@.len(),
                    forall|j: int| 0 <= j < i ==> (#[trigger] self.messages@[j]).read_only,
                decreases n - i,
            {
                if !self.messages[i].is_read_only() {
                    assert(!self.messages@[i as int].read_only);
                    return None;
                }
                i = i + 1;
            }
        }
        Some(self)
    }

    /// Lays `other` onto this action: the help text of `other` wins where it
    /// has one, and the messages are those of `other`.
    pub fn extend(self, other: Self) -> (r: Self)
        ensures
            r == Self::merged(self, other),
    {
        Action { help: overlay_or(other.help, self.help), messages: other.messages }
    }
}

impl Mergeable for Action {
    open spec fn merged(base: Action, overlay: Action) -> Action {
        Action { help: or_else(overlay.help, base.help), messages: overlay.messages }
    }

    proof fn lemma_merged_same(v: Action) {
    }

    fn merge(self, overlay: Self) -> (r: Self) {
        self.extend(overlay)
    }
}

/// An action that holds a message which is not read-only does not survive in
/// a read-only session.
pub proof fn lemma_unsafe_action_is_dropped(action: Action, i: int)
    requires
        0 <= i < action.messages@.len(),
        !action.messages@[i].read_only,
    ensures
        action.restricted(true) is None,
{
}

/// An action that holds messages, all of them read-only, survives unchanged
/// in a read-only session.
pub proof fn lemma_safe_action_is_kept(action: Action)
    requires
        action.messages@.len() > 0,
        all_read_only(action.messages@),
    ensures
        action.restricted(true) == Some(action),
{
}

/// Laying an overlay onto an action gives the overlay's messages, and the
/// overlay's help text where it has one, else the base's.
pub proof fn lemma_action_merge_is_right_biased(base: Action, overlay: Action)
    ensures
        Action::merged(base, overlay).messages == overlay.messages,
        overlay.help is Some ==> Action::merged(base, overlay).help == overlay.help,
        overlay.help is None ==> Action::merged(base, overlay).help == base.help,
{
}

} // verus!
