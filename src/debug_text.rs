use vstd::prelude::*;

verus! {

/// A message slot for on-screen debugging: the latest message, and whether
/// it has been taken since it was set.
pub struct DebugText {
    text: String,
    has_changed: bool,
}

impl DebugText {
    /// The latest message.
    pub closed spec fn message(&self) -> Seq<char> {
        self.text@
    }

    /// Whether the latest message has not been taken yet.
    pub closed spec fn is_pending(&self) -> bool {
        self.has_changed
    }

    /// Replaces the message and marks it as not taken.
    pub fn set(&mut self, str: &str)
        ensures
            final(self).message() == str@,
            final(self).is_pending(),
    {
        self.text = str.to_owned();
        self.has_changed = true;
    }

    /// Takes the message if it has not been taken since it was set; the
    /// message itself stays.
    pub fn new_text(&mut self) -> (text: Option<String>)
        ensures
            final(self).message() == old(self).message(),
            !final(self).is_pending(),
            old(self).is_pending() ==> text.is_some() && text.unwrap()@ == old(self).message(),
            !old(self).is_pending() ==> text.is_none(),
    {
        if !self.has_changed {
            return None;
        }
        self.has_changed = false;
        Some(self.text.clone())
    }

    /// One tick of an on-screen line that shows `shown`: the line is cleared
    /// when its display timer has just finished, then replaced by the
    /// message if it has not been taken yet.
    pub fn refresh(&mut self, shown: String, timer_finished: bool) -> (next: String)
        ensures
            final(self).message() == old(self).message(),
            !final(self).is_pending(),
            old(self).is_pending() ==> next@ == old(self).message(),
            !old(self).is_pending() && timer_finished ==> next@ == Seq::<char>::empty(),
            !old(self).is_pending() && !timer_finished ==> next@ == shown@,
    {
        let cleared = if timer_finished {
            String::new()
        } else {
            shown
        };
        match self.new_text() {
            Some(text) => text,
            None => cleared,
        }
    }
}

impl Default for DebugText {
    /// An empty message, not pending.
    fn default() -> (d: DebugText)
        ensures
            d.message() == Seq::<char>::empty(),
            !d.is_pending(),
    {
        DebugText { text: String::new(), has_changed: false }
    }
}

} // verus!
