//! Autocomplete popup: filters a fixed keyword list against the
//! current partial word (case-insensitive prefix match; an empty word
//! matches nothing) and cycles a selection through the candidates.

use vstd::prelude::*;
use vstd::string::StrSliceExecFns;
use vstd::string::StringExecFns;

use crate::events::{CommandInfo, EventState, Key, KeyConfig};
use crate::text::{
    is_char_prefix, lower_of, spec_is_prefix, str_to_lowercase, str_to_uppercase, upper_of,
};

verus! {

pub struct CompletionComponent {
    pub key_config: KeyConfig,
    /// Index of the highlighted candidate within the filtered list.
    pub state: Option<usize>,
    pub word: String,
    pub candidates: Vec<String>,
}

/// The fixed keyword vocabulary the popup completes against.
pub open spec fn spec_reserved_words() -> Seq<Seq<char>> {
    seq!["IN"@, "AND"@, "OR"@, "NOT"@, "NULL"@, "IS"@]
}

/// Whether a candidate is offered for a partial word: the word must be
/// non-empty and its all-lowercase or all-uppercase form a prefix of
/// the candidate.
pub open spec fn spec_candidate_matches(c: Seq<char>, word: Seq<char>) -> bool {
    word.len() > 0 && (spec_is_prefix(lower_of(word), c) || spec_is_prefix(upper_of(word), c))
}

/// The candidates offered for the current word, in list order.
pub open spec fn spec_filtered(cc: CompletionComponent) -> Seq<String> {
    cc.candidates@.filter(|c: String| spec_candidate_matches(c@, cc.word@))
}

/// Cycling down: one step forward through the filtered list, wrapping
/// from the last candidate to the first; a no-op on an empty list.
pub open spec fn spec_completion_next(cc: CompletionComponent) -> CompletionComponent {
    if spec_filtered(cc).len() == 0 {
        cc
    } else {
        CompletionComponent {
            state: Some(
                match cc.state {
                    Some(i) => if i + 1 >= spec_filtered(cc).len() {
                        0usize
                    } else {
                        (i + 1) as usize
                    },
                    None => 0usize,
                },
            ),
            ..cc
        }
    }
}

/// Cycling up: one step backward, wrapping from the first candidate to
/// the last; a no-op on an empty list.
pub open spec fn spec_completion_previous(cc: CompletionComponent) -> CompletionComponent {
    if spec_filtered(cc).len() == 0 {
        cc
    } else {
        CompletionComponent {
            state: Some(
                match cc.state {
                    Some(i) => if i == 0 {
                        (spec_filtered(cc).len() - 1) as usize
                    } else {
                        (i - 1) as usize
                    },
                    None => 0usize,
                },
            ),
            ..cc
        }
    }
}

/// The text inserted on completion: the selected candidate beyond the
/// typed prefix length, plus a separating space; nothing when no
/// candidate is selected.
pub open spec fn spec_completion_text(cc: CompletionComponent) -> Option<Seq<char>> {
    match cc.state {
        Some(i) => {
            let f = spec_filtered(cc);
            if i < f.len() {
                let c = f[i as int]@;
                let k = if cc.word@.len() < c.len() {
                    cc.word@.len() as int
                } else {
                    c.len() as int
                };
                Some(c.skip(k) + seq![' '])
            } else {
                None
            }
        },
        None => None,
    }
}

/// The state after one key press.
pub open spec fn spec_completion_step(cc: CompletionComponent, key: Key) -> CompletionComponent {
    if key == cc.key_config.move_down {
        spec_completion_next(cc)
    } else if key == cc.key_config.move_up {
        spec_completion_previous(cc)
    } else {
        cc
    }
}

pub open spec fn spec_completion_consumed(cc: CompletionComponent, key: Key) -> EventState {
    if key == cc.key_config.move_down || key == cc.key_config.move_up {
        EventState::Consumed
    } else {
        EventState::NotConsumed
    }
}

impl CompletionComponent {
    /// A fresh popup over the fixed vocabulary; no candidates are
    /// offered until the first `update`.
    pub fn new(key_config: KeyConfig, word: String) -> (c: Self)
        ensures
            c.key_config == key_config,
            c.state is None,
            c.word == word,
            c.candidates@.len() == 0,
    {
        CompletionComponent { key_config, state: None, word, candidates: Vec::new() }
    }

    /// Replace the partial word, reload the vocabulary and highlight
    /// the first candidate.
    pub fn update(&mut self, word: String)
        ensures
            final(self).key_config == old(self).key_config,
            final(self).word == word,
            final(self).state == Some(0usize),
            final(self).candidates@.len() == spec_reserved_words().len(),
            forall|k: int|
                0 <= k < spec_reserved_words().len() ==> final(self).candidates@[k]@
                    == spec_reserved_words()[k],
    {
        self.word = word;
        let mut cands: Vec<String> = Vec::new();
        cands.push(String::from_str("IN"));
        cands.push(String::from_str("AND"));
        cands.push(String::from_str("OR"));
        cands.push(String::from_str("NOT"));
        cands.push(String::from_str("NULL"));
        cands.push(String::from_str("IS"));
        self.candidates = cands;
        self.state = Some(0);
    }

    /// The candidates offered for the current word, in list order.
    pub fn filterd_candidates(&self) -> (out: Vec<String>)
        ensures
            out@ == spec_filtered(*self),
    {
        let lower = str_to_lowercase(self.word.as_str());
        let upper = str_to_uppercase(self.word.as_str());
        let empty = self.word.as_str().is_empty();
        let mut out: Vec<String> = Vec::new();
        let n = self.candidates.len();
        let mut i: usize = 0;
        while i < n
            invariant
                n == self.candidates@.len(),
                i <= n,
                lower@ == lower_of(self.word@),
                upper@ == upper_of(self.word@),
                empty == (self.word@.len() == 0),
                out@ == self.candidates@.take(i as int).filter(
                    |c: String| spec_candidate_matches(c@, self.word@),
                ),
            decreases n - i,
        {
            let cand: &String = &self.candidates[i];
            let m = !empty && (is_char_prefix(lower.as_str(), cand.as_str()) || is_char_prefix(
                upper.as_str(),
                cand.as_str(),
            ));
            proof {
                let pred = |c: String| spec_candidate_matches(c@, self.word@);
                self.candidates@.take(i as int).lemma_filter_push(
                    self.candidates@[i as int],
                    pred,
                );
                assert(self.candidates@.take(i as int).push(self.candidates@[i as int])
                    =~= self.candidates@.take(i + 1));
                assert(m == pred(self.candidates@[i as int]));
            }
            if m {
                out.push(cand.clone());
            }
            i = i + 1;
        }
        proof {
            assert(self.candidates@.take(n as int) =~= self.candidates@);
        }
        out
    }

    /// Move the highlight one candidate down, wrapping at the end.
    pub fn next(&mut self)
        ensures
            *final(self) == spec_completion_next(*old(self)),
    {
        let filtered = self.filterd_candidates();
        let n = filtered.len();
        if n == 0 {
            return;
        }
        let i: usize = match self.state {
            Some(i) => if i >= n - 1 {
                0
            } else {
                i + 1
            },
            None => 0,
        };
        self.state = Some(i);
    }

    /// Move the highlight one candidate up, wrapping at the start.
    pub fn previous(&mut self)
        ensures
            *final(self) == spec_completion_previous(*old(self)),
    {
        let filtered = self.filterd_candidates();
        let n = filtered.len();
        if n == 0 {
            return;
        }
        let i: usize = match self.state {
            Some(i) => if i == 0 {
                n - 1
            } else {
                i - 1
            },
            None => 0,
        };
        self.state = Some(i);
    }

    /// The text to insert for the highlighted candidate.
    pub fn string_to_be_completed(&self) -> (out: Option<String>)
        ensures
            out is Some <==> spec_completion_text(*self) is Some,
            out is Some ==> out.unwrap()@ == spec_completion_text(*self).unwrap(),
    {
        let filtered = self.filterd_candidates();
        let i: usize = match self.state {
            Some(i) => i,
            None => {
                return None;
            },
        };
        if i >= filtered.len() {
            return None;
        }
        let cand: &String = &filtered[i];
        let wl = self.word.as_str().unicode_len();
        let cl = cand.as_str().unicode_len();
        let k = if wl < cl {
            wl
        } else {
            cl
        };
        let tail: &str = cand.as_str().substring_char(k, cl);
        let mut s = tail.to_owned();
        s.append(" ");
        proof {
            reveal_strlit(" ");
            assert(" "@ =~= seq![' ']);
            assert(s@ =~= spec_completion_text(*self).unwrap());
        }
        Some(s)
    }

    /// Route one key press.
    pub fn event(&mut self, key: Key) -> (r: EventState)
        ensures
            *final(self) == spec_completion_step(*old(self), key),
            r == spec_completion_consumed(*old(self), key),
    {
        if key == self.key_config.move_down {
            self.next();
            EventState::Consumed
        } else if key == self.key_config.move_up {
            self.previous();
            EventState::Consumed
        } else {
            EventState::NotConsumed
        }
    }

    /// Widgets register the commands they answer to; the popup
    /// registers none.
    pub fn commands(&self, out: &mut Vec<CommandInfo>)
        ensures
            *final(out) == *old(out),
    {
    }
}

} // verus!
