//! Logic behind the user interface: keybinding hints, the parts of a
//! program line, and text editing.
use vstd::prelude::*;

use crate::instructions::parsing::{remove_pattern, remove_pattern_chars};
use crate::text::{
    chars_to_string, copy_chars, join_space, join_space_exec, lex_lt, split_whitespace, string_views, to_chars, tokens,
    trim, trim_exec, views,
};
use trie_rs::TrieBuilder;
use crate::utils::{comments_spec, get_comment};

verus! {

/// The themes that come with the program.
#[derive(Debug, Clone, Copy, PartialEq, Eq, Structural)]
pub enum BuildInTheme {
    Dracula,
    DefaultOld,
    Gray,
}

/// Symbols of keys that keybinding hints show.
#[derive(Debug, Clone, Copy, PartialEq, Eq, Structural)]
pub enum KeySymbol {
    ArrowUp,
    ArrowDown,
    ArrowLeft,
    ArrowRight,
    Enter,
    Escape,
    Tab,
}

/// The character that stands for a key.
pub open spec fn key_symbol_char(k: KeySymbol) -> char {
    match k {
        KeySymbol::ArrowUp => '\u{2191}',
        KeySymbol::ArrowDown => '\u{2193}',
        KeySymbol::ArrowLeft => '\u{2190}',
        KeySymbol::ArrowRight => '\u{2192}',
        KeySymbol::Enter => '\u{23ce}',
        KeySymbol::Escape => '\u{238b}',
        KeySymbol::Tab => '\u{21e5}',
    }
}

impl KeySymbol {
    /// The symbol, as a text of one character.
    pub fn to_string(&self) -> (res: String)
        ensures
            res@ == seq![key_symbol_char(*self)],
    {
        let c = match self {
            KeySymbol::ArrowUp => '\u{2191}',
            KeySymbol::ArrowDown => '\u{2193}',
            KeySymbol::ArrowLeft => '\u{2190}',
            KeySymbol::ArrowRight => '\u{2192}',
            KeySymbol::Enter => '\u{23ce}',
            KeySymbol::Escape => '\u{238b}',
            KeySymbol::Tab => '\u{21e5}',
        };
        let mut v: Vec<char> = Vec::new();
        v.push(c);
        assert(v@ =~= seq![c]);
        chars_to_string(v.as_slice())
    }
}

/// Why a keybinding hint could not be made or changed.
#[derive(Debug, Clone, Copy, PartialEq, Eq, Structural)]
pub enum KeybindingHintError {
    /// There are not as many orders as labels.
    LengthMismatch,
    /// The state is larger than the number of orders.
    StateInvalid,
}

/// A hint that shows a key and what it does. A hint may have several
/// states, each with its own order and label.
#[derive(Debug, PartialEq)]
pub struct KeybindingHint {
    /// The position of the hint in the list, for each state; smaller comes first.
    orders: Vec<usize>,
    /// The key.
    key: String,
    /// The label, for each state.
    labels: Vec<String>,
    /// Whether the hint is shown as enabled.
    enabled: bool,
    /// Whether the hint is shown at all.
    shown: bool,
    /// The current state.
    state: usize,
}

/// A keybinding hint as mathematical values.
pub struct KeybindingHintView {
    pub orders: Seq<usize>,
    pub key: Seq<char>,
    pub labels: Seq<Seq<char>>,
    pub enabled: bool,
    pub shown: bool,
    pub state: usize,
}

impl KeybindingHint {
    /// There are as many labels as orders, and the state indexes both, or
    /// is 0 when there are none.
    #[verifier::type_invariant]
    spec fn states_match(&self) -> bool {
        &&& self.orders.len() == self.labels.len()
        &&& (self.state < self.orders.len() || (self.orders.len() == 0 && self.state == 0))
    }
}

impl View for KeybindingHint {
    type V = KeybindingHintView;

    closed spec fn view(&self) -> KeybindingHintView {
        KeybindingHintView {
            orders: self.orders@,
            key: self.key@,
            labels: crate::text::string_views(self.labels@),
            enabled: self.enabled,
            shown: self.shown,
            state: self.state,
        }
    }
}

impl KeybindingHint {
    /// A hint with a single state, neither enabled nor shown.
    pub fn new(order: usize, key: &str, label: &str) -> (res: Self)
        ensures
            res@ == (KeybindingHintView {
                orders: seq![order],
                key: key@,
                labels: seq![label@],
                enabled: false,
                shown: false,
                state: 0,
            }),
    {
        KeybindingHint::new_with_state(order, key, label, false, false)
    }

    /// A hint with a single state, enabled and shown as given.
    pub fn new_with_state(order: usize, key: &str, label: &str, enabled: bool, shown: bool) -> (res: Self)
        ensures
            res@ == (KeybindingHintView {
                orders: seq![order],
                key: key@,
                labels: seq![label@],
                enabled,
                shown,
                state: 0,
            }),
    {
        let mut orders: Vec<usize> = Vec::new();
        orders.push(order);
        let mut labels: Vec<String> = Vec::new();
        labels.push(label.to_string());
        let res = KeybindingHint { orders, key: key.to_string(), labels, enabled, shown, state: 0 };
        assert(res@.orders =~= seq![order]);
        assert(res@.labels =~= seq![label@]);
        res
    }

    /// A hint with one state per order and label, neither enabled nor shown.
    ///
    /// Fails when there are not as many orders as labels.
    pub fn new_many(orders: Vec<usize>, key: &str, labels: Vec<&str>) -> (res: Result<Self, KeybindingHintError>)
        ensures
            orders.len() != labels.len() ==> res == Err::<Self, KeybindingHintError>(KeybindingHintError::LengthMismatch),
            orders.len() == labels.len() ==> (res matches Ok(h) && h@ == (KeybindingHintView {
                orders: orders@,
                key: key@,
                labels: crate::text::str_views(labels@),
                enabled: false,
                shown: false,
                state: 0,
            })),
    {
        if orders.len() != labels.len() {
            return Err(KeybindingHintError::LengthMismatch);
        }
        let mut names: Vec<String> = Vec::new();
        let mut i: usize = 0;
        while i < labels.len()
            invariant
                i <= labels.len(),
                crate::text::string_views(names@) == crate::text::str_views(labels@).take(i as int),
            decreases labels.len() - i,
        {
            let n = labels[i].to_string();
            let ghost b = names@;
            names.push(n);
            assert(crate::text::string_views(names@) =~= crate::text::string_views(b).push(n@));
            assert(crate::text::str_views(labels@).take(i + 1) =~= crate::text::str_views(labels@).take(i as int).push(
                labels@[i as int]@,
            ));
            i = i + 1;
        }
        assert(crate::text::str_views(labels@).take(labels.len() as int) =~= crate::text::str_views(labels@));
        Ok(KeybindingHint { orders, key: key.to_string(), labels: names, enabled: false, shown: false, state: 0 })
    }

    /// Neither enabled nor shown.
    pub fn reset(&mut self)
        ensures
            final(self)@ == (KeybindingHintView { enabled: false, shown: false, ..old(self)@ }),
    {
        proof {
            use_type_invariant(&*self);
        }
        self.enabled = false;
        self.shown = false;
    }

    /// Neither enabled nor shown, in its first state.
    pub fn clear(&mut self)
        ensures
            final(self)@ == (KeybindingHintView { enabled: false, shown: false, state: 0, ..old(self)@ }),
    {
        proof {
            use_type_invariant(&*self);
        }
        self.enabled = false;
        self.shown = false;
        self.state = 0;
    }

    /// Sets whether the hint is shown as enabled.
    pub fn set_enabled(&mut self, enabled: bool)
        ensures
            final(self)@ == (KeybindingHintView { enabled, ..old(self)@ }),
    {
        proof {
            use_type_invariant(&*self);
        }
        self.enabled = enabled;
    }

    /// Sets whether the hint is shown.
    pub fn set_shown(&mut self, shown: bool)
        ensures
            final(self)@ == (KeybindingHintView { shown, ..old(self)@ }),
    {
        proof {
            use_type_invariant(&*self);
        }
        self.shown = shown;
    }

    /// Changes the state. A state that indexes no order is refused.
    pub fn set_state(&mut self, state: usize) -> (res: Result<(), KeybindingHintError>)
        ensures
            state >= old(self)@.orders.len() ==> res == Err::<(), KeybindingHintError>(KeybindingHintError::StateInvalid)
                && final(self)@ == old(self)@,
            state < old(self)@.orders.len() ==> res is Ok && final(self)@ == (KeybindingHintView {
                state,
                ..old(self)@
            }),
    {
        proof {
            use_type_invariant(&*self);
        }
        if state >= self.orders.len() {
            Err(KeybindingHintError::StateInvalid)
        } else {
            self.state = state;
            Ok(())
        }
    }

    /// The order of the current state; a hint has one when it has any state.
    pub fn order(&self) -> (res: usize)
        requires
            self@.orders.len() > 0,
        ensures
            res == self@.orders[self@.state as int],
            self@.state < self@.orders.len(),
    {
        proof {
            use_type_invariant(self);
        }
        self.orders[self.state]
    }

    /// The label of the current state; a hint has one when it has any state.
    pub fn label(&self) -> (res: String)
        requires
            self@.labels.len() > 0,
        ensures
            res@ == self@.labels[self@.state as int],
            self@.state < self@.labels.len(),
    {
        proof {
            use_type_invariant(self);
        }
        assert(crate::text::string_views(self.labels@)[self.state as int] == self.labels@[self.state as int]@);
        self.labels[self.state].clone()
    }

    /// The key.
    pub fn key(&self) -> (res: String)
        ensures
            res@ == self@.key,
    {
        self.key.clone()
    }

    /// How many states have a label.
    pub fn state_count(&self) -> (res: usize)
        ensures
            res == self@.labels.len(),
    {
        self.labels.len()
    }

    /// The current state.
    pub fn state(&self) -> (res: usize)
        ensures
            res == self@.state,
    {
        self.state
    }

    /// Whether the hint is shown as enabled.
    pub fn enabled(&self) -> (res: bool)
        ensures
            res == self@.enabled,
    {
        self.enabled
    }

    /// Whether the hint is shown.
    pub fn shown(&self) -> (res: bool)
        ensures
            res == self@.shown,
    {
        self.shown
    }
}

/// Inserts `to_insert` into `s` before the character with index `idx`.
pub fn insert_char_at_index(s: &mut String, idx: usize, to_insert: char)
    requires
        idx <= old(s)@.len(),
    ensures
        final(s)@ == old(s)@.take(idx as int) + seq![to_insert] + old(s)@.skip(idx as int),
{
    let mut chars = to_chars(s.as_str());
    chars.insert(idx, to_insert);
    assert(chars@ =~= old(s)@.take(idx as int) + seq![to_insert] + old(s)@.skip(idx as int));
    *s = chars_to_string(chars.as_slice());
}

/// The label, the instruction and the comment of a program line.
#[derive(Debug, Clone, PartialEq)]
pub struct InputParts {
    pub label: Option<String>,
    pub instruction: Option<String>,
    pub comment: Option<String>,
}

/// The parts of a line as mathematical values.
pub struct InputPartsView {
    pub label: Option<Seq<char>>,
    pub instruction: Option<Seq<char>>,
    pub comment: Option<Seq<char>>,
}

impl View for InputParts {
    type V = InputPartsView;

    open spec fn view(&self) -> InputPartsView {
        InputPartsView {
            label: match self.label {
                Some(s) => Some(s@),
                None => None,
            },
            instruction: match self.instruction {
                Some(s) => Some(s@),
                None => None,
            },
            comment: match self.comment {
                Some(s) => Some(s@),
                None => None,
            },
        }
    }
}

/// The parts of the line `input`: its comment (see [`comments_spec`]); then,
/// in what is left once every copy of the comment is taken out, a first word
/// that ends with `:` is the label (without its colons) and the other words
/// are the instruction. `None` for a line without any part.
pub open spec fn input_parts_spec(input: Seq<char>) -> Option<InputPartsView> {
    if input.len() == 0 {
        None
    } else {
        let c = comments_spec(input);
        let comment = if c.len() > 0 { Some(c) } else { None::<Seq<char>> };
        let rest = if c.len() > 0 { trim(remove_pattern(input, c)) } else { input };
        let words = tokens(rest);
        if words.len() == 0 {
            if c.len() > 0 {
                Some(InputPartsView { label: None, instruction: None, comment })
            } else {
                None
            }
        } else {
            let labeled = words[0].len() > 0 && words[0].last() == ':';
            let label = if labeled { Some(words[0].filter(|ch: char| ch != ':')) } else { None::<Seq<char>> };
            let others = if labeled { words.drop_first() } else { words };
            let instruction = if others.len() == 0 { None::<Seq<char>> } else { Some(join_space(others)) };
            Some(InputPartsView { label, instruction, comment })
        }
    }
}

fn without_colons(t: &[char]) -> (res: Vec<char>)
    ensures
        res@ == t@.filter(|c: char| c != ':'),
{
    let ghost pred = |c: char| c != ':';
    let mut res: Vec<char> = Vec::new();
    let mut i: usize = 0;
    while i < t.len()
        invariant
            i <= t.len(),
            pred == (|c: char| c != ':'),
            res@ == t@.take(i as int).filter(pred),
        decreases t.len() - i,
    {
        proof {
            reveal_with_fuel(Seq::<_>::filter, 1);
            assert(t@.take(i + 1).drop_last() =~= t@.take(i as int));
        }
        if t[i] != ':' {
            res.push(t[i]);
        }
        i = i + 1;
    }
    assert(t@.take(t.len() as int) =~= t@);
    res
}

/// Splits a program line into its label, instruction and comment.
pub fn input_parts(input: String) -> (res: Option<InputParts>)
    ensures
        match input_parts_spec(input@) {
            None => res is None,
            Some(p) => res matches Some(r) && r@ == p,
        },
{
    let chars = to_chars(input.as_str());
    if chars.len() == 0 {
        return None;
    }
    let comment = get_comment(input.as_str());
    let rest: Vec<char> = match &comment {
        Some(c) => {
            let cc = to_chars(c.as_str());
            let removed = remove_pattern_chars(chars.as_slice(), cc.as_slice());
            trim_exec(removed.as_slice())
        },
        None => chars,
    };
    let words = split_whitespace(rest.as_slice());
    if words.len() == 0 {
        return match comment {
            Some(c) => Some(InputParts { label: None, instruction: None, comment: Some(c) }),
            None => None,
        };
    }
    assert(views(words@)[0] == words@[0]@);
    let first = words[0].as_slice();
    let labeled = first.len() > 0 && first[first.len() - 1] == ':';
    let label = if labeled {
        let l = without_colons(first);
        Some(chars_to_string(l.as_slice()))
    } else {
        None
    };
    let start: usize = if labeled { 1 } else { 0 };
    let mut others: Vec<Vec<char>> = Vec::new();
    let mut k: usize = start;
    while k < words.len()
        invariant
            start <= k <= words.len(),
            views(others@) == views(words@).subrange(start as int, k as int),
        decreases words.len() - k,
    {
        let w = copy_chars(words[k].as_slice());
        let ghost b = others@;
        others.push(w);
        assert(views(others@) =~= views(b).push(w@));
        assert(views(words@).subrange(start as int, k + 1) =~= views(words@).subrange(start as int, k as int).push(
            words@[k as int]@,
        ));
        k = k + 1;
    }
    assert(views(words@).subrange(1, words.len() as int) =~= views(words@).drop_first());
    assert(views(words@).subrange(0, words.len() as int) =~= views(words@));
    let instruction = if others.len() == 0 {
        None
    } else {
        let j = join_space_exec(&others);
        Some(chars_to_string(j.as_slice()))
    };
    Some(InputParts { label, instruction, comment })
}

/// Searches, with a trie of `trie_rs` built from `entries`, the entries that
/// begin with `prefix`: `TrieBuilder::push` for each entry, `build`, and
/// `Trie::predictive_search`, collected as strings. The trie holds each entry
/// once, and the search goes through it depth first with the children of a
/// node in increasing order of their bytes, the exact match first; the
/// result is thus the entries that begin with `prefix`, each once, in
/// increasing order (the order of the UTF-8 bytes, which is that of the
/// characters). Pushing an empty entry panics.
#[verifier::external_body]
fn trie_prefix_search(entries: &Vec<String>, prefix: &str) -> (res: Vec<String>)
    requires
        forall|i: int| 0 <= i < entries.len() ==> (#[trigger] entries@[i])@.len() > 0,
    ensures
        forall|i: int| 0 <= i < res.len() ==> string_views(entries@).contains(#[trigger] res@[i]@) && prefix@.is_prefix_of(res@[i]@),
        forall|i: int| 0 <= i < entries.len() && prefix@.is_prefix_of(#[trigger] entries@[i]@) ==> string_views(res@).contains(entries@[i]@),
        forall|i: int, j: int| 0 <= i < j < res.len() ==> lex_lt(res@[i]@, res@[j]@),
{
    let mut builder: TrieBuilder<u8> = TrieBuilder::new();
    for e in entries {
        builder.push(e.as_str());
    }
    let trie = builder.build();
    trie.predictive_search::<String, _>(prefix.as_bytes()).collect()
}

/// The history items that the custom instruction window offers for the
/// input `input`: with no input, every executed instruction, the latest
/// first; else the executed instructions, without the white space around
/// them, that begin with the input, each once and in increasing order.
pub fn items_to_display(executed_instructions: &Vec<String>, input: &str) -> (res: Vec<String>)
    requires
        forall|i: int| 0 <= i < executed_instructions.len() ==> trim((#[trigger] executed_instructions@[i])@).len() > 0,
    ensures
        input@.len() == 0 ==> string_views(res@) == string_views(executed_instructions@).reverse(),
        input@.len() > 0 ==> {
            let trimmed = string_views(executed_instructions@).map_values(|e: Seq<char>| trim(e));
            &&& forall|i: int| 0 <= i < res.len() ==> trimmed.contains(#[trigger] res@[i]@) && input@.is_prefix_of(res@[i]@)
            &&& forall|e: Seq<char>| #[trigger] trimmed.contains(e) && input@.is_prefix_of(e) ==> string_views(res@).contains(e)
            &&& forall|i: int, j: int| 0 <= i < j < res.len() ==> lex_lt(res@[i]@, res@[j]@)
        },
{
    let mut trimmed: Vec<String> = Vec::new();
    let mut i: usize = 0;
    while i < executed_instructions.len()
        invariant
            i <= executed_instructions.len(),
            string_views(trimmed@) == string_views(executed_instructions@).take(i as int).map_values(|e: Seq<char>| trim(e)),
            forall|k: int| 0 <= k < executed_instructions.len() ==> trim((#[trigger] executed_instructions@[k])@).len() > 0,
        decreases executed_instructions.len() - i,
    {
        let c = to_chars(executed_instructions[i].as_str());
        let t = trim_exec(c.as_slice());
        let s = chars_to_string(t.as_slice());
        let ghost before = trimmed@;
        trimmed.push(s);
        assert(string_views(trimmed@) =~= string_views(before).push(s@));
        assert(string_views(executed_instructions@).take(i + 1).map_values(|e: Seq<char>| trim(e)) =~= string_views(
            executed_instructions@,
        ).take(i as int).map_values(|e: Seq<char>| trim(e)).push(trim(executed_instructions@[i as int]@)));
        i = i + 1;
    }
    let ghost tv = string_views(executed_instructions@).map_values(|e: Seq<char>| trim(e));
    assert(string_views(executed_instructions@).take(executed_instructions.len() as int) =~= string_views(executed_instructions@));
    assert(string_views(trimmed@) == tv);
    assert forall|k: int| 0 <= k < trimmed.len() implies (#[trigger] trimmed@[k])@.len() > 0 by {
        assert(string_views(trimmed@)[k] == trimmed@[k]@);
        assert(tv[k] == trim(executed_instructions@[k]@));
    }
    let input_chars = to_chars(input);
    if input_chars.len() == 0 {
        let mut res: Vec<String> = Vec::new();
        let mut k: usize = executed_instructions.len();
        while k > 0
            invariant
                k <= executed_instructions.len(),
                string_views(res@) == string_views(executed_instructions@).reverse().take(executed_instructions.len() - k),
            decreases k,
        {
            k = k - 1;
            let s = executed_instructions[k].clone();
            let ghost before = res@;
            res.push(s);
            assert(string_views(res@) =~= string_views(before).push(s@));
            assert(string_views(executed_instructions@).reverse().take(executed_instructions.len() - k) =~= string_views(
                executed_instructions@,
            ).reverse().take(executed_instructions.len() - k - 1).push(executed_instructions@[k as int]@));
        }
        assert(string_views(executed_instructions@).reverse().take(executed_instructions.len() as int) =~= string_views(
            executed_instructions@,
        ).reverse());
        return res;
    }
    let res = trie_prefix_search(&trimmed, input);
    res
}

} // verus!
