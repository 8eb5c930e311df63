//! The theme picker's state: the filter input with its cursor, the list
//! selection, and the fuzzy-matched ordering of the scanned themes. The
//! terminal loop, the file scanning and the config rewriting around it stay
//! outside; they hand in plain theme names and take back an ordered list.

use vstd::prelude::*;
use vstd::multiset::Multiset;
use vstd::string::{StrSliceExecFns, StringExecFns};
use crate::text::ends_with_chars;
use fuzzy_matcher::FuzzyMatcher;

verus! {

/// The file suffix a theme name carries.
pub open spec fn toml_suffix() -> Seq<char> {
    seq!['.', 't', 'o', 'm', 'l']
}

/// A theme's display name: the file name without its suffix.
pub open spec fn stem_of(s: Seq<char>) -> Seq<char> {
    if toml_suffix().is_suffix_of(s) {
        s.take(s.len() - 5)
    } else {
        s
    }
}

/// The score `SkimMatcherV2` under its default configuration gives a
/// candidate against a filter pattern: `None` when the candidate does not
/// match, a higher score for a better match; a function of the two texts
/// alone.
pub uninterp spec fn fuzzy_score(choice: Seq<char>, pattern: Seq<char>) -> Option<i64>;

/// Relies on `fuzzy_matcher`'s `SkimMatcherV2::fuzzy_match` under the
/// default configuration: deterministic in the two texts.
#[verifier::external_body]
fn fuzzy_score_of(choice: &str, pattern: &str) -> (r: Option<i64>)
    ensures
        r == fuzzy_score(choice@, pattern@),
{
    fuzzy_matcher::skim::SkimMatcherV2::default().fuzzy_match(choice, pattern)
}

/// Relies on `String: FromIterator<char>`: the text holds exactly the given
/// characters.
#[verifier::external_body]
fn chars_to_string(cs: &Vec<char>) -> (r: String)
    ensures
        r@ == cs@,
{
    cs.iter().collect()
}

/// Whether a theme name passes the filter.
pub open spec fn matches_filter(name: String, pattern: Seq<char>) -> bool {
    fuzzy_score(stem_of(name@), pattern) is Some
}

/// The filter as a predicate over names.
pub open spec fn match_pred(pattern: Seq<char>) -> spec_fn(String) -> bool {
    |n: String| matches_filter(n, pattern)
}

/// The score of a matching name; zero for a non-matching one.
pub open spec fn score_value(name: String, pattern: Seq<char>) -> int {
    match fuzzy_score(stem_of(name@), pattern) {
        Some(v) => v as int,
        None => 0,
    }
}

/// A scored entry is consistent: its score is the one its name earns.
pub open spec fn score_ok(p: (i64, String), pattern: Seq<char>) -> bool {
    fuzzy_score(stem_of(p.1@), pattern) == Some(p.0)
}

/// The names of a scored sequence, in order.
pub open spec fn names_of(s: Seq<(i64, String)>) -> Seq<String> {
    s.map_values(|p: (i64, String)| p.1)
}

/// Strips the theme-file suffix from a name, if it carries one.
pub fn theme_stem(name: &str) -> (r: String)
    ensures
        r@ == stem_of(name@),
{
    let is_toml: bool = ends_with_chars(name, ".toml");
    proof {
        reveal_strlit(".toml");
        assert(".toml"@ =~= toml_suffix());
    }
    if is_toml {
        let len: usize = name.unicode_len();
        let sub = name.substring_char(0, len - 5);
        proof {
            assert(sub@ =~= stem_of(name@));
        }
        sub.to_owned()
    } else {
        name.to_owned()
    }
}

/// A key press, as the picker's editor understands it.
pub enum EditKey {
    Letter(char),
    Enter,
    Backspace,
    Up,
    Down,
    Escape,
    Other,
}

/// The theme picker's state.
pub struct ThemeChanger {
    themes: Vec<String>,
    input: Vec<char>,
    character_index: usize,
    selected: usize,
    exit: bool,
    restore_original: bool,
}

impl ThemeChanger {
    /// The scanned theme file names, as handed in.
    pub closed spec fn theme_names(&self) -> Seq<String> {
        self.themes@
    }

    /// The filter field's characters.
    pub closed spec fn input_chars(&self) -> Seq<char> {
        self.input@
    }

    /// The cursor position in the filter field, in characters.
    pub closed spec fn cursor(&self) -> usize {
        self.character_index
    }

    /// The selected row of the theme list.
    pub closed spec fn selection(&self) -> usize {
        self.selected
    }

    /// Whether the picker should leave its loop.
    pub closed spec fn exited(&self) -> bool {
        self.exit
    }

    /// Whether the original configuration must be written back on leaving.
    pub closed spec fn restores(&self) -> bool {
        self.restore_original
    }

    /// The cursor never leaves the filter text.
    pub open spec fn wf(&self) -> bool {
        self.cursor() <= self.input_chars().len()
    }

    /// A fresh picker over the scanned theme names.
    pub fn new(themes: Vec<String>) -> (t: Self)
        ensures
            t.wf(),
            t.theme_names() == themes@,
            t.input_chars() == Seq::<char>::empty(),
            t.cursor() == 0,
            t.selection() == 0,
            !t.exited(),
            !t.restores(),
    {
        ThemeChanger {
            themes,
            input: Vec::new(),
            character_index: 0,
            selected: 0,
            exit: false,
            restore_original: false,
        }
    }

    /// The filter text, for rendering and for matching.
    pub fn input_text(&self) -> (r: String)
        ensures
            r@ == self.input_chars(),
    {
        chars_to_string(&self.input)
    }

    /// Clamps a cursor position into the filter text.
    pub fn clamp_cursor(&self, pos: usize) -> (r: usize)
        ensures
            r == if pos <= self.input_chars().len() {
                pos as int
            } else {
                self.input_chars().len() as int
            },
    {
        if pos <= self.input.len() {
            pos
        } else {
            self.input.len()
        }
    }

    /// Moves the cursor one character left, stopping at the start.
    pub fn move_cursor_left(&mut self)
        requires
            old(self).wf(),
        ensures
            final(self).wf(),
            final(self).cursor() == if old(self).cursor() > 0 {
                old(self).cursor() - 1
            } else {
                0int
            },
            unchanged_but_cursor(*old(self), *final(self)),
    {
        let moved = if self.character_index > 0 {
            self.character_index - 1
        } else {
            0
        };
        self.character_index = self.clamp_cursor(moved);
    }

    /// Moves the cursor one character right, stopping at the end.
    pub fn move_cursor_right(&mut self)
        requires
            old(self).wf(),
        ensures
            final(self).wf(),
            final(self).cursor() == if old(self).cursor() < old(self).input_chars().len() {
                old(self).cursor() + 1
            } else {
                old(self).input_chars().len() as int
            },
            unchanged_but_cursor(*old(self), *final(self)),
    {
        let moved = if self.character_index < self.input.len() {
            self.character_index + 1
        } else {
            self.input.len()
        };
        self.character_index = self.clamp_cursor(moved);
    }

    /// Inserts the typed character at the cursor and moves the cursor
    /// right.
    pub fn enter_char(&mut self, c: char)
        requires
            old(self).wf(),
            old(self).input_chars().len() < usize::MAX,
        ensures
            final(self).wf(),
            final(self).input_chars() == old(self).input_chars().insert(
                old(self).cursor() as int,
                c,
            ),
            final(self).cursor() == old(self).cursor() + 1,
            unchanged_browse(*old(self), *final(self)),
    {
        let index = self.character_index;
        self.input.insert(index, c);
        self.move_cursor_right();
    }

    /// Removes the character before the cursor, if any, and moves the
    /// cursor left.
    pub fn delete_char(&mut self)
        requires
            old(self).wf(),
        ensures
            final(self).wf(),
            old(self).cursor() == 0 ==> *final(self) == *old(self),
            old(self).cursor() > 0 ==> final(self).input_chars() == old(self).input_chars().remove(
                old(self).cursor() - 1,
            ) && final(self).cursor() == old(self).cursor() - 1,
            unchanged_browse(*old(self), *final(self)),
    {
        if self.character_index == 0 {
            return ;
        }
        let index = self.character_index - 1;
        self.input.remove(index);
        self.character_index = index;
    }

    /// Selects the previous row, stopping at the first.
    pub fn select_previous(&mut self)
        ensures
            final(self).selection() == if old(self).selection() > 0 {
                old(self).selection() - 1
            } else {
                0int
            },
            unchanged_but_selection(*old(self), *final(self)),
    {
        if self.selected > 0 {
            self.selected = self.selected - 1;
        }
    }

    /// Selects the next row; the list view clamps it when drawing.
    pub fn select_next(&mut self)
        ensures
            final(self).selection() == if old(self).selection() < usize::MAX {
                old(self).selection() + 1
            } else {
                usize::MAX as int
            },
            unchanged_but_selection(*old(self), *final(self)),
    {
        if self.selected < usize::MAX {
            self.selected = self.selected + 1;
        }
    }

    /// Records the intent to leave; when `restore` is set, the caller must
    /// write the original configuration back.
    pub fn exit(&mut self, restore: bool)
        ensures
            final(self).exited(),
            final(self).restores() == restore,
            final(self).theme_names() == old(self).theme_names(),
            final(self).input_chars() == old(self).input_chars(),
            final(self).cursor() == old(self).cursor(),
            final(self).selection() == old(self).selection(),
    {
        self.exit = true;
        self.restore_original = restore;
    }

    /// The dispatch of one key press, as the event loop decides it.
    pub fn handle_key(&mut self, key: EditKey)
        requires
            old(self).wf(),
            old(self).input_chars().len() < usize::MAX,
        ensures
            final(self).wf(),
            key_step(*old(self), *final(self), key),
    {
        match key {
            EditKey::Letter(c) => self.enter_char(c),
            EditKey::Enter => self.exit(false),
            EditKey::Backspace => self.delete_char(),
            EditKey::Up => self.select_previous(),
            EditKey::Down => self.select_next(),
            EditKey::Escape => self.exit(true),
            EditKey::Other => {},
        }
    }

    /// Whether the picker should leave its loop.
    pub fn is_exited(&self) -> (r: bool)
        ensures
            r == self.exited(),
    {
        self.exit
    }

    /// Whether the original configuration must be written back on leaving.
    pub fn wants_restore(&self) -> (r: bool)
        ensures
            r == self.restores(),
    {
        self.restore_original
    }

    /// The theme whose row is selected in the given matched list, if the
    /// selection is in bounds.
    pub fn selected_theme<'a>(&self, items: &'a Vec<String>) -> (r: Option<&'a String>)
        ensures
            self.selection() < items@.len() ==> r == Some(&items@[self.selection() as int]),
            self.selection() >= items@.len() ==> r is None,
    {
        if self.selected < items.len() {
            Some(&items[self.selected])
        } else {
            None
        }
    }

    /// The themes that pass the filter, best score first: exactly the
    /// matching names (as a multiset), each matching the filter, ordered by
    /// falling score.
    pub fn get_matched_themes(&self) -> (r: Vec<String>)
        ensures
            r@.to_multiset() == self.theme_names().filter(
                match_pred(self.input_chars()),
            ).to_multiset(),
            forall|i: int|
                0 <= i < r@.len() ==> matches_filter(#[trigger] r@[i], self.input_chars()),
            forall|i: int, j: int|
                0 <= i <= j < r@.len() ==> score_value(r@[i], self.input_chars()) >= score_value(
                    r@[j],
                    self.input_chars(),
                ),
    {
        broadcast use vstd::seq_lib::group_to_multiset_ensures;

        let pattern: String = chars_to_string(&self.input);
        let ghost pat = self.input@;
        let ghost pred = match_pred(pat);
        let mut scored: Vec<(i64, String)> = Vec::new();
        let mut i: usize = 0;
        while i < self.themes.len()
            invariant
                i <= self.themes@.len(),
                pattern@ == pat,
                pat == self.input@,
                pred == match_pred(pat),
                names_of(scored@) == self.themes@.take(i as int).filter(pred),
                forall|k: int| 0 <= k < scored@.len() ==> score_ok(#[trigger] scored@[k], pat),
            decreases self.themes@.len() - i,
        {
            let ghost prev = scored@;
            let stem = theme_stem(self.themes[i].as_str());
            proof {
                reveal(Seq::filter);
                assert(self.themes@.take(i + 1).drop_last() =~= self.themes@.take(i as int));
                assert(self.themes@.take(i + 1).last() == self.themes@[i as int]);
            }
            match fuzzy_score_of(stem.as_str(), pattern.as_str()) {
                Some(sc) => {
                    scored.push((sc, self.themes[i].clone()));
                    proof {
                        assert(names_of(scored@) =~= names_of(prev).push(self.themes@[i as int]));
                    }
                },
                None => {},
            }
            i = i + 1;
        }
        proof {
            assert(self.themes@.take(self.themes@.len() as int) =~= self.themes@);
        }
        // Sort by extracting the best-scored entry first.
        let ghost matched_names = names_of(scored@);
        let mut out_pairs: Vec<(i64, String)> = Vec::new();
        while scored.len() > 0
            invariant
                pat == self.input@,
                matched_names == self.theme_names().filter(match_pred(pat)),
                names_of(out_pairs@).to_multiset().add(names_of(scored@).to_multiset())
                    == matched_names.to_multiset(),
                forall|k: int| 0 <= k < scored@.len() ==> score_ok(#[trigger] scored@[k], pat),
                forall|k: int| 0 <= k < out_pairs@.len() ==> score_ok(#[trigger] out_pairs@[k], pat),
                forall|a: int, b: int|
                    0 <= a <= b < out_pairs@.len() ==> out_pairs@[a].0 >= out_pairs@[b].0,
                forall|a: int, b: int|
                    0 <= a < out_pairs@.len() && 0 <= b < scored@.len() ==> out_pairs@[a].0
                        >= scored@[b].0,
            decreases scored@.len(),
        {
            let mut best: usize = 0;
            let mut j: usize = 1;
            while j < scored.len()
                invariant
                    scored@.len() > 0,
                    best < scored@.len(),
                    1 <= j <= scored@.len(),
                    forall|k: int| 0 <= k < j ==> scored@[best as int].0 >= scored@[k].0,
                decreases scored@.len() - j,
            {
                // on a tie the later entry wins, as reversing a stable
                // ascending sort would order it
                if scored[j].0 >= scored[best].0 {
                    best = j;
                }
                j = j + 1;
            }
            let ghost before = scored@;
            let ghost chosen = scored@[best as int];
            let p = scored.remove(best);
            proof {
                broadcast use vstd::seq_lib::group_to_multiset_ensures;
                broadcast use vstd::multiset::group_multiset_axioms;

                let nb = names_of(before);
                assert(nb.remove(best as int) =~= names_of(before.remove(best as int)));
                assert(nb[best as int] == chosen.1);
                assert(nb.remove(best as int).to_multiset() =~= nb.to_multiset().remove(
                    chosen.1,
                ));
                assert(names_of(scored@).to_multiset() == nb.to_multiset().remove(chosen.1));
                assert(nb.contains(chosen.1));
                assert(nb.to_multiset().count(chosen.1) > 0);
                assert forall|k: int| 0 <= k < scored@.len() implies score_ok(
                    #[trigger] scored@[k],
                    pat,
                ) by {
                    if k < best {
                        assert(scored@[k] == before[k]);
                    } else {
                        assert(scored@[k] == before[k + 1]);
                    }
                }
            }
            let ghost out_before = out_pairs@;
            out_pairs.push(p);
            proof {
                broadcast use vstd::seq_lib::group_to_multiset_ensures;
                broadcast use vstd::multiset::group_multiset_axioms;

                let no = names_of(out_before);
                assert(names_of(out_pairs@) =~= no.push(chosen.1));
                assert(no.push(chosen.1).to_multiset() =~= no.to_multiset().insert(chosen.1));
                assert(names_of(out_pairs@).to_multiset() == no.to_multiset().insert(chosen.1));
                assert(names_of(out_pairs@).to_multiset().add(names_of(scored@).to_multiset())
                    =~= matched_names.to_multiset());
                assert forall|a: int, b: int|
                    0 <= a < out_pairs@.len() && 0 <= b < scored@.len() implies out_pairs@[a].0
                    >= scored@[b].0 by {
                    if b < best {
                        assert(scored@[b] == before[b]);
                    } else {
                        assert(scored@[b] == before[b + 1]);
                    }
                    if a < out_pairs@.len() - 1 {
                        assert(out_pairs@[a] == out_before[a]);
                    }
                }
            }
        }
        proof {
            assert(names_of(scored@).to_multiset() =~= Multiset::<String>::empty());
            assert(names_of(out_pairs@).to_multiset() == matched_names.to_multiset());
        }
        // Project the ordered names out.
        let mut names: Vec<String> = Vec::new();
        let mut k: usize = 0;
        while k < out_pairs.len()
            invariant
                pat == self.input@,
                k == names@.len(),
                k <= out_pairs@.len(),
                forall|t: int| 0 <= t < k ==> names@[t] == out_pairs@[t].1,
                matched_names == self.theme_names().filter(match_pred(pat)),
                names_of(out_pairs@).to_multiset() == matched_names.to_multiset(),
                forall|t: int| 0 <= t < out_pairs@.len() ==> score_ok(#[trigger] out_pairs@[t], pat),
                forall|a: int, b: int|
                    0 <= a <= b < out_pairs@.len() ==> out_pairs@[a].0 >= out_pairs@[b].0,
            decreases out_pairs@.len() - k,
        {
            let q = out_pairs[k].1.clone();
            names.push(q);
            k = k + 1;
        }
        proof {
            assert(names@ =~= names_of(out_pairs@));
        }
        names
    }
}

/// Everything but the cursor stands still.
pub open spec fn unchanged_but_cursor(prev: ThemeChanger, cur: ThemeChanger) -> bool {
    &&& cur.theme_names() == prev.theme_names()
    &&& cur.input_chars() == prev.input_chars()
    &&& cur.selection() == prev.selection()
    &&& cur.exited() == prev.exited()
    &&& cur.restores() == prev.restores()
}

/// Everything but the filter field stands still.
pub open spec fn unchanged_browse(prev: ThemeChanger, cur: ThemeChanger) -> bool {
    &&& cur.theme_names() == prev.theme_names()
    &&& cur.selection() == prev.selection()
    &&& cur.exited() == prev.exited()
    &&& cur.restores() == prev.restores()
}

/// Everything but the selection stands still.
pub open spec fn unchanged_but_selection(prev: ThemeChanger, cur: ThemeChanger) -> bool {
    &&& cur.theme_names() == prev.theme_names()
    &&& cur.input_chars() == prev.input_chars()
    &&& cur.cursor() == prev.cursor()
    &&& cur.exited() == prev.exited()
    &&& cur.restores() == prev.restores()
}

/// The dispatch of one key press: typing edits the filter, the arrows move
/// the selection, enter applies and leaves, escape leaves restoring the
/// original, anything else is ignored.
pub open spec fn key_step(prev: ThemeChanger, cur: ThemeChanger, key: EditKey) -> bool {
    match key {
        EditKey::Letter(c) => {
            &&& cur.input_chars() == prev.input_chars().insert(prev.cursor() as int, c)
            &&& cur.cursor() == prev.cursor() + 1
            &&& unchanged_browse(prev, cur)
        },
        EditKey::Enter => {
            &&& cur.exited()
            &&& !cur.restores()
            &&& cur.theme_names() == prev.theme_names()
            &&& cur.input_chars() == prev.input_chars()
            &&& cur.cursor() == prev.cursor()
            &&& cur.selection() == prev.selection()
        },
        EditKey::Backspace => {
            &&& (prev.cursor() == 0 ==> cur == prev)
            &&& (prev.cursor() > 0 ==> cur.input_chars() == prev.input_chars().remove(
                prev.cursor() - 1,
            ) && cur.cursor() == prev.cursor() - 1)
            &&& unchanged_browse(prev, cur)
        },
        EditKey::Up => {
            &&& cur.selection() == if prev.selection() > 0 {
                prev.selection() - 1
            } else {
                0int
            }
            &&& unchanged_but_selection(prev, cur)
        },
        EditKey::Down => {
            &&& cur.selection() == if prev.selection() < usize::MAX {
                prev.selection() + 1
            } else {
                usize::MAX as int
            }
            &&& unchanged_but_selection(prev, cur)
        },
        EditKey::Escape => {
            &&& cur.exited()
            &&& cur.restores()
            &&& cur.theme_names() == prev.theme_names()
            &&& cur.input_chars() == prev.input_chars()
            &&& cur.cursor() == prev.cursor()
            &&& cur.selection() == prev.selection()
        },
        EditKey::Other => cur == prev,
    }
}

} // verus!
