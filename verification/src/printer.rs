//! The record handed to the external renderer.
//!
//! On every change event the renderer prints one record describing the
//! currently selected notification; its text fields are cut to a bounded
//! number of grapheme clusters so a single notification cannot flood the
//! output line.

use unicode_segmentation::UnicodeSegmentation;
use vstd::prelude::*;

use crate::registry::Registry;

verus! {

/// The change event: one is published to the renderer on every mutation.
pub struct Print;

/// The number of grapheme clusters a rendered text field is cut to.
pub const FIELD_LIMIT: usize = 400;

/// One rendered record: the selected notification's fields (cut to
/// `FIELD_LIMIT` grapheme clusters each), its 1-based position (0 when
/// nothing is selected), the registry length, and whether anything is
/// selected at all.
pub struct PrintRecord {
    pub app_id: String,
    pub summary: String,
    pub body: String,
    pub index: usize,
    pub len: usize,
    pub has: bool,
}

/// The prefix of `s` holding its first `n` grapheme clusters, or all of `s`
/// if it has at most `n` of them.
pub uninterp spec fn grapheme_cut(s: Seq<char>, n: int) -> Seq<char>;

/// Relies on unicode_segmentation's `grapheme_indices`: it yields the
/// grapheme clusters of the string with their byte offsets, so the offset of
/// the `n`-th cluster cuts the string after its first `n` clusters; the
/// clusters depend on the characters alone, each covers at least one of them,
/// and each starts at a character boundary.
#[verifier::external_body]
fn cut_at_grapheme(s: &str, n: usize) -> (r: String)
    ensures
        r@ == grapheme_cut(s@, n as int),
        r@ == s@.take(r@.len() as int),
        n >= s@.len() ==> r@ == s@,
{
    match s.grapheme_indices(true).nth(n) {
        None => s.to_string(),
        Some((idx, _)) => s[..idx].to_string(),
    }
}

/// The prefix of `string` holding its first `length` grapheme clusters: the
/// result is a prefix of `string`, and is all of it whenever `length` is at
/// least the character count.
pub fn limit_graphemes(string: &str, length: usize) -> (r: String)
    ensures
        r@ == grapheme_cut(string@, length as int),
        r@ == string@.take(r@.len() as int),
        length >= string@.len() ==> r@ == string@,
{
    cut_at_grapheme(string, length)
}

impl Registry {
    /// The record the renderer prints for the current state: the selected
    /// entry's fields cut to `FIELD_LIMIT` grapheme clusters, or an empty
    /// record when nothing is selected.
    pub fn render(&self) -> (r: PrintRecord)
        requires
            self.inv(),
        ensures
            r.has == (self.cursor_opt() is Some),
            r.len == self.entries_seq().len(),
            self.cursor_opt() is None ==> {
                &&& r.app_id@ == Seq::<char>::empty()
                &&& r.summary@ == Seq::<char>::empty()
                &&& r.body@ == Seq::<char>::empty()
                &&& r.index == 0
            },
            self.cursor_opt() matches Some(i) ==> {
                let entry = self.entries_seq()[i as int].1;
                &&& r.app_id@ == grapheme_cut(entry.app_name@, FIELD_LIMIT as int)
                &&& r.summary@ == grapheme_cut(entry.summary@, FIELD_LIMIT as int)
                &&& r.body@ == grapheme_cut(entry.body@, FIELD_LIMIT as int)
                &&& r.index == i + 1
            },
    {
        proof {
            self.lemma_cursor_clamped();
        }
        let len = self.len();
        match self.cursor() {
            Some(index) => {
                let entry = &self.get(index).1;
                PrintRecord {
                    app_id: limit_graphemes(entry.app_name.as_str(), FIELD_LIMIT),
                    summary: limit_graphemes(entry.summary.as_str(), FIELD_LIMIT),
                    body: limit_graphemes(entry.body.as_str(), FIELD_LIMIT),
                    index: index + 1,
                    len,
                    has: true,
                }
            },
            None => PrintRecord {
                app_id: String::new(),
                summary: String::new(),
                body: String::new(),
                index: 0,
                len,
                has: false,
            },
        }
    }
}

} // verus!
