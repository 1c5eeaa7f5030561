//! Stripping of inline markup from notification bodies.
//!
//! A body may carry a small fixed set of inline tags, which are removed once
//! at ingestion: the bold/italic/underline markers `<b>`, `<i>`, `<u>` and
//! their closers, hyperlink tags `<a href="...">` and `</a>`, and image tags
//! `<img src="..." alt="...">`, where each quoted part runs to the next `"`
//! that is directly followed by the expected continuation. Text that does not
//! form one of these tags is kept unchanged.

use vstd::prelude::*;

verus! {

/// The first position `q >= from` with `s[q] == c`, if any.
pub open spec fn find_char_from(s: Seq<char>, c: char, from: int) -> Option<int>
    decreases s.len() - from,
{
    if from >= s.len() {
        None
    } else if s[from] == c {
        Some(from)
    } else {
        find_char_from(s, c, from + 1)
    }
}

proof fn lemma_find_char_from_bounds(s: Seq<char>, c: char, from: int)
    requires
        0 <= from,
    ensures
        find_char_from(s, c, from) matches Some(q) ==> from <= q < s.len() && s[q] == c,
    decreases s.len() - from,
{
    if from < s.len() && s[from] != c {
        lemma_find_char_from_bounds(s, c, from + 1);
    }
}

/// Length of a bold/italic/underline marker or a closing tag at the head of
/// `s`: one of `<b>`, `<i>`, `<u>`, `</b>`, `</i>`, `</u>`, `</a>`.
pub open spec fn simple_tag_len(s: Seq<char>) -> Option<int> {
    if s.len() >= 3 && s[0] == '<' && (s[1] == 'b' || s[1] == 'i' || s[1] == 'u') && s[2] == '>' {
        Some(3)
    } else if s.len() >= 4 && s[0] == '<' && s[1] == '/' && (s[2] == 'b' || s[2] == 'i' || s[2]
        == 'u' || s[2] == 'a') && s[3] == '>' {
        Some(4)
    } else {
        None
    }
}

/// `s` begins with the opener `<a href="`.
pub open spec fn anchor_prefix(s: Seq<char>) -> bool {
    &&& s.len() >= 9
    &&& s[0] == '<'
    &&& s[1] == 'a'
    &&& s[2] == ' '
    &&& s[3] == 'h'
    &&& s[4] == 'r'
    &&& s[5] == 'e'
    &&& s[6] == 'f'
    &&& s[7] == '='
    &&& s[8] == '"'
}

/// Length of a hyperlink tag `<a href="...">` at the head of `s`: the quoted
/// part ends at the first `"` after the opener, which must be followed by `>`.
pub open spec fn anchor_tag_len(s: Seq<char>) -> Option<int> {
    if anchor_prefix(s) {
        match find_char_from(s, '"', 9) {
            Some(q) => if q + 1 < s.len() && s[q + 1] == '>' {
                Some(q + 2)
            } else {
                None
            },
            None => None,
        }
    } else {
        None
    }
}

/// `s` begins with the opener `<img src="`.
pub open spec fn image_prefix(s: Seq<char>) -> bool {
    &&& s.len() >= 10
    &&& s[0] == '<'
    &&& s[1] == 'i'
    &&& s[2] == 'm'
    &&& s[3] == 'g'
    &&& s[4] == ' '
    &&& s[5] == 's'
    &&& s[6] == 'r'
    &&& s[7] == 'c'
    &&& s[8] == '='
    &&& s[9] == '"'
}

/// The `"` at position `q` is directly followed by ` alt="`.
pub open spec fn image_alt_at(s: Seq<char>, q: int) -> bool {
    &&& q + 6 < s.len()
    &&& s[q + 1] == ' '
    &&& s[q + 2] == 'a'
    &&& s[q + 3] == 'l'
    &&& s[q + 4] == 't'
    &&& s[q + 5] == '='
    &&& s[q + 6] == '"'
}

/// Length of an image tag `<img src="..." alt="...">` at the head of `s`.
pub open spec fn image_tag_len(s: Seq<char>) -> Option<int> {
    if image_prefix(s) {
        match find_char_from(s, '"', 10) {
            Some(q1) => if image_alt_at(s, q1) {
                match find_char_from(s, '"', q1 + 7) {
                    Some(q2) => if q2 + 1 < s.len() && s[q2 + 1] == '>' {
                        Some(q2 + 2)
                    } else {
                        None
                    },
                    None => None,
                }
            } else {
                None
            },
            None => None,
        }
    } else {
        None
    }
}

/// Length of the markup tag at the head of `s`, if there is one.
pub open spec fn tag_len(s: Seq<char>) -> Option<int> {
    if simple_tag_len(s) is Some {
        simple_tag_len(s)
    } else if anchor_tag_len(s) is Some {
        anchor_tag_len(s)
    } else {
        image_tag_len(s)
    }
}

proof fn lemma_tag_len_bounds(s: Seq<char>)
    ensures
        tag_len(s) matches Some(n) ==> 1 <= n <= s.len(),
{
    lemma_find_char_from_bounds(s, '"', 9);
    lemma_find_char_from_bounds(s, '"', 10);
    if image_prefix(s) {
        if let Some(q1) = find_char_from(s, '"', 10) {
            lemma_find_char_from_bounds(s, '"', q1 + 7);
        }
    }
}

/// `s` with every markup tag removed: scanning left to right, a tag starting
/// at the current position is dropped whole, and any other character is kept.
pub open spec fn strip_tags(s: Seq<char>) -> Seq<char>
    decreases s.len(),
    via strip_tags_decreases
{
    if s.len() == 0 {
        Seq::empty()
    } else {
        match tag_len(s) {
            Some(n) => strip_tags(s.skip(n)),
            None => seq![s[0]] + strip_tags(s.skip(1)),
        }
    }
}

#[via_fn]
proof fn strip_tags_decreases(s: Seq<char>) {
    lemma_tag_len_bounds(s);
}

/// The first position `q` with `from <= q < s@.len()` holding `'"'`, if any.
fn find_quote(s: &str, from: usize) -> (r: Option<usize>)
    requires
        from <= s@.len(),
    ensures
        r is Some <==> find_char_from(s@, '"', from as int) is Some,
        r matches Some(q) ==> find_char_from(s@, '"', from as int) == Some(q as int),
{
    let n = s.unicode_len();
    let mut i: usize = from;
    while i < n
        invariant
            from <= i <= n,
            n == s@.len(),
            find_char_from(s@, '"', from as int) == find_char_from(s@, '"', i as int),
        decreases n - i,
    {
        if s.get_char(i) == '"' {
            return Some(i);
        }
        i = i + 1;
    }
    None
}

/// Length of the markup tag starting at position `i` of `s`, if there is one;
/// agrees with `tag_len` on the suffix of `s` from `i`.
fn tag_len_at(s: &str, i: usize) -> (r: Option<usize>)
    requires
        i <= s@.len(),
    ensures
        r is Some <==> tag_len(s@.skip(i as int)) is Some,
        r matches Some(n) ==> tag_len(s@.skip(i as int)) == Some(n as int),
{
    let n = s.unicode_len();
    let ghost suf = s@.skip(i as int);
    assert(suf.len() == n - i);
    assert(forall|k: int| 0 <= k < suf.len() ==> suf[k] == s@[i + k]);
    if n - i >= 3 && s.get_char(i) == '<' {
        let c1 = s.get_char(i + 1);
        if (c1 == 'b' || c1 == 'i' || c1 == 'u') && s.get_char(i + 2) == '>' {
            return Some(3);
        }
        if c1 == '/' && n - i >= 4 {
            let c2 = s.get_char(i + 2);
            if (c2 == 'b' || c2 == 'i' || c2 == 'u' || c2 == 'a') && s.get_char(i + 3) == '>' {
                return Some(4);
            }
        }
    }
    assert(simple_tag_len(suf) is None);
    if n - i >= 9 && s.get_char(i) == '<' && s.get_char(i + 1) == 'a' && s.get_char(i + 2) == ' '
        && s.get_char(i + 3) == 'h' && s.get_char(i + 4) == 'r' && s.get_char(i + 5) == 'e'
        && s.get_char(i + 6) == 'f' && s.get_char(i + 7) == '=' && s.get_char(i + 8) == '"' {
        assert(anchor_prefix(suf));
        proof {
            lemma_find_char_from_shift(s@, '"', i as int, 9);
        }
        if let Some(q) = find_quote(s, i + 9) {
            proof {
                lemma_find_char_from_bounds(s@, '"', i + 9);
            }
            let ghost qs = q - i;
            assert(find_char_from(suf, '"', 9) == Some(qs));
            if q + 1 < n && s.get_char(q + 1) == '>' {
                assert(anchor_tag_len(suf) == Some(qs + 2));
                return Some(q - i + 2);
            }
            assert(anchor_tag_len(suf) is None);
        } else {
            assert(anchor_tag_len(suf) is None);
        }
        return None;
    }
    assert(anchor_tag_len(suf) is None);
    if n - i >= 10 && s.get_char(i) == '<' && s.get_char(i + 1) == 'i' && s.get_char(i + 2) == 'm'
        && s.get_char(i + 3) == 'g' && s.get_char(i + 4) == ' ' && s.get_char(i + 5) == 's'
        && s.get_char(i + 6) == 'r' && s.get_char(i + 7) == 'c' && s.get_char(i + 8) == '='
        && s.get_char(i + 9) == '"' {
        assert(image_prefix(suf));
        proof {
            lemma_find_char_from_shift(s@, '"', i as int, 10);
        }
        if let Some(q1) = find_quote(s, i + 10) {
            proof {
                lemma_find_char_from_bounds(s@, '"', i + 10);
            }
            let ghost q1s = q1 - i;
            assert(find_char_from(suf, '"', 10) == Some(q1s));
            if n - q1 >= 7 && s.get_char(q1 + 1) == ' ' && s.get_char(q1 + 2) == 'a' && s.get_char(
                q1 + 3,
            ) == 'l' && s.get_char(q1 + 4) == 't' && s.get_char(q1 + 5) == '=' && s.get_char(
                q1 + 6,
            ) == '"' {
                assert(image_alt_at(suf, q1s));
                proof {
                    lemma_find_char_from_shift(s@, '"', i as int, q1s + 7);
                }
                if let Some(q2) = find_quote(s, q1 + 7) {
                    proof {
                        lemma_find_char_from_bounds(s@, '"', q1 + 7);
                    }
                    let ghost q2s = q2 - i;
                    assert(find_char_from(suf, '"', q1s + 7) == Some(q2s));
                    if q2 + 1 < n && s.get_char(q2 + 1) == '>' {
                        assert(image_tag_len(suf) == Some(q2s + 2));
                        return Some(q2 - i + 2);
                    }
                    assert(image_tag_len(suf) is None);
                } else {
                    assert(image_tag_len(suf) is None);
                }
            } else {
                assert(image_alt_at(suf, q1s) == false);
            }
        } else {
            assert(image_tag_len(suf) is None);
        }
        return None;
    }
    assert(image_prefix(suf) == false);
    None
}

/// Finding a character in `s` from `i + from` is finding it in the suffix of
/// `s` at `i`, shifted by `i`.
proof fn lemma_find_char_from_shift(s: Seq<char>, c: char, i: int, from: int)
    requires
        0 <= i,
        0 <= from,
        i + from <= s.len(),
    ensures
        match find_char_from(s, c, i + from) {
            Some(q) => find_char_from(s.skip(i), c, from) == Some(q - i),
            None => find_char_from(s.skip(i), c, from) is None,
        },
    decreases s.len() - i - from,
{
    if i + from < s.len() {
        assert(s.skip(i)[from] == s[i + from]);
        if s[i + from] != c {
            lemma_find_char_from_shift(s, c, i, from + 1);
        }
    }
}

/// `s` with the inline markup tags removed, as `strip_tags` describes.
pub fn strip_markup(s: &str) -> (r: String)
    ensures
        r@ == strip_tags(s@),
{
    let n = s.unicode_len();
    let mut out = String::new();
    let mut i: usize = 0;
    proof {
        assert(s@.skip(0) =~= s@);
        assert(out@ + strip_tags(s@.skip(0)) =~= strip_tags(s@));
    }
    while i < n
        invariant
            i <= n,
            n == s@.len(),
            out@ + strip_tags(s@.skip(i as int)) == strip_tags(s@),
        decreases n - i,
    {
        let ghost suf = s@.skip(i as int);
        match tag_len_at(s, i) {
            Some(t) => {
                proof {
                    lemma_tag_len_bounds(suf);
                    assert(suf.skip(t as int) =~= s@.skip(i + t));
                }
                i = i + t;
            },
            None => {
                let piece = s.substring_char(i, i + 1);
                out.append(piece);
                proof {
                    assert(piece@ =~= seq![s@[i as int]]);
                    assert(strip_tags(suf) == seq![suf[0]] + strip_tags(suf.skip(1)));
                    assert(suf.skip(1) =~= s@.skip(i + 1));
                    assert(out@ + strip_tags(s@.skip(i + 1)) =~= strip_tags(s@));
                }
                i = i + 1;
            },
        }
    }
    proof {
        assert(s@.skip(n as int) =~= Seq::<char>::empty());
        assert(out@ + strip_tags(Seq::<char>::empty()) =~= out@);
    }
    out
}

} // verus!
