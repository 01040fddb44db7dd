//! Elements of a page that match a selector, as `crabquery` finds them, and
//! the test of a selector that comes before.

use vstd::prelude::*;
use crabquery::{Document, Element};

verus! {

/// An HTML document as `crabquery` holds it. Nothing of its inside is
/// known here.
#[verifier::external_type_specification]
#[verifier::external_body]
pub struct ExDocument(crabquery::Document);

/// An element of a document as `crabquery` hands it out. Nothing of its
/// inside is known here.
#[verifier::external_type_specification]
#[verifier::external_body]
pub struct ExElement(crabquery::Element);

/// Whether `c` is white space, by which a selector is split into tokens.
pub open spec fn is_space(c: char) -> bool {
    ||| '\u{9}' <= c <= '\u{d}'
    ||| c == ' '
    ||| c == '\u{85}'
    ||| c == '\u{a0}'
    ||| c == '\u{1680}'
    ||| '\u{2000}' <= c <= '\u{200a}'
    ||| c == '\u{2028}'
    ||| c == '\u{2029}'
    ||| c == '\u{202f}'
    ||| c == '\u{205f}'
    ||| c == '\u{3000}'
}

/// Whether `c` is white space.
pub fn char_is_space(c: char) -> (space: bool)
    ensures
        space == is_space(c),
{
    ('\u{9}' <= c && c <= '\u{d}') || c == ' ' || c == '\u{85}' || c == '\u{a0}' || c
        == '\u{1680}' || ('\u{2000}' <= c && c <= '\u{200a}') || c == '\u{2028}' || c
        == '\u{2029}' || c == '\u{202f}' || c == '\u{205f}' || c == '\u{3000}'
}

/// The characters of `text`, in their order.
pub fn chars_of(text: &str) -> (chars: Vec<char>)
    ensures
        chars@ == text@,
{
    let mut chars: Vec<char> = Vec::new();
    for c in iter: text.chars()
        invariant
            iter.seq() == text@,
            chars@ == text@.take(iter.index() as int),
    {
        chars.push(c);
        assert(text@.take(iter.index() + 1) =~= text@.take(iter.index() as int).push(c));
    }
    assert(text@.take(text@.len() as int) =~= text@);
    chars
}

/// Whether `c` ends a part of a token: a tag, a class, an id or a test of
/// an attribute.
pub open spec fn ends_part(c: char) -> bool {
    c == '#' || c == '.' || c == '[' || c == ']'
}

/// Whether the characters `from..to` of `s` are a token: a longest run
/// without white space.
pub open spec fn is_token(s: Seq<char>, from: int, to: int) -> bool {
    &&& 0 <= from < to <= s.len()
    &&& (from == 0 || is_space(s[from - 1]))
    &&& (to == s.len() || is_space(s[to]))
    &&& forall|k: int| from <= k < to ==> !is_space(#[trigger] s[k])
}

/// Whether a test of an attribute opens at `open` and is still without `=`
/// just before `to`.
pub open spec fn key_runs(s: Seq<char>, open: int, to: int) -> bool {
    &&& s[open] == '['
    &&& forall|k: int| open < k < to ==> !ends_part(#[trigger] s[k]) && s[k] != '='
}

/// Whether the test of an attribute that opens at `open` has its first `=`
/// at `eq`, after a key that the matcher cannot take: an empty one, or one
/// whose last character is not ASCII.
pub open spec fn key_refused(s: Seq<char>, open: int, eq: int) -> bool {
    &&& 0 <= open < eq < s.len()
    &&& s[eq] == '='
    &&& key_runs(s, open, eq)
    &&& (eq == open + 1 || s[eq - 1] > '\u{7f}')
}

/// Whether the matcher cannot take the token `from..to` of `s`. A token
/// that holds `>` stands for "direct child" whatever else it holds, and is
/// taken.
pub open spec fn token_refused(s: Seq<char>, from: int, to: int) -> bool {
    &&& forall|k: int| from <= k < to ==> #[trigger] s[k] != '>'
    &&& exists|open: int, eq: int| from <= open && eq < to && #[trigger] key_refused(s, open, eq)
}

/// Whether the matcher can take the selector `s`: it can take each of its
/// tokens.
pub open spec fn selector_supported(s: Seq<char>) -> bool {
    forall|from: int, to: int| #[trigger] is_token(s, from, to) ==> !token_refused(s, from, to)
}

/// Where the token that starts at `from` ends.
fn token_end(chars: &Vec<char>, from: usize) -> (to: usize)
    requires
        from < chars@.len(),
        !is_space(chars@[from as int]),
    ensures
        from < to <= chars@.len(),
        forall|k: int| from <= k < to ==> !is_space(#[trigger] chars@[k]),
        to == chars@.len() || is_space(chars@[to as int]),
{
    let len = chars.len();
    let mut to = from + 1;
    while to < len && !char_is_space(chars[to])
        invariant
            from < to <= chars@.len(),
            len == chars@.len(),
            forall|k: int| from <= k < to ==> !is_space(#[trigger] chars@[k]),
        decreases chars@.len() - to,
    {
        to = to + 1;
    }
    to
}

/// Whether `>` stands among the characters `from..to`.
fn has_child_mark(chars: &Vec<char>, from: usize, to: usize) -> (found: bool)
    requires
        from <= to <= chars@.len(),
    ensures
        found == !(forall|k: int| from <= k < to ==> #[trigger] chars@[k] != '>'),
{
    let mut k = from;
    while k < to
        invariant
            from <= k <= to <= chars@.len(),
            forall|j: int| from <= j < k ==> #[trigger] chars@[j] != '>',
        decreases to - k,
    {
        if chars[k] == '>' {
            return true;
        }
        k = k + 1;
    }
    false
}

/// Whether the matcher cannot take the token `from..to`.
fn token_is_refused(chars: &Vec<char>, from: usize, to: usize) -> (refused: bool)
    requires
        from <= to <= chars@.len(),
    ensures
        refused == token_refused(chars@, from as int, to as int),
{
    if has_child_mark(chars, from, to) {
        return false;
    }
    let ghost s = chars@;
    let mut in_key = false;
    let mut open: usize = from;
    let mut k = from;
    while k < to
        invariant
            from <= k <= to <= chars@.len(),
            s == chars@,
            forall|j: int| from <= j < to ==> #[trigger] s[j] != '>',
            forall|o: int, e: int| from <= o && e < k ==> !#[trigger] key_refused(s, o, e),
            in_key ==> from <= open < k && key_runs(s, open as int, k as int),
            !in_key ==> forall|o: int| from <= o < k ==> !#[trigger] key_runs(s, o, k as int),
        decreases to - k,
    {
        let c = chars[k];
        if c == '=' {
            if in_key {
                if k == open + 1 || chars[k - 1] > '\u{7f}' {
                    assert(key_refused(s, open as int, k as int));
                    return true;
                }
                assert forall|o: int| from <= o < k && o != open implies !key_runs(
                    s,
                    o,
                    k as int,
                ) by {
                    if key_runs(s, o, k as int) {
                        if o < open {
                            assert(ends_part(s[open as int]));
                        } else {
                            assert(ends_part(s[o]));
                        }
                    }
                }
            }
            assert forall|o: int, e: int| from <= o && e < k + 1 implies !#[trigger] key_refused(
                s,
                o,
                e,
            ) by {
                if e == k && key_refused(s, o, e) {
                    assert(key_runs(s, o, k as int));
                }
            }
            in_key = false;
            assert forall|o: int| from <= o < k + 1 implies !#[trigger] key_runs(s, o, k + 1) by {
                if o < k && key_runs(s, o, k + 1) {
                    assert(s[k as int] == '=');
                }
            }
        } else if c == '[' {
            in_key = true;
            open = k;
        } else if c == '#' || c == '.' || c == ']' {
            in_key = false;
            assert forall|o: int| from <= o < k + 1 implies !#[trigger] key_runs(s, o, k + 1) by {
                if o < k && key_runs(s, o, k + 1) {
                    assert(ends_part(s[k as int]));
                }
            }
        } else {
            if in_key {
                assert(key_runs(s, open as int, k + 1));
            } else {
                assert forall|o: int| from <= o < k + 1 implies !#[trigger] key_runs(s, o, k + 1) by {
                    if o < k && key_runs(s, o, k + 1) {
                        assert(key_runs(s, o, k as int));
                    }
                }
            }
        }
        k = k + 1;
    }
    false
}

/// Whether the matcher can take `selector`.
pub fn is_supported_selector(selector: &str) -> (supported: bool)
    ensures
        supported == selector_supported(selector@),
{
    let chars = chars_of(selector);
    let ghost s = chars@;
    let mut i: usize = 0;
    while i < chars.len()
        invariant
            i <= chars@.len(),
            s == chars@,
            s == selector@,
            i == 0 || i == s.len() || is_space(s[i - 1]) || is_space(s[i as int]),
            forall|from: int, to: int| #[trigger]
                is_token(s, from, to) && to <= i ==> !token_refused(s, from, to),
        decreases chars@.len() - i,
    {
        if char_is_space(chars[i]) {
            assert forall|from: int, to: int| #[trigger]
                is_token(s, from, to) && to <= i + 1 implies !token_refused(s, from, to) by {
                if to == i + 1 {
                    assert(!is_space(s[i as int]));
                }
            }
            i = i + 1;
        } else {
            let to = token_end(&chars, i);
            assert(is_token(s, i as int, to as int));
            if token_is_refused(&chars, i, to) {
                return false;
            }
            assert forall|from: int, end: int| #[trigger]
                is_token(s, from, end) && end <= to implies !token_refused(s, from, end) by {
                if end > i {
                    if end < to {
                        assert(!is_space(s[end]));
                    }
                    if from < i {
                        assert(!is_space(s[i - 1]));
                    }
                    if from > i {
                        assert(!is_space(s[from - 1]));
                    }
                }
            }
            i = to;
        }
    }
    true
}

/// The text that a document holds in parsed form: the one that it was made
/// of.
pub uninterp spec fn source(document: Document) -> Seq<char>;

/// How many elements `crabquery` finds for a selector in the document that
/// it makes of a text.
pub uninterp spec fn match_count(text: Seq<char>, selector: Seq<char>) -> nat;

/// Parses `text` as HTML.
///
/// Calls `crabquery::Document::from` on the text. Nothing is proved of it.
/// It is taken to return for every text: it reads the text from memory,
/// which cannot fail, and the parser takes any input. The contract says no
/// more than that the document holds the text that it was made of.
#[verifier::external_body]
fn parse_document(text: &str) -> (document: Document)
    ensures
        source(document) == text@,
{
    Document::from(text)
}

/// The elements of `document` that match `selector`, in the order in which
/// the matcher hands them out.
///
/// Calls `crabquery::Document::select`. Nothing is proved of it. The
/// contract says that the number of elements found depends on the text of
/// the document and on the selector alone; of the elements themselves it
/// says nothing. The call descends once for each level of nesting of the
/// document, and is taken to have the stack for that.
///
/// For a test of an attribute that has `=` after an empty key, or after a
/// key that ends in a character that is not ASCII, in a token without `>`,
/// the matcher cuts the key at a place where a string cannot be cut, and
/// does not return. `selector_supported` leaves exactly these selectors
/// out.
#[verifier::external_body]
fn select_elements(document: &Document, selector: &str) -> (found: Vec<Element>)
    requires
        selector_supported(selector@),
    ensures
        found@.len() == match_count(source(*document), selector@),
{
    document.select(selector)
}

/// A page, parsed once, in which elements can be looked up by selector.
///
/// The elements that a page hands out are whole only as long as the page
/// is kept: a page that is given up takes the children of its elements with
/// it.
pub struct Page {
    document: Document,
}

impl Page {
    /// The text of the page.
    pub closed spec fn text(&self) -> Seq<char> {
        source(self.document)
    }

    /// The page with the text `body`.
    pub fn parse(body: &str) -> (page: Self)
        ensures
            page.text() == body@,
    {
        Page { document: parse_document(body) }
    }

    /// The elements of the page that match `selector`, in the order in
    /// which the matcher hands them out, or `None` for a selector that the
    /// matcher cannot take.
    pub fn select(&self, selector: &str) -> (found: Option<Vec<Element>>)
        ensures
            found is Some == selector_supported(selector@),
            found is Some ==> found->0@.len() == match_count(self.text(), selector@),
    {
        if is_supported_selector(selector) {
            Some(select_elements(&self.document, selector))
        } else {
            None
        }
    }
}

} // verus!
