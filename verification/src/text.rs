//! Text helpers: searching one text in another and building strings.
use vstd::prelude::*;

verus! {

/// `needle` occurs in `hay` as a run of consecutive characters. The empty
/// text occurs in every text.
pub open spec fn contains_text(hay: Seq<char>, needle: Seq<char>) -> bool {
    exists|i: int| 0 <= i <= hay.len() - needle.len() && #[trigger] hay.subrange(i, i + needle.len()) == needle
}

/// `String::push`. Claimed: the string afterwards is the old one with `c`
/// appended.
#[verifier::external_body]
pub(crate) fn push_char(s: &mut String, c: char)
    ensures
        final(s)@ == old(s)@.push(c),
{
    s.push(c);
}

/// The uppercase form of a text, by the Unicode case mapping that
/// `str::to_uppercase` applies.
pub uninterp spec fn uppercase_text(s: Seq<char>) -> Seq<char>;

/// `str::to_uppercase`. Claimed: the result is `uppercase_text` of the
/// argument, so equal texts give equal results; the case mapping itself is
/// not stated.
#[verifier::external_body]
pub(crate) fn to_uppercase(s: &str) -> (r: String)
    ensures
        r@ == uppercase_text(s@),
{
    s.to_uppercase()
}

/// The characters of a string slice, in order.
pub fn chars_of(s: &str) -> (r: Vec<char>)
    ensures
        r@ == s@,
{
    let n = s.unicode_len();
    let mut r: Vec<char> = Vec::new();
    let mut i: usize = 0;
    while i < n
        invariant
            n == s@.len(),
            i <= n,
            r@ == s@.take(i as int),
        decreases n - i,
    {
        let c = s.get_char(i);
        r.push(c);
        i = i + 1;
        assert(r@ =~= s@.take(i as int));
    }
    assert(s@.take(n as int) =~= s@);
    r
}

/// Whether `needle` matches `hay` at position `at`.
fn matches_at(hay: &Vec<char>, needle: &Vec<char>, at: usize) -> (r: bool)
    requires
        at + needle.len() <= hay.len(),
    ensures
        r == (hay@.subrange(at as int, at + needle.len()) == needle@),
{
    let m = needle.len();
    let mut j: usize = 0;
    while j < m
        invariant
            m == needle.len(),
            at + m <= hay.len(),
            j <= m,
            forall|k: int| 0 <= k < j ==> hay@[at + k] == needle@[k],
        decreases m - j,
    {
        if hay[at + j] != needle[j] {
            assert(hay@.subrange(at as int, at + m)[j as int] != needle@[j as int]);
            return false;
        }
        j = j + 1;
    }
    assert(hay@.subrange(at as int, at + m) =~= needle@);
    true
}

/// Whether `needle` occurs in `hay`, as `str::contains` with a string
/// pattern answers.
pub fn contains(hay: &str, needle: &str) -> (r: bool)
    ensures
        r == contains_text(hay@, needle@),
{
    let h = chars_of(hay);
    let n = chars_of(needle);
    if n.len() > h.len() {
        return false;
    }
    let last = h.len() - n.len();
    let mut i: usize = 0;
    loop
        invariant
            h@ == hay@,
            n@ == needle@,
            last == h.len() - n.len(),
            i <= last,
            forall|k: int| 0 <= k < i ==> #[trigger] hay@.subrange(k, k + needle@.len()) != needle@,
        decreases last - i,
    {
        if matches_at(&h, &n, i) {
            return true;
        }
        if i == last {
            return false;
        }
        i = i + 1;
    }
}

/// Whether some text of `texts` contains `needle`.
pub fn any_contains(texts: &Vec<String>, needle: &str) -> (r: bool)
    ensures
        r == exists|i: int| 0 <= i < texts.len() && contains_text(#[trigger] texts@[i]@, needle@),
{
    let mut i: usize = 0;
    while i < texts.len()
        invariant
            i <= texts.len(),
            forall|k: int| 0 <= k < i ==> !contains_text(#[trigger] texts@[k]@, needle@),
        decreases texts.len() - i,
    {
        if contains(texts[i].as_str(), needle) {
            return true;
        }
        i = i + 1;
    }
    false
}

/// An empty text occurs in every text.
pub proof fn law_empty_text_contained(hay: Seq<char>)
    ensures
        contains_text(hay, Seq::<char>::empty()),
{
    assert(hay.subrange(0, 0int + Seq::<char>::empty().len()) =~= Seq::<char>::empty());
}

/// A text occurs in any text made by putting something before and after it.
pub proof fn law_contains_infix(a: Seq<char>, m: Seq<char>, b: Seq<char>)
    ensures
        contains_text(a + m + b, m),
{
    let h = a + m + b;
    let i = a.len() as int;
    assert(h.subrange(i, i + m.len()) =~= m);
}

/// A text occurs in another only where all of its characters match, one by
/// one, inside that other text: the result is a position where it does.
pub proof fn law_contains_only_full_matches(hay: Seq<char>, needle: Seq<char>) -> (i: int)
    requires
        contains_text(hay, needle),
    ensures
        0 <= i,
        i + needle.len() <= hay.len(),
        forall|j: int| 0 <= j < needle.len() ==> #[trigger] hay[i + j] == needle[j],
{
    let i = choose|i: int|
        0 <= i <= hay.len() - needle.len() && #[trigger] hay.subrange(i, i + needle.len())
            == needle;
    assert forall|j: int| 0 <= j < needle.len() implies #[trigger] hay[i + j] == needle[j] by {
        assert(hay.subrange(i, i + needle.len())[j] == hay[i + j]);
    }
    i
}

/// A text never occurs in a shorter one, and among texts of equal length
/// only in itself.
pub proof fn law_contains_length(hay: Seq<char>, needle: Seq<char>)
    ensures
        needle.len() > hay.len() ==> !contains_text(hay, needle),
        needle.len() == hay.len() ==> (contains_text(hay, needle) <==> hay == needle),
{
    if needle.len() == hay.len() {
        if hay == needle {
            assert(hay.subrange(0, 0int + needle.len()) =~= hay);
        }
        if contains_text(hay, needle) {
            let i = choose|i: int|
                0 <= i <= hay.len() - needle.len() && #[trigger] hay.subrange(i, i + needle.len())
                    == needle;
            assert(i == 0);
            assert(hay.subrange(0, hay.len() as int) =~= hay);
        }
    }
}

} // verus!
