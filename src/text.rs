//! Character-level helpers shared by the structure detector and the
//! format dispatcher, and the few calls into std and `regex` they rest on.
use vstd::prelude::*;

verus! {

/// What `str::to_lowercase` returns for a text.
pub uninterp spec fn lower_of(s: Seq<char>) -> Seq<char>;

/// What `str::to_uppercase` returns for a text.
pub uninterp spec fn upper_of(s: Seq<char>) -> Seq<char>;

/// What `char::is_alphabetic` answers for a character.
pub uninterp spec fn alphabetic(c: char) -> bool;

/// Whether `regex::Regex::new` accepts a pattern.
pub uninterp spec fn regex_accepts(pattern: Seq<char>) -> bool;

/// What `regex::Regex::is_match` answers for a compiled pattern and a text.
pub uninterp spec fn regex_match(pattern: Seq<char>, text: Seq<char>) -> bool;

/// `needle` occurs in `hay` as a contiguous run of characters.
pub open spec fn seq_contains(hay: Seq<char>, needle: Seq<char>) -> bool {
    exists|i: int|
        0 <= i && i + needle.len() <= hay.len() && #[trigger] hay.subrange(i, i + needle.len())
            == needle
}

/// `text` contains at least one of `keys`.
pub open spec fn contains_any(text: Seq<char>, keys: Seq<Seq<char>>) -> bool {
    exists|k: int| 0 <= k < keys.len() && seq_contains(text, #[trigger] keys[k])
}

/// How many of `keys` occur in `text`.
pub open spec fn keys_found(text: Seq<char>, keys: Seq<Seq<char>>) -> nat
    decreases keys.len(),
{
    if keys.len() == 0 {
        0
    } else {
        keys_found(text, keys.drop_last()) + if seq_contains(text, keys.last()) {
            1nat
        } else {
            0nat
        }
    }
}

/// The views of a sequence of strings.
pub open spec fn texts(v: Seq<String>) -> Seq<Seq<char>> {
    v.map_values(|s: String| s@)
}

/// The views of a sequence of string literals.
pub open spec fn str_texts(v: Seq<&str>) -> Seq<Seq<char>> {
    v.map_values(|s: &str| s@)
}

/// Relies on `str::chars`: the characters of a text, in order.
#[verifier::external_body]
pub fn chars_of(s: &str) -> (r: Vec<char>)
    ensures
        r@ == s@,
{
    s.chars().collect()
}

/// Relies on `FromIterator<char>` for `String`: the characters, in order.
#[verifier::external_body]
pub fn string_of(cs: &Vec<char>) -> (r: String)
    ensures
        r@ == cs@,
{
    cs.iter().collect()
}

/// Relies on `str::to_lowercase`: the result depends on the text alone.
#[verifier::external_body]
pub fn lowercase(s: &str) -> (r: String)
    ensures
        r@ == lower_of(s@),
{
    s.to_lowercase()
}

/// Relies on `str::to_uppercase`: the result depends on the text alone.
#[verifier::external_body]
pub fn uppercase(s: &str) -> (r: String)
    ensures
        r@ == upper_of(s@),
{
    s.to_uppercase()
}

/// Relies on `char::is_alphabetic`.
#[verifier::external_body]
pub fn is_alphabetic(c: char) -> (r: bool)
    ensures
        r == alphabetic(c),
{
    c.is_alphabetic()
}

/// Relies on `regex::Regex::new` to compile `pattern` once (it fails only
/// on the pattern itself) and on `regex::Regex::is_match` for each text.
#[verifier::external_body]
pub fn regex_match_each(pattern: &str, items: &Vec<String>) -> (r: Option<Vec<bool>>)
    ensures
        r is Some <==> regex_accepts(pattern@),
        r matches Some(v) ==> v@.len() == items@.len() && forall|i: int|
            0 <= i < v@.len() ==> v@[i] == regex_match(pattern@, #[trigger] items@[i]@),
{
    let re = regex::Regex::new(pattern).ok()?;
    Some(items.iter().map(|t| re.is_match(t)).collect())
}

/// Whether `needle` occurs in `hay` starting at `at`.
fn occurs_at(hay: &Vec<char>, needle: &Vec<char>, at: usize) -> (r: bool)
    requires
        at + needle@.len() <= hay@.len(),
    ensures
        r == (hay@.subrange(at as int, at + needle@.len()) == needle@),
{
    let hay_len: usize = hay.len();
    let mut j: usize = 0;
    while j < needle.len()
        invariant
            hay_len == hay@.len(),
            j <= needle@.len(),
            at + needle@.len() <= hay@.len(),
            forall|k: int| 0 <= k < j ==> hay@[at + k] == needle@[k],
        decreases needle@.len() - j,
    {
        assert(at + j < hay_len);
        if hay[at + j] != needle[j] {
            assert(hay@.subrange(at as int, at + needle@.len())[j as int] != needle@[j as int]);
            return false;
        }
        j += 1;
    }
    assert(hay@.subrange(at as int, at + needle@.len()) =~= needle@);
    true
}

/// Substring search over characters.
pub fn contains_chars(hay: &Vec<char>, needle: &Vec<char>) -> (r: bool)
    ensures
        r == seq_contains(hay@, needle@),
{
    if needle.len() > hay.len() {
        return false;
    }
    let last: usize = hay.len() - needle.len();
    let mut i: usize = 0;
    while i < last
        invariant
            i <= last,
            last == hay@.len() - needle@.len(),
            forall|k: int|
                0 <= k < i ==> #[trigger] hay@.subrange(k, k + needle@.len()) != needle@,
        decreases last - i,
    {
        if occurs_at(hay, needle, i) {
            return true;
        }
        i += 1;
    }
    occurs_at(hay, needle, last)
}

/// Substring search over two texts.
pub fn text_contains(hay: &str, needle: &str) -> (r: bool)
    ensures
        r == seq_contains(hay@, needle@),
{
    let h = chars_of(hay);
    let n = chars_of(needle);
    contains_chars(&h, &n)
}

/// Counts how many of `keys` occur in `text`.
pub fn count_keys_found(text: &str, keys: &Vec<&str>) -> (r: usize)
    ensures
        r == keys_found(text@, str_texts(keys@)),
{
    let mut n: usize = 0;
    let mut k: usize = 0;
    while k < keys.len()
        invariant
            k <= keys@.len(),
            n <= k,
            n == keys_found(text@, str_texts(keys@.subrange(0, k as int))),
        decreases keys@.len() - k,
    {
        let hit = text_contains(text, keys[k]);
        proof {
            let s = str_texts(keys@.subrange(0, k + 1));
            assert(s.drop_last() =~= str_texts(keys@.subrange(0, k as int)));
            assert(s.last() == keys@[k as int]@);
        }
        if hit {
            n += 1;
        }
        k += 1;
    }
    assert(keys@.subrange(0, keys@.len() as int) =~= keys@);
    n
}

/// Whether `text` contains any of `keys`.
pub fn contains_any_key(text: &str, keys: &Vec<&str>) -> (r: bool)
    ensures
        r == contains_any(text@, str_texts(keys@)),
{
    let mut k: usize = 0;
    while k < keys.len()
        invariant
            k <= keys@.len(),
            forall|j: int| 0 <= j < k ==> !seq_contains(text@, #[trigger] str_texts(keys@)[j]),
        decreases keys@.len() - k,
    {
        if text_contains(text, keys[k]) {
            assert(seq_contains(text@, str_texts(keys@)[k as int]));
            return true;
        }
        k += 1;
    }
    false
}

} // verus!
