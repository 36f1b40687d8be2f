//! Structure detection for delimited text: decides from a sample of leading
//! records whether the first record is the header or whether a preamble of
//! metadata lines comes before it, and where the header then is.
//!
//! The rules are heuristics; their keyword sets and thresholds are the
//! constants and lists below, so that they can be tuned apart from the
//! algorithm.
use crate::model::{FileStructure, LoadError};
use crate::text::{
    alphabetic, contains_any, contains_any_key, count_keys_found, is_alphabetic, keys_found,
    lower_of, lowercase, regex_accepts, regex_match, regex_match_each, str_texts, texts, upper_of,
    uppercase,
};
use vstd::prelude::*;

verus! {

/// How many leading records the detector looks at.
pub const SAMPLE_LIMIT: usize = 50;

/// Fewest fields a header row below a preamble has.
pub const HEADER_MIN_FIELDS: usize = 10;

/// Fewest compound (separator-joined) field names a header row below a preamble has.
pub const HEADER_MIN_COMPOUND: usize = 5;

/// Fewest pattern or keyword hits a header row below a preamble gathers.
pub const HEADER_MIN_HITS: usize = 5;

/// Hits that one field matching the index marker is worth.
pub const INDEX_MARKER_WEIGHT: usize = 3;

/// The index marker, matched against the upper-cased field.
pub const INDEX_PATTERN: &'static str = "INDEX";

/// A field name joined by an underscore.
pub const COMPOUND_PATTERN: &'static str = ".*_.*";

/// Labels of key/value metadata lines.
pub open spec fn metadata_labels() -> Seq<Seq<char>> {
    seq!["user"@, "supplier"@, "wafer"@, "led"@, "date"@, "time"@, "version"@, "id"@]
}

/// Short tokens typical of measurement column names.
pub open spec fn data_keywords() -> Seq<Seq<char>> {
    seq!["index"@, "upl"@, "epi"@, "aoi"@, "chip"@, "wp"@, "wd"@, "fwhm"@]
}

fn metadata_label_list() -> (r: Vec<&'static str>)
    ensures
        str_texts(r@) == metadata_labels(),
{
    let r = vec!["user", "supplier", "wafer", "led", "date", "time", "version", "id"];
    assert(str_texts(r@) =~= metadata_labels());
    r
}

fn data_keyword_list() -> (r: Vec<&'static str>)
    ensures
        str_texts(r@) == data_keywords(),
{
    let r = vec!["index", "upl", "epi", "aoi", "chip", "wp", "wd", "fwhm"];
    assert(str_texts(r@) =~= data_keywords());
    r
}

/// The field texts of each sampled record.
pub open spec fn sample_texts(sample: Seq<(usize, Vec<String>)>) -> Seq<Seq<Seq<char>>> {
    sample.map_values(|p: (usize, Vec<String>)| texts(p.1@))
}

/// The largest of three field counts exceeds twice the smallest.
pub open spec fn counts_spread(a: int, b: int, c: int) -> bool {
    let hi = if a >= b && a >= c {
        a
    } else if b >= c {
        b
    } else {
        c
    };
    let lo = if a <= b && a <= c {
        a
    } else if b <= c {
        b
    } else {
        c
    };
    hi > 2 * lo
}

/// A two-field "label,value" line whose label names a metadata key.
pub open spec fn labelled_pair(rec: Seq<Seq<char>>) -> bool {
    rec.len() == 2 && contains_any(lower_of(rec[0]), metadata_labels())
}

/// A line holding one field that is a single letter.
pub open spec fn letter_banner(rec: Seq<Seq<char>>) -> bool {
    rec.len() == 1 && lower_of(rec[0]).len() == 1 && alphabetic(lower_of(rec[0])[0])
}

/// The first three records show a preamble: wildly different field counts,
/// a metadata pair, or a single-letter banner.
pub open spec fn looks_mixed(recs: Seq<Seq<Seq<char>>>) -> bool {
    &&& recs.len() >= 3
    &&& {
        ||| counts_spread(recs[0].len() as int, recs[1].len() as int, recs[2].len() as int)
        ||| exists|i: int| 0 <= i < 3 && labelled_pair(#[trigger] recs[i])
        ||| exists|i: int| 0 <= i < 3 && letter_banner(#[trigger] recs[i])
    }
}

/// The field matches the index marker once upper-cased.
pub open spec fn index_hit(f: Seq<char>) -> bool {
    regex_accepts(INDEX_PATTERN@) && regex_match(INDEX_PATTERN@, upper_of(f))
}

/// The field is a compound name.
pub open spec fn compound_field(f: Seq<char>) -> bool {
    regex_accepts(COMPOUND_PATTERN@) && regex_match(COMPOUND_PATTERN@, f)
}

/// Pattern hits of one field.
pub open spec fn pattern_points(f: Seq<char>) -> nat {
    (if index_hit(f) {
        INDEX_MARKER_WEIGHT as nat
    } else {
        0nat
    }) + (if compound_field(f) {
        1nat
    } else {
        0nat
    })
}

pub open spec fn pattern_score(fs: Seq<Seq<char>>) -> nat
    decreases fs.len(),
{
    if fs.len() == 0 {
        0
    } else {
        pattern_score(fs.drop_last()) + pattern_points(fs.last())
    }
}

pub open spec fn compound_count(fs: Seq<Seq<char>>) -> nat
    decreases fs.len(),
{
    if fs.len() == 0 {
        0
    } else {
        compound_count(fs.drop_last()) + if compound_field(fs.last()) {
            1nat
        } else {
            0nat
        }
    }
}

pub open spec fn keyword_score(fs: Seq<Seq<char>>) -> nat
    decreases fs.len(),
{
    if fs.len() == 0 {
        0
    } else {
        keyword_score(fs.drop_last()) + keys_found(lower_of(fs.last()), data_keywords())
    }
}

/// A record that qualifies as the header row below a preamble.
pub open spec fn header_like(fs: Seq<Seq<char>>) -> bool {
    &&& fs.len() >= HEADER_MIN_FIELDS
    &&& compound_count(fs) >= HEADER_MIN_COMPOUND
    &&& (pattern_score(fs) >= HEADER_MIN_HITS || keyword_score(fs) >= HEADER_MIN_HITS)
}

/// The line number of the first qualifying record at or after position `i`.
pub open spec fn first_header_from(sample: Seq<(usize, Vec<String>)>, i: int) -> Option<usize>
    decreases sample.len() - i,
{
    if i < 0 || i >= sample.len() {
        None
    } else if header_like(texts(sample[i].1@)) {
        Some(sample[i].0)
    } else {
        first_header_from(sample, i + 1)
    }
}

/// The structure that a non-empty sample shows.
pub open spec fn classify(sample: Seq<(usize, Vec<String>)>) -> FileStructure {
    if looks_mixed(sample_texts(sample)) && first_header_from(sample, 0) is Some {
        FileStructure::Mixed { header_line: first_header_from(sample, 0)->0 }
    } else {
        FileStructure::Simple
    }
}

/// `x`, but at most `usize::MAX`.
pub open spec fn capped(x: nat) -> nat {
    if x > usize::MAX {
        usize::MAX as nat
    } else {
        x
    }
}

fn add_capped(a: usize, b: usize) -> (r: usize)
    ensures
        r == capped((a + b) as nat),
{
    if a > usize::MAX - b {
        usize::MAX
    } else {
        a + b
    }
}

fn is_labelled_pair(fields: &Vec<String>, labels: &Vec<&str>) -> (r: bool)
    requires
        str_texts(labels@) == metadata_labels(),
    ensures
        r == labelled_pair(texts(fields@)),
{
    if fields.len() != 2 {
        return false;
    }
    let label = lowercase(fields[0].as_str());
    contains_any_key(label.as_str(), labels)
}

fn is_letter_banner(fields: &Vec<String>) -> (r: bool)
    ensures
        r == letter_banner(texts(fields@)),
{
    if fields.len() != 1 {
        return false;
    }
    let lower = lowercase(fields[0].as_str());
    let cs = crate::text::chars_of(lower.as_str());
    if cs.len() != 1 {
        return false;
    }
    is_alphabetic(cs[0])
}

/// Whether the first three sampled records show a metadata preamble.
pub fn is_mixed_structure(sample_lines: &[(usize, Vec<String>)]) -> (r: bool)
    ensures
        r == looks_mixed(sample_texts(sample_lines@)),
{
    if sample_lines.len() < 3 {
        return false;
    }
    let ghost recs = sample_texts(sample_lines@);
    let first_line_fields = sample_lines[0].1.len();
    let second_line_fields = sample_lines[1].1.len();
    let third_line_fields = sample_lines[2].1.len();
    assert(recs[0].len() == first_line_fields);
    assert(recs[1].len() == second_line_fields);
    assert(recs[2].len() == third_line_fields);
    let mut max_fields = first_line_fields;
    if second_line_fields > max_fields {
        max_fields = second_line_fields;
    }
    if third_line_fields > max_fields {
        max_fields = third_line_fields;
    }
    let mut min_fields = first_line_fields;
    if second_line_fields < min_fields {
        min_fields = second_line_fields;
    }
    if third_line_fields < min_fields {
        min_fields = third_line_fields;
    }
    if max_fields - min_fields > min_fields {
        return true;
    }
    let labels = metadata_label_list();
    let mut i: usize = 0;
    while i < 3
        invariant
            3 <= sample_lines@.len(),
            recs == sample_texts(sample_lines@),
            str_texts(labels@) == metadata_labels(),
            i <= 3,
            forall|j: int| 0 <= j < i ==> !labelled_pair(#[trigger] recs[j]),
        decreases 3 - i,
    {
        if is_labelled_pair(&sample_lines[i].1, &labels) {
            assert(labelled_pair(recs[i as int]));
            return true;
        }
        i += 1;
    }
    let mut i: usize = 0;
    while i < 3
        invariant
            3 <= sample_lines@.len(),
            recs == sample_texts(sample_lines@),
            i <= 3,
            forall|j: int| 0 <= j < i ==> !letter_banner(#[trigger] recs[j]),
        decreases 3 - i,
    {
        if is_letter_banner(&sample_lines[i].1) {
            assert(letter_banner(recs[i as int]));
            return true;
        }
        i += 1;
    }
    false
}

/// Whether one record qualifies as the header row below a preamble.
fn is_header_record(fields: &Vec<String>, keywords: &Vec<&str>) -> (r: bool)
    requires
        str_texts(keywords@) == data_keywords(),
    ensures
        r == header_like(texts(fields@)),
{
    if fields.len() < HEADER_MIN_FIELDS {
        return false;
    }
    let ghost fs = texts(fields@);
    let mut uppers: Vec<String> = Vec::new();
    let mut j: usize = 0;
    while j < fields.len()
        invariant
            j <= fields@.len(),
            uppers@.len() == j,
            forall|k: int| 0 <= k < j ==> (#[trigger] uppers@[k])@ == upper_of(fields@[k]@),
        decreases fields@.len() - j,
    {
        uppers.push(uppercase(fields[j].as_str()));
        j += 1;
    }
    let index_hits = regex_match_each(INDEX_PATTERN, &uppers);
    let compound_hits = regex_match_each(COMPOUND_PATTERN, fields);
    let mut pattern: usize = 0;
    let mut keyword: usize = 0;
    let mut compound: usize = 0;
    let mut j: usize = 0;
    while j < fields.len()
        invariant
            j <= fields@.len(),
            fs == texts(fields@),
            str_texts(keywords@) == data_keywords(),
            uppers@.len() == fields@.len(),
            forall|k: int| 0 <= k < fields@.len() ==> (#[trigger] uppers@[k])@ == upper_of(fields@[k]@),
            index_hits is Some <==> regex_accepts(INDEX_PATTERN@),
            index_hits matches Some(v) ==> v@.len() == uppers@.len() && forall|i: int|
                0 <= i < v@.len() ==> v@[i] == regex_match(INDEX_PATTERN@, #[trigger] uppers@[i]@),
            compound_hits is Some <==> regex_accepts(COMPOUND_PATTERN@),
            compound_hits matches Some(v) ==> v@.len() == fields@.len() && forall|i: int|
                0 <= i < v@.len() ==> v@[i] == regex_match(COMPOUND_PATTERN@, #[trigger] fields@[i]@),
            compound <= j,
            compound == compound_count(fs.subrange(0, j as int)),
            pattern == capped(pattern_score(fs.subrange(0, j as int))),
            keyword == capped(keyword_score(fs.subrange(0, j as int))),
        decreases fields@.len() - j,
    {
        let field = &fields[j];
        let marked = match &index_hits {
            Some(v) => v[j],
            None => false,
        };
        let joined = match &compound_hits {
            Some(v) => v[j],
            None => false,
        };
        assert(fs[j as int] == fields@[j as int]@);
        assert(uppers@[j as int]@ == upper_of(fields@[j as int]@));
        assert(marked == index_hit(fs[j as int]));
        assert(joined == compound_field(fs[j as int]));
        let lower = lowercase(field.as_str());
        let found = count_keys_found(lower.as_str(), keywords);
        proof {
            let pre = fs.subrange(0, j + 1);
            assert(pre.drop_last() =~= fs.subrange(0, j as int));
            assert(pre.last() == fs[j as int]);
        }
        if marked {
            pattern = add_capped(pattern, INDEX_MARKER_WEIGHT);
        }
        if joined {
            pattern = add_capped(pattern, 1);
            compound += 1;
        }
        keyword = add_capped(keyword, found);
        j += 1;
    }
    assert(fs.subrange(0, fields@.len() as int) =~= fs);
    compound >= HEADER_MIN_COMPOUND && (pattern >= HEADER_MIN_HITS || keyword >= HEADER_MIN_HITS)
}

/// The line number of the first sampled record that looks like the header
/// row below a preamble, if any.
pub fn find_header_with_regex(sample_lines: &[(usize, Vec<String>)]) -> (r: Option<usize>)
    ensures
        r == first_header_from(sample_lines@, 0),
{
    let keywords = data_keyword_list();
    let mut i: usize = 0;
    while i < sample_lines.len()
        invariant
            i <= sample_lines@.len(),
            str_texts(keywords@) == data_keywords(),
            first_header_from(sample_lines@, 0) == first_header_from(sample_lines@, i as int),
        decreases sample_lines@.len() - i,
    {
        if is_header_record(&sample_lines[i].1, &keywords) {
            return Some(sample_lines[i].0);
        }
        i += 1;
    }
    None
}

/// Classifies a sample of leading records. A sample that shows a preamble
/// but no recognisable header row degrades to `Simple`.
pub fn detect_file_structure(sample_lines: &[(usize, Vec<String>)]) -> (r: Result<
    FileStructure,
    LoadError,
>)
    ensures
        sample_lines@.len() == 0 ==> r matches Err(LoadError::EmptySource),
        sample_lines@.len() > 0 ==> r == Ok::<FileStructure, LoadError>(classify(sample_lines@)),
{
    if sample_lines.len() == 0 {
        return Err(LoadError::EmptySource);
    }
    if is_mixed_structure(sample_lines) {
        if let Some(header_line) = find_header_with_regex(sample_lines) {
            return Ok(FileStructure::Mixed { header_line });
        }
    }
    Ok(FileStructure::Simple)
}

} // verus!
