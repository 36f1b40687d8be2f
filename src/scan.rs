//! The delimited-text backend as a state machine. Whoever owns the file
//! feeds it one record at a time, in file order; the machine samples the
//! leading records, detects the structure, skips the preamble, the header
//! and the rows before the window, and collects the window. It asks for
//! records until it can answer, so the file is read once, front to back,
//! and never past the window.
use crate::detect::{classify, detect_file_structure, first_header_from, header_like, SAMPLE_LIMIT};
use crate::model::{FileStructure, LoadError, LoadResult};
use crate::text::texts;
use vstd::prelude::*;

verus! {

/// The sheet name that a delimited-text file reports in its catalog.
pub const DELIMITED_SHEET_NAME: &'static str = "CSV";

/// What reading the next record of the file gave.
#[derive(Debug, Clone)]
pub enum RecordEvent {
    /// A record, with its fields as they stand (it may have fewer or more
    /// fields than the header).
    Record(Vec<String>),
    /// A record that could not be parsed or decoded, with the reason.
    Malformed(String),
    /// There is no further record.
    End,
}

/// What the machine answers after a record.
#[derive(Debug)]
pub enum ScanStep {
    /// Feed the next record.
    NeedRecord,
    /// The request is answered; feed nothing more.
    Finished(Result<LoadResult, LoadError>),
}

/// The index of the header record for a structure.
pub open spec fn data_start(s: FileStructure) -> nat {
    match s {
        FileStructure::Simple => 0,
        FileStructure::Mixed { header_line } => header_line as nat,
    }
}

/// The sample made of the first `k` records fed, each with its line number.
pub open spec fn sample_of(fed: Seq<RecordEvent>, k: nat) -> Seq<(usize, Vec<String>)> {
    Seq::new(k, |i: int| (i as usize, fed[i]->Record_0))
}

/// The first `k` events fed are records.
pub open spec fn leading_records(fed: Seq<RecordEvent>, k: nat) -> bool {
    k <= fed.len() && forall|i: int| 0 <= i < k ==> (#[trigger] fed[i]) is Record
}

/// The number of records before the window, for a sample of `k` records.
pub open spec fn records_to_skip(fed: Seq<RecordEvent>, k: nat, start_row: nat) -> nat {
    data_start(classify(sample_of(fed, k))) + 1 + start_row
}

/// The header a window reports: the header record on the first window,
/// nothing on the later ones.
pub open spec fn window_headers(fed: Seq<RecordEvent>, k: nat, start_row: nat) -> Seq<String> {
    if start_row == 0 {
        fed[data_start(classify(sample_of(fed, k))) as int]->Record_0@
    } else {
        Seq::empty()
    }
}

/// What a finished window holds, given the events fed, the size `k` of the
/// sample the structure was detected from, and the request: the sample is
/// the leading `k` records, ended by the limit or by the end of the file;
/// the rows are the records right after the skipped ones, up to
/// `row_count`; the data ended inside the window exactly when fewer rows
/// came, and then the end of the file follows the last row.
pub open spec fn window_outcome(
    fed: Seq<RecordEvent>,
    k: nat,
    start_row: nat,
    row_count: nat,
    res: LoadResult,
) -> bool {
    let skip = records_to_skip(fed, k, start_row);
    let n = res.rows@.len();
    &&& 0 < k <= SAMPLE_LIMIT
    &&& leading_records(fed, k)
    &&& (k == SAMPLE_LIMIT || (k < fed.len() && fed[k as int] is End))
    &&& res.headers@ == window_headers(fed, k, start_row)
    &&& n <= row_count
    &&& (n > 0 ==> skip + n <= fed.len())
    &&& forall|i: int| 0 <= i < n ==> fed[skip + i] == RecordEvent::Record(#[trigger] res.rows@[i])
    &&& res.end_of_data == (n < row_count)
    &&& res.end_of_data ==> {
        &&& fed.last() is End
        &&& n == if fed.len() - 1 >= skip {
            fed.len() - 1 - skip
        } else {
            0
        }
    }
    &&& res.sheet_names@.len() == 1
    &&& res.sheet_names@[0]@ == DELIMITED_SHEET_NAME@
}

/// How a request fails: an empty file, or a malformed record that the
/// request had to read (the last one fed).
pub open spec fn window_failure(fed: Seq<RecordEvent>, e: LoadError) -> bool {
    ||| (e is EmptySource && fed.len() == 1 && fed[0] is End)
    ||| (e is DecodeError && fed.len() > 0 && fed.last() is Malformed && e->DecodeError_0
        == fed.last()->Malformed_0)
}

/// One request on a delimited-text file, answered from the records fed to it.
pub struct DelimitedScan {
    start_row: usize,
    row_count: usize,
    sample: Vec<(usize, Vec<String>)>,
    sampling: bool,
    done: bool,
    consumed: usize,
    skip: usize,
    headers: Vec<String>,
    rows: Vec<Vec<String>>,
    fed: Ghost<Seq<RecordEvent>>,
    sample_len: Ghost<nat>,
}

impl DelimitedScan {
    /// The events fed so far.
    pub closed spec fn fed(&self) -> Seq<RecordEvent> {
        self.fed@
    }

    /// The first row of the window that the machine serves.
    pub closed spec fn start_row(&self) -> nat {
        self.start_row as nat
    }

    /// How many rows the window holds at most.
    pub closed spec fn row_count(&self) -> nat {
        self.row_count as nat
    }

    /// The machine has answered.
    pub closed spec fn is_done(&self) -> bool {
        self.done
    }

    /// How many records the structure was detected from.
    pub closed spec fn sample_len(&self) -> nat {
        self.sample_len@
    }

    /// While sampling, the sample is what was fed; after it, the state
    /// holds the skip count, the header and the rows that the records fed
    /// so far give.
    pub closed spec fn wf(&self) -> bool {
        &&& self.start_row + self.row_count + SAMPLE_LIMIT + 1 <= usize::MAX
        &&& self.sampling ==> {
            &&& !self.done
            &&& self.sample@.len() == self.fed@.len()
            &&& self.sample@.len() < SAMPLE_LIMIT
            &&& self.headers@.len() == 0
            &&& self.rows@.len() == 0
            &&& forall|i: int|
                0 <= i < self.sample@.len() ==> (#[trigger] self.sample@[i]).0 == i
                    && self.fed@[i] == RecordEvent::Record(self.sample@[i].1)
        }
        &&& (!self.sampling && !self.done) ==> {
            &&& self.consumed == self.fed@.len()
            &&& self.sample_len@ == SAMPLE_LIMIT
            &&& leading_records(self.fed@, self.sample_len@)
            &&& data_start(classify(sample_of(self.fed@, self.sample_len@))) < self.sample_len@
            &&& self.skip == records_to_skip(self.fed@, self.sample_len@, self.start_row as nat)
            &&& self.headers@ == window_headers(self.fed@, self.sample_len@, self.start_row as nat)
            &&& self.rows@.len() < self.row_count
            &&& self.rows@.len() == if self.consumed >= self.skip {
                self.consumed - self.skip
            } else {
                0
            }
            &&& forall|i: int|
                0 <= i < self.rows@.len() ==> self.fed@[self.skip + i] == RecordEvent::Record(
                    #[trigger] self.rows@[i],
                )
        }
    }

    /// A machine that serves `row_count` data rows from data row `start_row`.
    pub fn new(start_row: usize, row_count: usize) -> (r: DelimitedScan)
        requires
            start_row + row_count + SAMPLE_LIMIT + 1 <= usize::MAX,
        ensures
            r.wf(),
            r.fed() == Seq::<RecordEvent>::empty(),
            r.start_row() == start_row,
            r.row_count() == row_count,
            !r.is_done(),
    {
        DelimitedScan {
            start_row,
            row_count,
            sample: Vec::new(),
            sampling: true,
            done: false,
            consumed: 0,
            skip: 0,
            headers: Vec::new(),
            rows: Vec::new(),
            fed: Ghost(Seq::empty()),
            sample_len: Ghost(0),
        }
    }

    fn catalog() -> (r: Vec<String>)
        ensures
            r@.len() == 1,
            r@[0]@ == DELIMITED_SHEET_NAME@,
    {
        let mut r: Vec<String> = Vec::new();
        r.push(DELIMITED_SHEET_NAME.to_owned());
        r
    }

    fn answer(&mut self, end_of_data: bool) -> (r: ScanStep)
        ensures
            final(self).done,
            final(self).fed == old(self).fed,
            final(self).sample_len == old(self).sample_len,
            final(self).start_row == old(self).start_row,
            final(self).row_count == old(self).row_count,
            final(self).skip == old(self).skip,
            final(self).sampling == old(self).sampling,
            final(self).consumed == old(self).consumed,
            r matches ScanStep::Finished(Ok(res)) && res.headers@ == old(self).headers@
                && res.rows@ == old(self).rows@ && res.end_of_data == end_of_data
                && res.sheet_names@.len() == 1 && res.sheet_names@[0]@ == DELIMITED_SHEET_NAME@,
    {
        let mut headers: Vec<String> = Vec::new();
        let mut rows: Vec<Vec<String>> = Vec::new();
        std::mem::swap(&mut headers, &mut self.headers);
        std::mem::swap(&mut rows, &mut self.rows);
        self.done = true;
        ScanStep::Finished(
            Ok(LoadResult { headers, rows, sheet_names: Self::catalog(), end_of_data }),
        )
    }

    /// Detects the structure from the sample, distributes the sampled
    /// records to the header and the window, and answers if it can.
    fn plan(&mut self, ended: bool) -> (r: ScanStep)
        requires
            old(self).sampling,
            !old(self).done,
            old(self).start_row + old(self).row_count + SAMPLE_LIMIT + 1 <= usize::MAX,
            old(self).sample@.len() <= SAMPLE_LIMIT,
            old(self).headers@.len() == 0,
            old(self).rows@.len() == 0,
            forall|i: int|
                0 <= i < old(self).sample@.len() ==> (#[trigger] old(self).sample@[i]).0 == i
                    && old(self).fed@[i] == RecordEvent::Record(old(self).sample@[i].1),
            ended ==> old(self).fed@.len() == old(self).sample@.len() + 1
                && old(self).fed@.last() is End,
            !ended ==> old(self).fed@.len() == old(self).sample@.len() && old(self).sample@.len()
                == SAMPLE_LIMIT,
        ensures
            final(self).wf(),
            final(self).fed == old(self).fed,
            final(self).start_row == old(self).start_row,
            final(self).row_count == old(self).row_count,
            (r is NeedRecord) == !final(self).done,
            r matches ScanStep::Finished(Ok(res)) ==> window_outcome(
                final(self).fed@,
                final(self).sample_len@,
                final(self).start_row as nat,
                final(self).row_count as nat,
                res,
            ),
            r matches ScanStep::Finished(Err(e)) ==> window_failure(final(self).fed@, e),
            ended ==> !(r is NeedRecord),
            !ended ==> !(r matches ScanStep::Finished(Err(_))),
    {
        let ghost orig = self.sample@;
        let ghost k = orig.len();
        let ghost fed = self.fed@;
        assert(orig =~= sample_of(fed, k));
        let structure = match detect_file_structure(self.sample.as_slice()) {
            Ok(s) => s,
            Err(e) => {
                self.done = true;
                self.sampling = false;
                return ScanStep::Finished(Err(e));
            },
        };
        let d: usize = match structure {
            FileStructure::Simple => 0,
            FileStructure::Mixed { header_line } => header_line,
        };
        proof {
            lemma_header_in_sample(orig, 0);
            assert(d == data_start(classify(sample_of(fed, k))));
            assert(d < k);
        }
        let skip: usize = d + 1 + self.start_row;
        self.skip = skip;
        self.sampling = false;
        self.sample_len = Ghost(k);
        let mut m: usize = 0;
        while self.sample.len() > 0
            invariant
                self.sample@.len() == k - m,
                k == orig.len(),
                self.fed@ == fed,
                forall|i: int| 0 <= i < k ==> fed[i] == RecordEvent::Record(#[trigger] orig[i].1),
                !self.sampling,
                !self.done,
                self.skip == skip,
                self.sample_len@ == k,
                self.sample@ == orig.subrange(m as int, k as int),
                m <= k,
                k <= SAMPLE_LIMIT,
                d < k,
                skip == d + 1 + self.start_row,
                forall|i: int| 0 <= i < k ==> (#[trigger] orig[i]).0 == i,
                self.start_row + self.row_count + SAMPLE_LIMIT + 1 <= usize::MAX,
                self.headers@ == if self.start_row == 0 && d < m {
                    orig[d as int].1@
                } else {
                    Seq::<String>::empty()
                },
                self.rows@.len() == if m <= skip {
                    0
                } else if m - skip <= self.row_count {
                    m - skip
                } else {
                    self.row_count as int
                },
                forall|i: int|
                    0 <= i < self.rows@.len() ==> #[trigger] self.rows@[i] == orig[skip + i].1,
                self.fed == old(self).fed,
                self.start_row == old(self).start_row,
                self.row_count == old(self).row_count,
                self.headers@.len() == 0 || self.start_row == 0,
            decreases self.sample@.len(),
        {
            let ghost before = self.sample@;
            let (p, rec) = self.sample.remove(0);
            proof {
                assert(self.sample@ =~= orig.subrange(m + 1, k as int));
                assert(before[0] == orig[m as int]);
            }
            assert(p == m);
            if p == d && self.start_row == 0 {
                self.headers = rec;
            } else if p >= skip && self.rows.len() < self.row_count {
                self.rows.push(rec);
            }
            m += 1;
        }
        self.consumed = m;
        proof {
            assert(m == k);
            assert forall|i: int| 0 <= i < k implies (#[trigger] fed[i]) is Record by {
                assert(fed[i] == RecordEvent::Record(orig[i].1));
            }
            assert(leading_records(fed, k));
            assert forall|i: int| 0 <= i < self.rows@.len() implies fed[skip + i]
                == RecordEvent::Record(#[trigger] self.rows@[i]) by {
                assert(self.rows@[i] == orig[skip + i].1);
            }
            assert(window_headers(fed, k, self.start_row as nat) == self.headers@);
        }
        if self.rows.len() == self.row_count {
            self.answer(false)
        } else if ended {
            self.answer(true)
        } else {
            ScanStep::NeedRecord
        }
    }

    /// Takes the next event of the file.
    pub fn feed(&mut self, ev: RecordEvent) -> (r: ScanStep)
        requires
            old(self).wf(),
            !old(self).is_done(),
        ensures
            final(self).wf(),
            final(self).fed() == old(self).fed().push(ev),
            final(self).start_row() == old(self).start_row(),
            final(self).row_count() == old(self).row_count(),
            (r is NeedRecord) == !final(self).is_done(),
            r matches ScanStep::Finished(Ok(res)) ==> window_outcome(
                final(self).fed(),
                final(self).sample_len(),
                final(self).start_row(),
                final(self).row_count(),
                res,
            ),
            r matches ScanStep::Finished(Err(e)) ==> window_failure(final(self).fed(), e),
            ev is End ==> !(r is NeedRecord),
            ev is Record ==> !(r matches ScanStep::Finished(Err(_))),
            ev is Malformed ==> ((r is NeedRecord) <==> (old(self).fed().len() >= SAMPLE_LIMIT
                && old(self).fed().len() < records_to_skip(
                old(self).fed(),
                SAMPLE_LIMIT as nat,
                old(self).start_row(),
            ))),
    {
        let ghost before = self.fed@;
        self.fed = Ghost(self.fed@.push(ev));
        if self.sampling {
            match ev {
                RecordEvent::Record(rec) => {
                    let line = self.sample.len();
                    self.sample.push((line, rec));
                    if self.sample.len() == SAMPLE_LIMIT {
                        self.plan(false)
                    } else {
                        ScanStep::NeedRecord
                    }
                },
                RecordEvent::Malformed(msg) => {
                    self.done = true;
                    self.sampling = false;
                    ScanStep::Finished(Err(LoadError::DecodeError(msg)))
                },
                RecordEvent::End => self.plan(true),
            }
        } else {
            let p = self.consumed;
            proof {
                assert(forall|i: int| 0 <= i < before.len() ==> self.fed@[i] == before[i]);
                assert(sample_of(self.fed@, self.sample_len@) =~= sample_of(before, self.sample_len@));
                assert(leading_records(self.fed@, self.sample_len@));
                assert(p < self.skip + self.row_count);
            }
            match ev {
                RecordEvent::Record(rec) => {
                    self.consumed = p + 1;
                    if p >= self.skip {
                        self.rows.push(rec);
                        if self.rows.len() == self.row_count {
                            return self.answer(false);
                        }
                    }
                    ScanStep::NeedRecord
                },
                RecordEvent::Malformed(msg) => {
                    if p >= self.skip {
                        self.done = true;
                        ScanStep::Finished(Err(LoadError::DecodeError(msg)))
                    } else {
                        self.consumed = p + 1;
                        ScanStep::NeedRecord
                    }
                },
                RecordEvent::End => self.answer(true),
            }
        }
    }
}

/// The header line that the detector picks lies within the sample.
proof fn lemma_header_in_sample(s: Seq<(usize, Vec<String>)>, i: int)
    requires
        0 <= i,
        forall|j: int| 0 <= j < s.len() ==> (#[trigger] s[j]).0 == j,
    ensures
        first_header_from(s, i) matches Some(n) ==> i <= n < s.len(),
    decreases s.len() - i,
{
    if i < s.len() && !header_like(texts(s[i].1@)) {
        lemma_header_in_sample(s, i + 1);
    }
}

/// The events of a whole file: its records, good or malformed, then the end.
pub open spec fn file_events(s: Seq<RecordEvent>) -> bool {
    &&& s.len() > 0
    &&& s.last() is End
    &&& forall|i: int| 0 <= i < s.len() - 1 ==> !(#[trigger] s[i] is End)
}

/// `fed` is what a request read of the file `s`: a leading part of it.
pub open spec fn read_from(fed: Seq<RecordEvent>, s: Seq<RecordEvent>) -> bool {
    fed.len() <= s.len() && fed == s.subrange(0, fed.len() as int)
}

/// Two requests on the same file detect the structure from the same sample.
proof fn lemma_same_sample(
    s: Seq<RecordEvent>,
    fed1: Seq<RecordEvent>,
    k1: nat,
    fed2: Seq<RecordEvent>,
    k2: nat,
)
    requires
        file_events(s),
        read_from(fed1, s),
        read_from(fed2, s),
        leading_records(fed1, k1),
        leading_records(fed2, k2),
        k1 == SAMPLE_LIMIT || (k1 < fed1.len() && fed1[k1 as int] is End),
        k2 == SAMPLE_LIMIT || (k2 < fed2.len() && fed2[k2 as int] is End),
        k1 <= SAMPLE_LIMIT,
        k2 <= SAMPLE_LIMIT,
    ensures
        k1 == k2,
        sample_of(fed1, k1) == sample_of(fed2, k2),
        forall|i: int| 0 <= i < k1 ==> fed1[i] == fed2[i],
{
    if k1 < k2 {
        assert(fed1[k1 as int] == s[k1 as int]);
        assert(fed2[k1 as int] == s[k1 as int]);
        assert(fed2[k1 as int] is Record);
    }
    if k2 < k1 {
        assert(fed1[k2 as int] == s[k2 as int]);
        assert(fed2[k2 as int] == s[k2 as int]);
        assert(fed1[k2 as int] is Record);
    }
    assert forall|i: int| 0 <= i < k1 implies fed1[i] == fed2[i] by {
        assert(fed1[i] == s[i]);
        assert(fed2[i] == s[i]);
    }
    assert(sample_of(fed1, k1) =~= sample_of(fed2, k2));
}

/// A request that met the end of the file read all of it.
proof fn lemma_end_means_whole_file(s: Seq<RecordEvent>, fed: Seq<RecordEvent>)
    requires
        file_events(s),
        read_from(fed, s),
        fed.len() > 0,
        fed.last() is End,
    ensures
        fed == s,
{
    let e = fed.len() - 1;
    assert(s[e] == fed[e]);
    assert(fed =~= s);
}

/// Asking twice for the same window of an unchanged file gives the same
/// header, the same rows and the same end-of-data answer.
pub proof fn lemma_window_repeatable(
    s: Seq<RecordEvent>,
    fed1: Seq<RecordEvent>,
    k1: nat,
    r1: LoadResult,
    fed2: Seq<RecordEvent>,
    k2: nat,
    r2: LoadResult,
    start_row: nat,
    row_count: nat,
)
    requires
        file_events(s),
        read_from(fed1, s),
        read_from(fed2, s),
        window_outcome(fed1, k1, start_row, row_count, r1),
        window_outcome(fed2, k2, start_row, row_count, r2),
    ensures
        r1.rows@ == r2.rows@,
        r1.headers@ == r2.headers@,
        r1.end_of_data == r2.end_of_data,
{
    lemma_same_sample(s, fed1, k1, fed2, k2);
    let skip = records_to_skip(fed1, k1, start_row);
    assert(skip == records_to_skip(fed2, k2, start_row));
    let d = data_start(classify(sample_of(fed1, k1)));
    if start_row == 0 {
        assert(d < k1) by {
            lemma_header_in_sample(sample_of(fed1, k1), 0);
        }
        assert(fed1[d as int] == fed2[d as int]);
    }
    assert(r1.headers@ =~= r2.headers@);
    if r1.end_of_data {
        lemma_end_means_whole_file(s, fed1);
    }
    if r2.end_of_data {
        lemma_end_means_whole_file(s, fed2);
    }
    let n1 = r1.rows@.len();
    let n2 = r2.rows@.len();
    if r1.end_of_data && !r2.end_of_data {
        let j = skip + row_count - 1;
        assert(fed2[skip + (row_count - 1)] == RecordEvent::Record(r2.rows@[row_count - 1]));
        assert(fed2[j] == s[j]);
    }
    if r2.end_of_data && !r1.end_of_data {
        let j = skip + row_count - 1;
        assert(fed1[skip + (row_count - 1)] == RecordEvent::Record(r1.rows@[row_count - 1]));
        assert(fed1[j] == s[j]);
    }
    assert(n1 == n2);
    assert forall|i: int| 0 <= i < n1 implies r1.rows@[i] == r2.rows@[i] by {
        assert(fed1[skip + i] == RecordEvent::Record(r1.rows@[i]));
        assert(fed2[skip + i] == RecordEvent::Record(r2.rows@[i]));
        assert(fed1[skip + i] == s[skip + i]);
        assert(fed2[skip + i] == s[skip + i]);
    }
    assert(r1.rows@ =~= r2.rows@);
}

/// Once a window of a file reports the end of the data, a later window of
/// the same file, starting at or after the first row it did not serve,
/// holds no rows.
pub proof fn lemma_end_of_data_is_final(
    s: Seq<RecordEvent>,
    fed1: Seq<RecordEvent>,
    k1: nat,
    r1: LoadResult,
    start1: nat,
    count1: nat,
    fed2: Seq<RecordEvent>,
    k2: nat,
    r2: LoadResult,
    start2: nat,
    count2: nat,
)
    requires
        file_events(s),
        read_from(fed1, s),
        read_from(fed2, s),
        window_outcome(fed1, k1, start1, count1, r1),
        window_outcome(fed2, k2, start2, count2, r2),
        r1.end_of_data,
        start2 >= start1 + r1.rows@.len(),
    ensures
        r2.rows@.len() == 0,
{
    lemma_same_sample(s, fed1, k1, fed2, k2);
    lemma_end_means_whole_file(s, fed1);
    let skip2 = records_to_skip(fed2, k2, start2);
    let e = s.len() - 1;
    assert(skip2 >= e);
    if r2.rows@.len() > 0 {
        assert(fed2[skip2 + 0int] == RecordEvent::Record(r2.rows@[0]));
        assert(fed2[skip2 as int] == s[skip2 as int]);
        assert(s[e] is End);
    }
}

} // verus!
