//! The pagination controller: the state of one open file (and, for a
//! workbook, one selected sheet), the window it asks for next, and how a
//! finished request is merged. At most one request is in flight; every
//! request carries the generation of the session that issued it, and a
//! result whose generation is no longer current is discarded.
use crate::model::LoadResult;
use crate::scan::DELIMITED_SHEET_NAME;
use vstd::prelude::*;

verus! {

/// How much the target window grows each time the consumer nears the end
/// of what it shows, and its size after a reset.
pub const WINDOW_INCREMENT: usize = 100;

/// Where a session stands.
#[derive(Debug, Clone, Copy, PartialEq, Eq, Structural)]
pub enum SessionStatus {
    Idle,
    Loading,
    Error,
    Complete,
}

/// One request for a window of a file, tagged with the session generation
/// it was issued for.
#[derive(Debug, Clone)]
pub struct LoadRequest {
    pub path: String,
    pub start_row: usize,
    pub row_count: usize,
    pub sheet_index: usize,
    pub generation: u64,
}

/// The per-session loading state.
pub struct Session {
    path: Option<String>,
    generation: u64,
    table: Vec<Vec<String>>,
    headers: Vec<String>,
    headers_loaded: bool,
    sheet_names: Vec<String>,
    current_sheet: usize,
    is_excel_file: bool,
    rows_to_show: usize,
    end_of_file: bool,
    loading: bool,
    error: Option<String>,
}

impl Session {
    pub closed spec fn path(&self) -> Option<String> {
        self.path
    }

    pub closed spec fn generation(&self) -> u64 {
        self.generation
    }

    /// The rows merged so far.
    pub closed spec fn rows(&self) -> Seq<Vec<String>> {
        self.table@
    }

    pub closed spec fn header_row(&self) -> Seq<String> {
        self.headers@
    }

    pub closed spec fn headers_resolved(&self) -> bool {
        self.headers_loaded
    }

    pub closed spec fn catalog(&self) -> Seq<String> {
        self.sheet_names@
    }

    pub closed spec fn sheet(&self) -> usize {
        self.current_sheet
    }

    pub closed spec fn sheeted(&self) -> bool {
        self.is_excel_file
    }

    /// The number of rows the consumer wants shown.
    pub closed spec fn target(&self) -> nat {
        self.rows_to_show as nat
    }

    pub closed spec fn ended(&self) -> bool {
        self.end_of_file
    }

    pub closed spec fn in_flight(&self) -> bool {
        self.loading
    }

    pub closed spec fn failure(&self) -> Option<String> {
        self.error
    }

    /// A request is in flight only while the data has not ended.
    pub closed spec fn wf(&self) -> bool {
        self.loading ==> !self.end_of_file
    }

    pub open spec fn status(&self) -> SessionStatus {
        if self.in_flight() {
            SessionStatus::Loading
        } else if self.failure() is Some {
            SessionStatus::Error
        } else if self.ended() {
            SessionStatus::Complete
        } else {
            SessionStatus::Idle
        }
    }

    /// The request that the state asks for next, if any: none while one is
    /// in flight, after an error, at the end of the data, without a file,
    /// or when the target is already filled.
    pub open spec fn next_request(&self) -> Option<(nat, nat)> {
        if self.status() == SessionStatus::Idle && self.path() is Some && self.rows().len()
            < self.target() {
            Some((self.rows().len(), (self.target() - self.rows().len()) as nat))
        } else {
            None
        }
    }

    /// The session state that a reset leaves (rows, headers, end of data,
    /// error and window size), apart from the catalog and the sheet.
    pub open spec fn is_fresh(&self) -> bool {
        &&& self.rows().len() == 0
        &&& self.header_row().len() == 0
        &&& !self.headers_resolved()
        &&& !self.ended()
        &&& self.failure() is None
        &&& self.target() == WINDOW_INCREMENT
    }

    /// A session with no file open.
    pub fn new() -> (r: Session)
        ensures
            r.wf(),
            r.path() is None,
            r.is_fresh(),
            r.catalog().len() == 0,
            r.sheet() == 0,
            !r.in_flight(),
            r.generation() == 0,
    {
        Session {
            path: None,
            generation: 0,
            table: Vec::new(),
            headers: Vec::new(),
            headers_loaded: false,
            sheet_names: Vec::new(),
            current_sheet: 0,
            is_excel_file: false,
            rows_to_show: WINDOW_INCREMENT,
            end_of_file: false,
            loading: false,
            error: None,
        }
    }

    fn next_generation(&mut self)
        ensures
            final(self).generation != old(self).generation,
            final(self).path == old(self).path,
            final(self).table == old(self).table,
            final(self).headers == old(self).headers,
            final(self).headers_loaded == old(self).headers_loaded,
            final(self).sheet_names == old(self).sheet_names,
            final(self).current_sheet == old(self).current_sheet,
            final(self).is_excel_file == old(self).is_excel_file,
            final(self).rows_to_show == old(self).rows_to_show,
            final(self).end_of_file == old(self).end_of_file,
            final(self).loading == old(self).loading,
            final(self).error == old(self).error,
    {
        self.generation = if self.generation < u64::MAX {
            self.generation + 1
        } else {
            0
        };
    }

    /// Forgets everything loaded for the current file and starts a new
    /// generation, so that a result still in flight is discarded.
    pub fn reset_state(&mut self)
        requires
            old(self).wf(),
        ensures
            final(self).wf(),
            final(self).is_fresh(),
            final(self).catalog().len() == 0,
            final(self).sheet() == 0,
            !final(self).sheeted(),
            !final(self).in_flight(),
            final(self).path() == old(self).path(),
            final(self).generation() != old(self).generation(),
    {
        self.table.clear();
        self.headers.clear();
        self.headers_loaded = false;
        self.sheet_names.clear();
        self.current_sheet = 0;
        self.is_excel_file = false;
        self.error = None;
        self.end_of_file = false;
        self.rows_to_show = WINDOW_INCREMENT;
        self.loading = false;
        self.next_generation();
    }

    /// Issues the request for the rest of the target window, if the state
    /// asks for one, and marks it in flight.
    pub fn load_more_data(&mut self) -> (r: Option<LoadRequest>)
        requires
            old(self).wf(),
        ensures
            final(self).wf(),
            match old(self).next_request() {
                Some((start, count)) => r matches Some(q) && q.start_row == start && q.row_count
                    == count && q.sheet_index == old(self).sheet() && q.generation
                    == old(self).generation() && old(self).path() == Some(q.path)
                    && final(self).in_flight(),
                None => r is None && final(self).in_flight() == old(self).in_flight(),
            },
            final(self).rows() == old(self).rows(),
            final(self).header_row() == old(self).header_row(),
            final(self).headers_resolved() == old(self).headers_resolved(),
            final(self).catalog() == old(self).catalog(),
            final(self).sheet() == old(self).sheet(),
            final(self).sheeted() == old(self).sheeted(),
            final(self).target() == old(self).target(),
            final(self).ended() == old(self).ended(),
            final(self).failure() == old(self).failure(),
            final(self).path() == old(self).path(),
            final(self).generation() == old(self).generation(),
            old(self).ended() ==> r is None,
    {
        if self.loading || self.error.is_some() || self.end_of_file {
            return None;
        }
        let path = match &self.path {
            Some(p) => p.clone(),
            None => return None,
        };
        if self.table.len() >= self.rows_to_show {
            return None;
        }
        self.loading = true;
        Some(
            LoadRequest {
                path,
                start_row: self.table.len(),
                row_count: self.rows_to_show - self.table.len(),
                sheet_index: self.current_sheet,
                generation: self.generation,
            },
        )
    }

    /// Opens a file: resets the session and asks for its first window.
    pub fn open_file(&mut self, path: String) -> (r: Option<LoadRequest>)
        requires
            old(self).wf(),
        ensures
            final(self).wf(),
            final(self).is_fresh(),
            final(self).catalog().len() == 0,
            final(self).sheet() == 0,
            final(self).path() == Some(path),
            final(self).generation() != old(self).generation(),
            r matches Some(q) && q.start_row == 0 && q.row_count == WINDOW_INCREMENT
                && q.sheet_index == 0 && q.generation == final(self).generation() && q.path
                == path,
            final(self).in_flight(),
    {
        self.reset_state();
        self.path = Some(path);
        self.load_more_data()
    }

    /// Switches to another sheet of the catalog: resets what was loaded and
    /// asks for the sheet's first window. The current sheet, or an index
    /// outside the catalog, changes nothing.
    pub fn switch_sheet(&mut self, sheet_index: usize) -> (r: Option<LoadRequest>)
        requires
            old(self).wf(),
        ensures
            final(self).wf(),
            sheet_index != old(self).sheet() && sheet_index < old(self).catalog().len() ==> {
                &&& final(self).is_fresh()
                &&& final(self).sheet() == sheet_index
                &&& final(self).catalog() == old(self).catalog()
                &&& final(self).path() == old(self).path()
                &&& final(self).generation() != old(self).generation()
                &&& (old(self).path() is Some ==> (r matches Some(q) && q.start_row == 0
                    && q.row_count == WINDOW_INCREMENT && q.sheet_index == sheet_index
                    && q.generation == final(self).generation() && final(self).in_flight()))
            },
            !(sheet_index != old(self).sheet() && sheet_index < old(self).catalog().len()) ==> r
                is None && *final(self) == *old(self),
    {
        if sheet_index != self.current_sheet && sheet_index < self.sheet_names.len() {
            self.current_sheet = sheet_index;
            self.table.clear();
            self.headers.clear();
            self.headers_loaded = false;
            self.end_of_file = false;
            self.error = None;
            self.rows_to_show = WINDOW_INCREMENT;
            self.loading = false;
            self.next_generation();
            self.load_more_data()
        } else {
            None
        }
    }

    /// The consumer neared the end of what it shows: unless a request is in
    /// flight or the data ended, the target grows by one increment and the
    /// rest of it is asked for.
    pub fn near_bottom(&mut self) -> (r: Option<LoadRequest>)
        requires
            old(self).wf(),
        ensures
            final(self).wf(),
            old(self).in_flight() || old(self).ended() ==> r is None && *final(self) == *old(self),
            !old(self).in_flight() && !old(self).ended() ==> final(self).target() == if old(self).target() + WINDOW_INCREMENT <= usize::MAX {
                old(self).target() + WINDOW_INCREMENT
            } else {
                usize::MAX as int
            },
            !old(self).in_flight() && !old(self).ended() && old(self).failure() is None
                && old(self).path() is Some && old(self).rows().len() < final(self).target() ==> (
            r matches Some(q) && q.start_row == old(self).rows().len() && q.row_count == final(self).target() - old(self).rows().len() && q.sheet_index == old(self).sheet()
                && q.generation == old(self).generation() && final(self).in_flight()),
            !(old(self).failure() is None && old(self).path() is Some && old(self).rows().len()
                < final(self).target()) ==> r is None,
            final(self).rows() == old(self).rows(),
            final(self).header_row() == old(self).header_row(),
            final(self).ended() == old(self).ended(),
            final(self).generation() == old(self).generation(),
    {
        if self.loading || self.end_of_file {
            return None;
        }
        self.rows_to_show = if self.rows_to_show <= usize::MAX - WINDOW_INCREMENT {
            self.rows_to_show + WINDOW_INCREMENT
        } else {
            usize::MAX
        };
        self.load_more_data()
    }

    /// Keeps the first non-empty catalog that arrives.
    fn update_sheet_info(&mut self, sheet_names: Vec<String>)
        ensures
            old(self).sheet_names@.len() == 0 && sheet_names@.len() > 0 ==> final(self).sheet_names@ == sheet_names@ && final(self).is_excel_file == (sheet_names@.len() > 1
                || sheet_names@[0]@ != DELIMITED_SHEET_NAME@),
            !(old(self).sheet_names@.len() == 0 && sheet_names@.len() > 0) ==> final(self).sheet_names == old(self).sheet_names && final(self).is_excel_file == old(self).is_excel_file,
            final(self).path == old(self).path,
            final(self).generation == old(self).generation,
            final(self).table == old(self).table,
            final(self).headers == old(self).headers,
            final(self).headers_loaded == old(self).headers_loaded,
            final(self).current_sheet == old(self).current_sheet,
            final(self).rows_to_show == old(self).rows_to_show,
            final(self).end_of_file == old(self).end_of_file,
            final(self).loading == old(self).loading,
            final(self).error == old(self).error,
    {
        if self.sheet_names.len() == 0 && sheet_names.len() > 0 {
            let sentinel = DELIMITED_SHEET_NAME.to_owned();
            self.is_excel_file = sheet_names.len() > 1 || !(sheet_names[0] == sentinel);
            self.sheet_names = sheet_names;
        }
    }

    /// Keeps the first non-empty header row that arrives.
    fn update_headers(&mut self, headers: Vec<String>)
        ensures
            !old(self).headers_loaded && headers@.len() > 0 ==> final(self).headers@ == headers@
                && final(self).headers_loaded,
            !(!old(self).headers_loaded && headers@.len() > 0) ==> final(self).headers
                == old(self).headers && final(self).headers_loaded == old(self).headers_loaded,
            final(self).path == old(self).path,
            final(self).generation == old(self).generation,
            final(self).table == old(self).table,
            final(self).sheet_names == old(self).sheet_names,
            final(self).is_excel_file == old(self).is_excel_file,
            final(self).current_sheet == old(self).current_sheet,
            final(self).rows_to_show == old(self).rows_to_show,
            final(self).end_of_file == old(self).end_of_file,
            final(self).loading == old(self).loading,
            final(self).error == old(self).error,
    {
        if !self.headers_loaded && headers.len() > 0 {
            self.headers = headers;
            self.headers_loaded = true;
        }
    }

    /// Merges the result of the request issued for `generation`. A result
    /// for another generation, or one that arrives with no request in
    /// flight, is discarded and changes nothing; the answer says whether it
    /// was merged. A success appends its rows, keeps the first catalog and
    /// the first header row, and records the end of data; a failure is kept
    /// for display, with the rows merged so far.
    pub fn handle_data_response(
        &mut self,
        generation: u64,
        result: Result<LoadResult, String>,
    ) -> (r: bool)
        requires
            old(self).wf(),
        ensures
            final(self).wf(),
            r == (old(self).in_flight() && generation == old(self).generation()),
            !r ==> *final(self) == *old(self),
            r ==> !final(self).in_flight(),
            r ==> match result {
                Ok(res) => {
                    &&& final(self).rows() == old(self).rows() + res.rows@
                    &&& final(self).ended() == res.end_of_data
                    &&& final(self).failure() == old(self).failure()
                    &&& final(self).header_row() == if !old(self).headers_resolved()
                        && res.headers@.len() > 0 {
                        res.headers@
                    } else {
                        old(self).header_row()
                    }
                    &&& final(self).catalog() == if old(self).catalog().len() == 0 {
                        res.sheet_names@
                    } else {
                        old(self).catalog()
                    }
                    &&& final(self).sheeted() == if old(self).catalog().len() == 0
                        && res.sheet_names@.len() > 0 {
                        res.sheet_names@.len() > 1 || res.sheet_names@[0]@
                            != DELIMITED_SHEET_NAME@
                    } else {
                        old(self).sheeted()
                    }
                },
                Err(e) => {
                    &&& final(self).rows() == old(self).rows()
                    &&& final(self).failure() == Some(e)
                    &&& final(self).ended() == old(self).ended()
                    &&& final(self).header_row() == old(self).header_row()
                    &&& final(self).catalog() == old(self).catalog()
                },
            },
            old(self).headers_resolved() ==> final(self).headers_resolved()
                && final(self).header_row() == old(self).header_row(),
            old(self).ended() ==> final(self).ended() && final(self).rows() == old(self).rows(),
            final(self).path() == old(self).path(),
            final(self).generation() == old(self).generation(),
            final(self).sheet() == old(self).sheet(),
            final(self).target() == old(self).target(),
    {
        if !self.loading || generation != self.generation {
            return false;
        }
        self.loading = false;
        match result {
            Ok(res) => {
                let LoadResult { headers, rows, sheet_names, end_of_data } = res;
                self.update_sheet_info(sheet_names);
                self.update_headers(headers);
                let mut rows = rows;
                self.table.append(&mut rows);
                self.end_of_file = end_of_data;
            },
            Err(e) => {
                self.error = Some(e);
            },
        }
        true
    }

    /// The rows merged so far.
    pub fn table(&self) -> (r: &Vec<Vec<String>>)
        ensures
            r@ == self.rows(),
    {
        &self.table
    }

    /// The header row, empty until resolved.
    pub fn headers(&self) -> (r: &Vec<String>)
        ensures
            r@ == self.header_row(),
    {
        &self.headers
    }

    /// The sheet catalog, empty until the first result.
    pub fn sheet_names(&self) -> (r: &Vec<String>)
        ensures
            r@ == self.catalog(),
    {
        &self.sheet_names
    }

    /// Whether the catalog names real sheets, so that a sheet selector is shown.
    pub fn is_excel_file(&self) -> (r: bool)
        ensures
            r == self.sheeted(),
    {
        self.is_excel_file
    }

    pub fn current_sheet(&self) -> (r: usize)
        ensures
            r == self.sheet(),
    {
        self.current_sheet
    }

    pub fn file_path(&self) -> (r: Option<&String>)
        ensures
            r matches Some(p) ==> self.path() == Some(*p),
            r is None <==> self.path() is None,
    {
        match &self.path {
            Some(p) => Some(p),
            None => None,
        }
    }

    pub fn error(&self) -> (r: Option<&String>)
        ensures
            r matches Some(e) ==> self.failure() == Some(*e),
            r is None <==> self.failure() is None,
    {
        match &self.error {
            Some(e) => Some(e),
            None => None,
        }
    }

    pub fn current_status(&self) -> (r: SessionStatus)
        ensures
            r == self.status(),
    {
        if self.loading {
            SessionStatus::Loading
        } else if self.error.is_some() {
            SessionStatus::Error
        } else if self.end_of_file {
            SessionStatus::Complete
        } else {
            SessionStatus::Idle
        }
    }
}

} // verus!
