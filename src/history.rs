//! The history of generated reports.
use vstd::prelude::*;

verus! {

#[derive(Debug, Clone)]
pub struct ReportEntry {
    pub session_id: String,
    pub timestamp: u64,
    pub main_report_url: String,
    pub legacy_report_url: Option<String>,
}

/// A report entry as plain values.
pub ghost struct EntryModel {
    pub session_id: Seq<char>,
    pub timestamp: u64,
    pub main_report_url: Seq<char>,
    pub legacy_report_url: Option<Seq<char>>,
}

impl View for ReportEntry {
    type V = EntryModel;

    open spec fn view(&self) -> EntryModel {
        EntryModel {
            session_id: self.session_id@,
            timestamp: self.timestamp,
            main_report_url: self.main_report_url@,
            legacy_report_url: match self.legacy_report_url {
                Some(u) => Some(u@),
                None => None,
            },
        }
    }
}

#[derive(Debug, Clone, Default)]
pub struct ReportHistory {
    pub reports: Vec<ReportEntry>,
}

impl View for ReportHistory {
    type V = Seq<EntryModel>;

    open spec fn view(&self) -> Seq<EntryModel> {
        self.reports@.map_values(|e: ReportEntry| e@)
    }
}

impl ReportHistory {
    pub fn new() -> (r: ReportHistory)
        ensures
            r@ == Seq::<EntryModel>::empty(),
    {
        let r = ReportHistory { reports: Vec::new() };
        assert(r@ =~= Seq::<EntryModel>::empty());
        r
    }

    /// Appends a report session with its main and optional legacy URLs.
    pub fn add_report(
        &mut self,
        session_id: String,
        timestamp: u64,
        main_url: String,
        legacy_url: Option<String>,
    )
        ensures
            final(self)@ == old(self)@.push(
                (ReportEntry {
                    session_id,
                    timestamp,
                    main_report_url: main_url,
                    legacy_report_url: legacy_url,
                })@,
            ),
    {
        let entry = ReportEntry {
            session_id,
            timestamp,
            main_report_url: main_url,
            legacy_report_url: legacy_url,
        };
        self.reports.push(entry);
        assert(self@ =~= old(self)@.push(entry@));
    }

    /// Removes the report at `index`; an index past the end changes nothing.
    pub fn remove_report(&mut self, index: usize)
        ensures
            index < old(self)@.len() ==> final(self)@ == old(self)@.remove(index as int),
            index >= old(self)@.len() ==> final(self)@ == old(self)@,
    {
        if index < self.reports.len() {
            self.reports.remove(index);
            assert(self@ =~= old(self)@.remove(index as int));
        }
    }

    /// Removes every report.
    pub fn clear(&mut self)
        ensures
            final(self)@ == Seq::<EntryModel>::empty(),
    {
        self.reports.clear();
        assert(self@ =~= Seq::<EntryModel>::empty());
    }
}

} // verus!
