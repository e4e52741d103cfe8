//! Which parts of the report are shown.
use vstd::prelude::*;

verus! {

/// The sections a report shows, and whether it shows them in full.
#[derive(Debug)]
pub struct DisplayConfig {
    pub show_header: bool,
    pub show_emails: bool,
    pub show_threads: bool,
    pub show_daily_activity: bool,
    pub show_averages: bool,
    pub show_summary: bool,
    pub show_unanswered: bool,
    pub verbose: bool,
}

/// The configuration that shows nothing, briefly.
pub open spec fn hidden() -> DisplayConfig {
    DisplayConfig {
        show_header: false,
        show_emails: false,
        show_threads: false,
        show_daily_activity: false,
        show_averages: false,
        show_summary: false,
        show_unanswered: false,
        verbose: false,
    }
}

impl Default for DisplayConfig {
    fn default() -> (r: DisplayConfig)
        ensures
            r == hidden(),
    {
        DisplayConfig {
            show_header: false,
            show_emails: false,
            show_threads: false,
            show_daily_activity: false,
            show_averages: false,
            show_summary: false,
            show_unanswered: false,
            verbose: false,
        }
    }
}

impl DisplayConfig {
    /// A configuration that shows nothing, briefly.
    pub fn new() -> (r: DisplayConfig)
        ensures
            r == hidden(),
    {
        DisplayConfig::default()
    }

    /// Shows the header or not.
    pub fn with_header(self, show: bool) -> (r: DisplayConfig)
        ensures
            r == (DisplayConfig { show_header: show, ..self }),
    {
        let mut c = self;
        c.show_header = show;
        c
    }

    /// Lists the emails or not.
    pub fn with_emails(self, show: bool) -> (r: DisplayConfig)
        ensures
            r == (DisplayConfig { show_emails: show, ..self }),
    {
        let mut c = self;
        c.show_emails = show;
        c
    }

    /// Lists the threads or not.
    pub fn with_threads(self, show: bool) -> (r: DisplayConfig)
        ensures
            r == (DisplayConfig { show_threads: show, ..self }),
    {
        let mut c = self;
        c.show_threads = show;
        c
    }

    /// Shows the activity per period or not.
    pub fn with_daily_activity(self, show: bool) -> (r: DisplayConfig)
        ensures
            r == (DisplayConfig { show_daily_activity: show, ..self }),
    {
        let mut c = self;
        c.show_daily_activity = show;
        c
    }

    /// Shows the averages per day or not.
    pub fn with_averages(self, show: bool) -> (r: DisplayConfig)
        ensures
            r == (DisplayConfig { show_averages: show, ..self }),
    {
        let mut c = self;
        c.show_averages = show;
        c
    }

    /// Shows the closing summary or not.
    pub fn with_summary(self, show: bool) -> (r: DisplayConfig)
        ensures
            r == (DisplayConfig { show_summary: show, ..self }),
    {
        let mut c = self;
        c.show_summary = show;
        c
    }

    /// Shows every field of what is listed, or one line each.
    pub fn verbose(self, verbose: bool) -> (r: DisplayConfig)
        ensures
            r == (DisplayConfig { verbose, ..self }),
    {
        let mut c = self;
        c.verbose = verbose;
        c
    }

    /// Lists the unanswered emails or not.
    pub fn with_unanswered_emails(self, show: bool) -> (r: DisplayConfig)
        ensures
            r == (DisplayConfig { show_unanswered: show, ..self }),
    {
        let mut c = self;
        c.show_unanswered = show;
        c
    }
}

} // verus!
