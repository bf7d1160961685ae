//! The browser information plugin: where its browser service is reached, and
//! how the service's reply becomes the plugin's answer.
use vstd::prelude::*;

verus! {

/// The browser service address used when none is configured.
pub open spec fn default_browser_service_address() -> Seq<char> {
    "http://127.0.0.1:50051"@
}

/// The browser service address: the browser-specific setting, else the
/// general service setting, else the default.
pub fn browser_service_address(browser_setting: Option<String>, general_setting: Option<String>) -> (r:
    String)
    ensures
        r@ == match browser_setting {
            Some(a) => a@,
            None => match general_setting {
                Some(a) => a@,
                None => default_browser_service_address(),
            },
        },
{
    match browser_setting {
        Some(a) => a,
        None => match general_setting {
            Some(a) => a,
            None => String::from_str("http://127.0.0.1:50051"),
        },
    }
}

/// Whether the stand-in mode setting turns the stand-in answer on: only the
/// text `1` does.
pub fn stand_in_mode(setting: Option<&str>) -> (r: bool)
    ensures
        r == (setting matches Some(s) && s@ == "1"@),
{
    proof {
        reveal_strlit("1");
    }
    match setting {
        Some(s) => {
            if s.unicode_len() == 1 {
                let c = s.get_char(0);
                proof {
                    if c == '1' {
                        assert(s@ =~= "1"@);
                    }
                }
                c == '1'
            } else {
                false
            }
        },
        None => false,
    }
}

/// The text used when the service reports a failure without a message.
pub open spec fn unknown_service_error() -> Seq<char> {
    "Unknown error from server"@
}

/// The plugin's answer to the service's reply: on success the context data,
/// or an empty JSON object when there is none; on failure the service's
/// error message, or [`unknown_service_error`] when there is none.
pub fn context_data_answer(
    success: bool,
    context_data: Option<String>,
    error_message: Option<String>,
) -> (r: Result<String, String>)
    ensures
        success ==> (r matches Ok(t) && t@ == match context_data {
            Some(d) => d@,
            None => "{}"@,
        }),
        !success ==> (r matches Err(e) && e@ == match error_message {
            Some(m) => m@,
            None => unknown_service_error(),
        }),
{
    if success {
        match context_data {
            Some(d) => Ok(d),
            None => Ok(String::from_str("{}")),
        }
    } else {
        match error_message {
            Some(m) => Err(m),
            None => Err(String::from_str("Unknown error from server")),
        }
    }
}


/// The limits a script may pass when it asks for the context data.
pub struct ContextDataParams {
    pub history_limit: Option<i32>,
    pub download_limit: Option<i32>,
}

/// A visited page of the stand-in history.
pub struct VisitedPage {
    pub title: String,
    pub url: String,
    pub last_visited: String,
}

/// A download of the stand-in download list.
pub struct Download {
    pub file_name: String,
    pub size_bytes: u64,
    pub status: String,
}

/// An open tab of the stand-in tab list.
pub struct OpenTab {
    pub id: String,
    pub title: String,
    pub url: String,
    pub active: bool,
}

/// What the stand-in answer says about itself: that it is a stand-in, when it
/// was written, and the limits the script asked for.
pub struct StandInMeta {
    pub dummy: bool,
    pub generated_at: String,
    pub history_limit: Option<i32>,
    pub download_limit: Option<i32>,
}

/// The context data answered in stand-in mode, without asking the service.
pub struct StandInContext {
    pub history: Vec<VisitedPage>,
    pub downloads: Vec<Download>,
    pub tabs: Vec<OpenTab>,
    pub meta: StandInMeta,
}

/// The value of a stand-in answer: pages as (title, url, last visited),
/// downloads as (file name, size, status), tabs as (id, title, url, active),
/// and the meta fields.
#[verifier::ext_equal]
pub struct StandInContextView {
    pub history: Seq<(Seq<char>, Seq<char>, Seq<char>)>,
    pub downloads: Seq<(Seq<char>, u64, Seq<char>)>,
    pub tabs: Seq<(Seq<char>, Seq<char>, Seq<char>, bool)>,
    pub dummy: bool,
    pub generated_at: Seq<char>,
    pub history_limit: Option<i32>,
    pub download_limit: Option<i32>,
}

impl View for StandInContext {
    type V = StandInContextView;

    open spec fn view(&self) -> StandInContextView {
        StandInContextView {
            history: self.history@.map_values(
                |p: VisitedPage| (p.title@, p.url@, p.last_visited@),
            ),
            downloads: self.downloads@.map_values(|d: Download| (d.file_name@, d.size_bytes, d.status@)),
            tabs: self.tabs@.map_values(|t: OpenTab| (t.id@, t.title@, t.url@, t.active)),
            dummy: self.meta.dummy,
            generated_at: self.meta.generated_at@,
            history_limit: self.meta.history_limit,
            download_limit: self.meta.download_limit,
        }
    }
}

/// The stand-in answer for a request with `params`: two visited pages, one
/// finished download and two tabs, marked as a stand-in, echoing the limits
/// the request gave (none when it gave no parameters).
pub open spec fn spec_stand_in_context(params: Option<ContextDataParams>) -> StandInContextView {
    StandInContextView {
        history: seq![
            ("Example Site"@, "https://example.com"@, "2025-09-07T12:00:00Z"@),
            ("Rust Lang"@, "https://www.rust-lang.org/"@, "2025-09-07T12:05:00Z"@),
        ],
        downloads: seq![("report.pdf"@, 1048576u64, "completed"@)],
        tabs: seq![
            ("tab-1"@, "Start Page"@, "about:home"@, true),
            ("tab-2"@, "Docs"@, "https://docs.example.com"@, false),
        ],
        dummy: true,
        generated_at: "2025-09-07T12:10:00Z"@,
        history_limit: match params {
            Some(p) => p.history_limit,
            None => None,
        },
        download_limit: match params {
            Some(p) => p.download_limit,
            None => None,
        },
    }
}

fn visited_page(title: &str, url: &str, last_visited: &str) -> (r: VisitedPage)
    ensures
        r.title@ == title@,
        r.url@ == url@,
        r.last_visited@ == last_visited@,
{
    VisitedPage {
        title: String::from_str(title),
        url: String::from_str(url),
        last_visited: String::from_str(last_visited),
    }
}

fn open_tab(id: &str, title: &str, url: &str, active: bool) -> (r: OpenTab)
    ensures
        r.id@ == id@,
        r.title@ == title@,
        r.url@ == url@,
        r.active == active,
{
    OpenTab { id: String::from_str(id), title: String::from_str(title), url: String::from_str(url), active }
}

/// The context data answered in stand-in mode for a request with `params`.
pub fn stand_in_context(params: Option<ContextDataParams>) -> (r: StandInContext)
    ensures
        r@ == spec_stand_in_context(params),
{
    let (history_limit, download_limit) = match &params {
        Some(p) => (p.history_limit, p.download_limit),
        None => (None, None),
    };
    let mut history: Vec<VisitedPage> = Vec::new();
    history.push(visited_page("Example Site", "https://example.com", "2025-09-07T12:00:00Z"));
    history.push(visited_page("Rust Lang", "https://www.rust-lang.org/", "2025-09-07T12:05:00Z"));
    let mut downloads: Vec<Download> = Vec::new();
    downloads.push(
        Download {
            file_name: String::from_str("report.pdf"),
            size_bytes: 1048576,
            status: String::from_str("completed"),
        },
    );
    let mut tabs: Vec<OpenTab> = Vec::new();
    tabs.push(open_tab("tab-1", "Start Page", "about:home", true));
    tabs.push(open_tab("tab-2", "Docs", "https://docs.example.com", false));
    let r = StandInContext {
        history,
        downloads,
        tabs,
        meta: StandInMeta {
            dummy: true,
            generated_at: String::from_str("2025-09-07T12:10:00Z"),
            history_limit,
            download_limit,
        },
    };
    proof {
        assert(r@ =~= spec_stand_in_context(params));
    }
    r
}

} // verus!
