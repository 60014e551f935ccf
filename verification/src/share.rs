//! Decisions around the shared browser tab: what a report from the share
//! preview does to the share state, which sources it offers for recording,
//! and which windows may use which commands.
use vstd::prelude::*;
use crate::models::{
    CaptureSource, ShareBrowserOption, ShareReport, ShareReportError, ShareState,
    default_share_title,
};
use crate::text::{is_blank, blank, same_text, decimal, decimal_text};

verus! {

/// Id of the capture source that stands for the shared tab.
pub const SHARE_SOURCE_ID: &'static str = "share:preview";

/// Label of the share preview window.
pub const SHARE_WINDOW_LABEL: &'static str = "share-preview";

/// Label of the main window.
pub const MAIN_WINDOW_LABEL: &'static str = "main";

/// The state after a valid `report`, with the share window open or not.
pub open spec fn reported(report: ShareReport, window_open: bool, next: ShareState) -> bool {
    &&& next.window_open == window_open
    &&& next.active == report.active
    &&& if report.active {
        &&& next.title@ == (if is_blank(report.title@) { default_share_title() } else { report.title@ })
        &&& next.display_surface == report.display_surface
        &&& next.width == report.width
        &&& next.height == report.height
        &&& next.has_audio == report.has_audio
    } else {
        &&& next.title@ == default_share_title()
        &&& next.display_surface@ == Seq::<char>::empty()
        &&& next.width == 0
        &&& next.height == 0
        &&& !next.has_audio
    }
}

/// Label of a kind of shared surface, as the source list shows it.
pub open spec fn surface_label(surface: Seq<char>) -> Seq<char> {
    if surface == "browser"@ {
        "ブラウザタブ"@
    } else if surface == "window"@ {
        "ウィンドウ"@
    } else if surface == "monitor"@ {
        "モニター"@
    } else {
        "共有画面"@
    }
}

/// The source list entry of the shared tab.
pub open spec fn share_source_matches(s: CaptureSource, state: ShareState) -> bool {
    &&& s.id@ == "share:preview"@
    &&& s.kind@ == "browser"@
    &&& s.name == state.title
    &&& s.detail@ == surface_label(state.display_surface@) + "を共有中 · "@ + decimal_text(
        state.width as nat,
    ) + " × "@ + decimal_text(state.height as nat)
}

/// Why a share command is refused.
#[derive(Debug, Clone, Copy, PartialEq, Eq, Structural)]
pub enum ShareError {
    /// Nothing is shared, or the share window is closed.
    NothingShared,
    /// The browser to open is unknown.
    InvalidBrowser,
    /// The recording request names the shared tab with a wrong id.
    InvalidShareSourceId,
    /// A command of the main window came from elsewhere.
    NotMainWindow,
    /// A command of the share window came from elsewhere.
    NotShareWindow,
}

/// The message shown for each [`ShareError`].
pub open spec fn share_error_text(e: ShareError) -> Seq<char> {
    match e {
        ShareError::NothingShared => "先にブラウザ画面から録画するタブを共有してください。"@,
        ShareError::InvalidBrowser => "共有先ブラウザの指定が不正です。"@,
        ShareError::InvalidShareSourceId => "共有タブIDが不正です。"@,
        ShareError::NotMainWindow => "外部Webページからアプリ機能は実行できません。"@,
        ShareError::NotShareWindow => "タブ共有ウィンドウ以外から共有状態は変更できません。"@,
    }
}

impl ShareError {
    pub fn message(&self) -> (r: String)
        ensures
            r@ == share_error_text(*self),
    {
        match self {
            ShareError::NothingShared => String::from_str(
                "先にブラウザ画面から録画するタブを共有してください。",
            ),
            ShareError::InvalidBrowser => String::from_str("共有先ブラウザの指定が不正です。"),
            ShareError::InvalidShareSourceId => String::from_str("共有タブIDが不正です。"),
            ShareError::NotMainWindow => String::from_str(
                "外部Webページからアプリ機能は実行できません。",
            ),
            ShareError::NotShareWindow => String::from_str(
                "タブ共有ウィンドウ以外から共有状態は変更できません。",
            ),
        }
    }
}

impl ShareState {
    /// Takes a report from the share preview. A refused report changes
    /// nothing; an accepted one describes the stream, or resets the
    /// description when the stream has ended.
    pub fn apply_report(&mut self, report: ShareReport, window_open: bool) -> (r: Result<
        ShareState,
        ShareReportError,
    >)
        ensures
            report.validation() is Err ==> r == Err::<ShareState, ShareReportError>(
                report.validation()->Err_0,
            ) && *final(self) == *old(self),
            report.validation() is Ok ==> (r matches Ok(next) && next == *final(self) && reported(
                report,
                window_open,
                next,
            )),
    {
        match report.validate() {
            Err(e) => {
                return Err(e);
            },
            Ok(()) => {},
        }
        self.window_open = window_open;
        self.active = report.active;
        if report.active {
            self.title = if blank(report.title.as_str()) {
                String::from_str("共有タブ")
            } else {
                report.title
            };
            self.display_surface = report.display_surface;
            self.width = report.width;
            self.height = report.height;
            self.has_audio = report.has_audio;
        } else {
            self.title = String::from_str("共有タブ");
            self.display_surface = String::new();
            self.width = 0;
            self.height = 0;
            self.has_audio = false;
        }
        Ok(
            ShareState {
                window_open: self.window_open,
                active: self.active,
                title: self.title.clone(),
                display_surface: self.display_surface.clone(),
                width: self.width,
                height: self.height,
                has_audio: self.has_audio,
            },
        )
    }

    /// The shared tab as a capture source, while the share window is open and
    /// a stream is shared; nothing otherwise.
    pub fn capture_sources(&self) -> (r: Vec<CaptureSource>)
        ensures
            !(self.window_open && self.active) ==> r@.len() == 0,
            self.window_open && self.active ==> r@.len() == 1 && share_source_matches(r@[0], *self),
    {
        let mut r: Vec<CaptureSource> = Vec::new();
        if !self.window_open || !self.active {
            return r;
        }
        let surface = if same_text(self.display_surface.as_str(), "browser") {
            "ブラウザタブ"
        } else if same_text(self.display_surface.as_str(), "window") {
            "ウィンドウ"
        } else if same_text(self.display_surface.as_str(), "monitor") {
            "モニター"
        } else {
            "共有画面"
        };
        let mut detail = String::from_str(surface);
        detail.append("を共有中 · ");
        let w = decimal(self.width as u64);
        detail.append(w.as_str());
        detail.append(" × ");
        let h = decimal(self.height as u64);
        detail.append(h.as_str());
        r.push(
            CaptureSource {
                id: String::from_str("share:preview"),
                kind: String::from_str("browser"),
                name: self.title.clone(),
                detail,
            },
        );
        r
    }

    /// Refuses to record the shared tab unless the share window is open and a stream is shared.
    pub fn check_recordable(&self) -> (r: Result<(), ShareError>)
        ensures
            r is Ok <==> self.window_open && self.active,
            r is Err ==> r == Err::<(), ShareError>(ShareError::NothingShared),
    {
        if !self.window_open || !self.active {
            Err(ShareError::NothingShared)
        } else {
            Ok(())
        }
    }
}

/// A report of an ended stream always leaves the description reset, whatever it carried.
pub proof fn law_ended_stream_resets_description(report: ShareReport, window_open: bool, next: ShareState)
    requires
        !report.active,
        reported(report, window_open, next),
    ensures
        next.title@ == default_share_title(),
        next.display_surface@ == Seq::<char>::empty(),
        next.width == 0 && next.height == 0 && !next.has_audio,
        !next.active,
{
}

/// A stream that the recorder accepts as a source is active and of a size it can encode.
pub proof fn law_offered_share_is_valid(report: ShareReport, window_open: bool, next: ShareState)
    requires
        report.validation() is Ok,
        reported(report, window_open, next),
        next.window_open && next.active,
    ensures
        crate::models::is_share_surface(next.display_surface@),
        1 <= next.width <= 16384,
        1 <= next.height <= 16384,
{
}

/// The browsers that the share page can be opened in, given which are installed.
pub fn browser_options(chrome_available: bool, edge_available: bool) -> (r: Vec<
    ShareBrowserOption,
>)
    ensures
        r@.len() == 3,
        r@[0].id@ == "default"@ && r@[0].name@ == "既定のブラウザ"@ && r@[0].available,
        r@[1].id@ == "chrome"@ && r@[1].name@ == "Google Chrome"@ && r@[1].available
            == chrome_available,
        r@[2].id@ == "edge"@ && r@[2].name@ == "Microsoft Edge"@ && r@[2].available
            == edge_available,
{
    let mut r: Vec<ShareBrowserOption> = Vec::new();
    r.push(
        ShareBrowserOption {
            id: String::from_str("default"),
            name: String::from_str("既定のブラウザ"),
            available: true,
        },
    );
    r.push(
        ShareBrowserOption {
            id: String::from_str("chrome"),
            name: String::from_str("Google Chrome"),
            available: chrome_available,
        },
    );
    r.push(
        ShareBrowserOption {
            id: String::from_str("edge"),
            name: String::from_str("Microsoft Edge"),
            available: edge_available,
        },
    );
    r
}

/// Where the share page is opened.
#[derive(Debug, Clone, Copy, PartialEq, Eq, Structural)]
pub enum BrowserChoice {
    /// The system's default browser.
    SystemDefault,
    /// Google Chrome, found on disk.
    Chrome,
    /// Microsoft Edge, found on disk.
    Edge,
}

/// The browser that an option id names.
pub fn choose_browser(id: &str) -> (r: Result<BrowserChoice, ShareError>)
    ensures
        id@ == "default"@ ==> r == Ok::<BrowserChoice, ShareError>(BrowserChoice::SystemDefault),
        id@ == "chrome"@ ==> r == Ok::<BrowserChoice, ShareError>(BrowserChoice::Chrome),
        id@ == "edge"@ ==> r == Ok::<BrowserChoice, ShareError>(BrowserChoice::Edge),
        !(id@ == "default"@ || id@ == "chrome"@ || id@ == "edge"@) ==> r == Err::<
            BrowserChoice,
            ShareError,
        >(ShareError::InvalidBrowser),
{
    proof {
        reveal_strlit("default");
        reveal_strlit("chrome");
        reveal_strlit("edge");
        assert("default"@[0] != "chrome"@[0]);
        assert("default"@[0] != "edge"@[0]);
        assert("chrome"@[0] != "edge"@[0]);
    }
    if same_text(id, "default") {
        Ok(BrowserChoice::SystemDefault)
    } else if same_text(id, "chrome") {
        Ok(BrowserChoice::Chrome)
    } else if same_text(id, "edge") {
        Ok(BrowserChoice::Edge)
    } else {
        Err(ShareError::InvalidBrowser)
    }
}

/// Where to look for an installed browser: pairs of an environment variable
/// naming a folder and the executable's path below it, in order.
pub fn browser_candidates(choice: BrowserChoice) -> (r: Vec<(String, String)>)
    ensures
        choice is SystemDefault ==> r@.len() == 0,
        choice is Chrome ==> r@.len() == 3 && r@[0].0@ == "ProgramFiles"@ && r@[1].0@
            == "ProgramFiles(x86)"@ && r@[2].0@ == "LOCALAPPDATA"@ && forall|i: int|
            0 <= i < 3 ==> (#[trigger] r@[i]).1@ == "Google\\Chrome\\Application\\chrome.exe"@,
        choice is Edge ==> r@.len() == 3 && r@[0].0@ == "ProgramFiles"@ && r@[1].0@
            == "ProgramFiles(x86)"@ && r@[2].0@ == "LOCALAPPDATA"@ && forall|i: int|
            0 <= i < 3 ==> (#[trigger] r@[i]).1@ == "Microsoft\\Edge\\Application\\msedge.exe"@,
{
    let mut r: Vec<(String, String)> = Vec::new();
    let relative = match choice {
        BrowserChoice::SystemDefault => {
            return r;
        },
        BrowserChoice::Chrome => "Google\\Chrome\\Application\\chrome.exe",
        BrowserChoice::Edge => "Microsoft\\Edge\\Application\\msedge.exe",
    };
    r.push((String::from_str("ProgramFiles"), String::from_str(relative)));
    r.push((String::from_str("ProgramFiles(x86)"), String::from_str(relative)));
    r.push((String::from_str("LOCALAPPDATA"), String::from_str(relative)));
    r
}

/// Refuses commands of the main window that come from any other window.
pub fn ensure_main(label: &str) -> (r: Result<(), ShareError>)
    ensures
        r is Ok <==> label@ == "main"@,
        r is Err ==> r == Err::<(), ShareError>(ShareError::NotMainWindow),
{
    if same_text(label, MAIN_WINDOW_LABEL) {
        Ok(())
    } else {
        Err(ShareError::NotMainWindow)
    }
}

/// Refuses commands of the share window that come from any other window.
pub fn ensure_share(label: &str) -> (r: Result<(), ShareError>)
    ensures
        r is Ok <==> label@ == "share-preview"@,
        r is Err ==> r == Err::<(), ShareError>(ShareError::NotShareWindow),
{
    if same_text(label, SHARE_WINDOW_LABEL) {
        Ok(())
    } else {
        Err(ShareError::NotShareWindow)
    }
}

/// Whether a recording request targets the shared tab; refuses one that names
/// the shared tab's kind with another id.
pub fn share_target(source: &CaptureSource) -> (r: Result<bool, ShareError>)
    ensures
        source.kind@ != "browser"@ ==> r == Ok::<bool, ShareError>(false),
        source.kind@ == "browser"@ && source.id@ == "share:preview"@ ==> r == Ok::<
            bool,
            ShareError,
        >(true),
        source.kind@ == "browser"@ && source.id@ != "share:preview"@ ==> r == Err::<
            bool,
            ShareError,
        >(ShareError::InvalidShareSourceId),
{
    if !same_text(source.kind.as_str(), "browser") {
        Ok(false)
    } else if same_text(source.id.as_str(), SHARE_SOURCE_ID) {
        Ok(true)
    } else {
        Err(ShareError::InvalidShareSourceId)
    }
}

/// Title of the share window: the shared stream's title while one is shared.
pub fn share_window_title(state: &ShareState) -> (r: String)
    ensures
        state.active ==> r@ == "Purple Capture - "@ + state.title@,
        !state.active ==> r@ == "Purple Capture - タブ共有"@,
{
    if state.active {
        let mut t = String::from_str("Purple Capture - ");
        t.append(state.title.as_str());
        t
    } else {
        String::from_str("Purple Capture - タブ共有")
    }
}

/// The script that tells the share page whether it is being recorded, so that
/// it hides its controls while it is.
pub fn recording_mode_script(active: bool) -> (r: &'static str)
    ensures
        active ==> r@ == "window.purpleCaptureShare?.setRecordingMode?.(true)"@,
        !active ==> r@ == "window.purpleCaptureShare?.setRecordingMode?.(false)"@,
{
    if active {
        "window.purpleCaptureShare?.setRecordingMode?.(true)"
    } else {
        "window.purpleCaptureShare?.setRecordingMode?.(false)"
    }
}

/// The source list names the kind of surface shared: a browser tab, a window,
/// a monitor, or a shared screen for anything else, followed by the size.
pub proof fn law_shared_surface_is_named(c: CaptureSource, state: ShareState)
    requires
        share_source_matches(c, state),
    ensures
        ({
            let size = "を共有中 · "@ + decimal_text(state.width as nat) + " × "@ + decimal_text(state.height as nat);
            &&& state.display_surface@ == "browser"@ ==> c.detail@ == "ブラウザタブ"@ + size
            &&& state.display_surface@ == "window"@ ==> c.detail@ == "ウィンドウ"@ + size
            &&& state.display_surface@ == "monitor"@ ==> c.detail@ == "モニター"@ + size
            &&& !(state.display_surface@ == "browser"@ || state.display_surface@ == "window"@
                || state.display_surface@ == "monitor"@) ==> c.detail@ == "共有画面"@ + size
        }),
{
    reveal_strlit("browser");
    reveal_strlit("window");
    reveal_strlit("monitor");
    assert("browser"@[0] != "window"@[0]);
    assert("browser"@[0] != "monitor"@[0]);
    assert("window"@[0] != "monitor"@[0]);
}

} // verus!
