//! The decisions of a download: which URL to request, when to fall back to
//! the MySQL archive mirror, what a failed request is reported as, and the
//! progress shown while the body arrives.

use vstd::prelude::*;
use crate::text::{
    ascii_lower, chars_of, eq_ignore_case, eq_ignore_case_exec, lower_text, push_all, push_str,
    split_char, split_char_vec, starts_with, starts_with_str, string_of, strip_prefix,
    strip_prefix_exec, texts, trim, trim_start_char, trim_start_char_vec, trim_str,
};

verus! {

/// The archive mirror of a MySQL download: a `dev.mysql.com/get/` or
/// `cdn.mysql.com/` URL of the form `Downloads/MySQL-x.y/<file>` (the first
/// part in any case) is also found at `cdn.mysql.com/archives/mysql-x.y/<file>`.
pub open spec fn mysql_fallback(url: Seq<char>) -> Option<Seq<char>> {
    let path = match strip_prefix(url, "https://dev.mysql.com/get/"@) {
        Some(p) => Some(p),
        None => strip_prefix(url, "https://cdn.mysql.com/"@),
    };
    match path {
        None => None,
        Some(p) => {
            let parts = split_char(trim_start_char(p, '/'), '/');
            if parts.len() >= 3 && eq_ignore_case(parts[0], "Downloads"@) && starts_with(
                parts[1],
                "MySQL-"@,
            ) {
                Some("https://cdn.mysql.com/archives/"@ + ascii_lower(parts[1]) + "/"@ + parts.last())
            } else {
                None
            }
        },
    }
}

/// Where a MySQL download that failed may be found instead.
pub fn mysql_download_fallback(url: &str) -> (r: Option<String>)
    ensures
        match mysql_fallback(url@) {
            Some(f) => r matches Some(s) && s@ == f,
            None => r is None,
        },
{
    let u = chars_of(url);
    let path = match strip_prefix_exec(&u, "https://dev.mysql.com/get/") {
        Some(p) => p,
        None => match strip_prefix_exec(&u, "https://cdn.mysql.com/") {
            Some(p) => p,
            None => return None,
        },
    };
    let t = trim_start_char_vec(&path, '/');
    let parts = split_char_vec(&t, '/');
    let ghost ps = split_char(trim_start_char(path@, '/'), '/');
    assert(texts(parts@) == ps);
    if parts.len() >= 3 {
        assert(parts@[0]@ == ps[0]);
        assert(parts@[1]@ == ps[1]);
        assert(parts@[parts.len() - 1]@ == ps.last());
        let first_ok = eq_ignore_case_exec(&parts[0], &chars_of("Downloads"));
        if first_ok && starts_with_str(&parts[1], "MySQL-") {
            let mut out = chars_of("https://cdn.mysql.com/archives/");
            let family = lower_text(&parts[1]);
            push_all(&mut out, &family);
            push_str(&mut out, "/");
            push_all(&mut out, &parts[parts.len() - 1]);
            return Some(string_of(&out));
        }
    }
    None
}

// ---------------------------------------------------------------------------
// The request loop
// ---------------------------------------------------------------------------

/// Which URL was requested last.
pub enum DownloadState {
    /// The URL of the catalog.
    Primary,
    /// The archive mirror, after the catalog URL failed.
    Fallback(String),
}

/// What happened.
pub enum DownloadEvent {
    /// The download is asked for.
    Begin,
    /// The request could not be sent; the error text.
    SendFailed(String),
    /// The server answered: whether with success, and the status as shown.
    Replied { success: bool, status: String },
}

/// What to do next.
pub enum DownloadAction {
    /// Request this URL.
    Request(String),
    /// Save the body of the last answer, which came from this URL.
    Save(String),
    /// Give up with this message.
    Fail(String),
}

pub enum DownloadStateView {
    Primary,
    Fallback(Seq<char>),
}

pub enum DownloadEventView {
    Begin,
    SendFailed(Seq<char>),
    Replied { success: bool, status: Seq<char> },
}

pub enum DownloadActionView {
    Request(Seq<char>),
    Save(Seq<char>),
    Fail(Seq<char>),
}

impl View for DownloadState {
    type V = DownloadStateView;

    open spec fn view(&self) -> DownloadStateView {
        match self {
            DownloadState::Primary => DownloadStateView::Primary,
            DownloadState::Fallback(u) => DownloadStateView::Fallback(u@),
        }
    }
}

impl View for DownloadEvent {
    type V = DownloadEventView;

    open spec fn view(&self) -> DownloadEventView {
        match self {
            DownloadEvent::Begin => DownloadEventView::Begin,
            DownloadEvent::SendFailed(e) => DownloadEventView::SendFailed(e@),
            DownloadEvent::Replied { success, status } => DownloadEventView::Replied {
                success: *success,
                status: status@,
            },
        }
    }
}

impl View for DownloadAction {
    type V = DownloadActionView;

    open spec fn view(&self) -> DownloadActionView {
        match self {
            DownloadAction::Request(u) => DownloadActionView::Request(u@),
            DownloadAction::Save(u) => DownloadActionView::Save(u@),
            DownloadAction::Fail(m) => DownloadActionView::Fail(m@),
        }
    }
}

/// The URL a state stands for.
pub open spec fn requested_url(url: Seq<char>, s: DownloadStateView) -> Seq<char> {
    match s {
        DownloadStateView::Primary => url,
        DownloadStateView::Fallback(f) => f,
    }
}

/// One step of a download of `url`: a blank URL is refused; a request that
/// cannot be sent fails; a successful answer is saved; an unsuccessful answer
/// to the catalog URL is retried on the MySQL archive mirror when there is
/// one, and otherwise fails with its status.
pub open spec fn download_step(url: Seq<char>, s: DownloadStateView, e: DownloadEventView) -> (
    DownloadStateView,
    DownloadActionView,
) {
    let last = requested_url(url, s);
    match e {
        DownloadEventView::Begin => if trim(url).len() == 0 {
            (
                DownloadStateView::Primary,
                DownloadActionView::Fail("URL do pacote está vazia no catálogo de pacotes."@),
            )
        } else {
            (DownloadStateView::Primary, DownloadActionView::Request(url))
        },
        DownloadEventView::SendFailed(err) => (
            s,
            DownloadActionView::Fail("Falha ao baixar "@ + last + ": "@ + err),
        ),
        DownloadEventView::Replied { success, status } => if success {
            (s, DownloadActionView::Save(last))
        } else {
            match (s, mysql_fallback(url)) {
                (DownloadStateView::Primary, Some(f)) => (
                    DownloadStateView::Fallback(f),
                    DownloadActionView::Request(f),
                ),
                _ => (
                    s,
                    DownloadActionView::Fail(
                        "Download retornou status "@ + status + " para "@ + last,
                    ),
                ),
            }
        },
    }
}

fn failed_send(last: &str, err: &str) -> (r: String)
    ensures
        r@ == "Falha ao baixar "@ + last@ + ": "@ + err@,
{
    let mut m = chars_of("Falha ao baixar ");
    push_str(&mut m, last);
    push_str(&mut m, ": ");
    push_str(&mut m, err);
    string_of(&m)
}

fn failed_status(last: &str, status: &str) -> (r: String)
    ensures
        r@ == "Download retornou status "@ + status@ + " para "@ + last@,
{
    let mut m = chars_of("Download retornou status ");
    push_str(&mut m, status);
    push_str(&mut m, " para ");
    push_str(&mut m, last);
    string_of(&m)
}

/// The download of `url`, one event at a time: the caller performs each
/// returned action (a request, saving the body, or giving up) and hands back
/// what came of it together with the returned state.
pub fn download_file(url: &str, state: DownloadState, event: DownloadEvent) -> (r: (
    DownloadState,
    DownloadAction,
))
    ensures
        (r.0@, r.1@) == download_step(url@, state@, event@),
{
    match event {
        DownloadEvent::Begin => {
            let t = trim_str(url);
            if t.len() == 0 {
                (
                    DownloadState::Primary,
                    DownloadAction::Fail("URL do pacote está vazia no catálogo de pacotes.".to_owned()),
                )
            } else {
                (DownloadState::Primary, DownloadAction::Request(url.to_owned()))
            }
        },
        DownloadEvent::SendFailed(err) => {
            let m = match &state {
                DownloadState::Primary => failed_send(url, err.as_str()),
                DownloadState::Fallback(f) => failed_send(f.as_str(), err.as_str()),
            };
            (state, DownloadAction::Fail(m))
        },
        DownloadEvent::Replied { success, status } => {
            if success {
                let last = match &state {
                    DownloadState::Primary => url.to_owned(),
                    DownloadState::Fallback(f) => f.clone(),
                };
                (state, DownloadAction::Save(last))
            } else {
                match state {
                    DownloadState::Primary => match mysql_download_fallback(url) {
                        Some(f) => {
                            let g = f.clone();
                            (DownloadState::Fallback(f), DownloadAction::Request(g))
                        },
                        None => {
                            let m = failed_status(url, status.as_str());
                            (DownloadState::Primary, DownloadAction::Fail(m))
                        },
                    },
                    DownloadState::Fallback(f) => {
                        let m = failed_status(f.as_str(), status.as_str());
                        (DownloadState::Fallback(f), DownloadAction::Fail(m))
                    },
                }
            }
        },
    }
}

/// The progress shown while a body of `total` bytes arrives: 20 at the start
/// of the body, 60 when it is complete; nothing when the size is unknown or 0.
pub open spec fn body_percent(downloaded: u64, total: Option<u64>) -> Option<u8> {
    match total {
        Some(t) if t > 0 => {
            let scaled = if downloaded * 40 > u64::MAX {
                u64::MAX as int
            } else {
                downloaded * 40
            };
            let part = if scaled / (t as int) < 40 {
                scaled / (t as int)
            } else {
                40
            };
            Some((20 + part) as u8)
        },
        _ => None,
    }
}

/// The progress after `downloaded` bytes of a body of `total` bytes.
pub fn download_percent(downloaded: u64, total: Option<u64>) -> (r: Option<u8>)
    ensures
        r == body_percent(downloaded, total),
{
    match total {
        Some(t) => {
            if t > 0 {
                let scaled = match downloaded.checked_mul(40) {
                    Some(v) => v,
                    None => u64::MAX,
                };
                let q = scaled / t;
                let part = if q < 40 {
                    q
                } else {
                    40
                };
                Some((20 + part) as u8)
            } else {
                None
            }
        },
        None => None,
    }
}


/// The progress reported while a body arrives stays between 20 and 60 and
/// never goes back as more bytes arrive.
pub proof fn law_download_percent_bounded_and_monotone(a: u64, b: u64, total: u64)
    requires
        a <= b,
        total > 0,
    ensures
        body_percent(a, Some(total)) matches Some(p) && 20 <= p <= 60,
        body_percent(a, Some(total))->0 <= body_percent(b, Some(total))->0,
{
    let sa = if a * 40 > u64::MAX {
        u64::MAX as int
    } else {
        a * 40
    };
    let sb = if b * 40 > u64::MAX {
        u64::MAX as int
    } else {
        b * 40
    };
    assert(sa <= sb);
    vstd::arithmetic::div_mod::lemma_div_is_ordered(sa, sb, total as int);
    vstd::arithmetic::div_mod::lemma_div_pos_is_pos(sa, total as int);
}
} // verus!
