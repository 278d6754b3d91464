//! Projects under `www/`: their listing, the decisions of creating one from a
//! template (which PHP, which way to fetch the template, the Composer command
//! and its retry), and of opening one in the browser.

use vstd::prelude::*;
use crate::text::{
    ascii_lower, chars_of, contains, contains_str, eq_ignore_case, eq_ignore_case_exec, join,
    join_vec, lines, lines_str, lower_text, push_all, push_str, replace_lit, replace_str,
    split_whitespace, split_whitespace_vec, starts_with, starts_with_str, string_of, text_eq,
    texts, trim, trim_start, trim_start_vec, trim_str, trim_vec,
};
use crate::naming::{cgi_port, domain_of, normalize_domain, php_cgi_port, slug, slugify};
use crate::paths::{display, display_path, join_path, parent, path_join, path_parent};
use crate::catalog::{SiteTemplate, SiteTemplateView, template_views};
use crate::config::{ActionResult, ActionResultView, coded_result, param_views, plain_result};
use crate::packages::package_ext;
use crate::version::at_least;
use crate::order::{char_codes, indices_view, key_views, name_keys, sort_order, sorted_order};
use crate::ini::{extension_enabled, php_extension_enabled};
use crate::text::{ends_with, ends_with_str, trim_end_lit, trim_end_str, trim_start_lit, trim_start_str};

verus! {

// ---------------------------------------------------------------------------
// Creating a project
// ---------------------------------------------------------------------------

/// The folder name of a new project: the slug of the name asked for.
pub fn project_name(requested: &str) -> (r: Result<String, String>)
    ensures
        slug(requested@).len() == 0 ==> (r matches Err(e) && e@ == "Informe um nome de projeto valido."@),
        slug(requested@).len() != 0 ==> (r matches Ok(n) && n@ == slug(requested@)),
{
    let n = slugify(requested);
    if chars_of(n.as_str()).len() == 0 {
        Err("Informe um nome de projeto valido.".to_owned())
    } else {
        Ok(n)
    }
}

/// The error for a project folder that exists already.
pub fn project_exists_error(name: &str) -> (r: String)
    ensures
        r@ == "O projeto '"@ + name@ + "' ja existe."@,
{
    let mut m = chars_of("O projeto '");
    push_str(&mut m, name);
    push_str(&mut m, "' ja existe.");
    string_of(&m)
}

/// The PHP version of a new project and the note about it: the version
/// chosen (trimmed; blank means none) must lie within the template's bounds;
/// with a template and no choice, the compatible version found is used (none
/// found is an error); without a template the choice stands as is.
pub open spec fn php_choice(
    selected: Option<Seq<char>>,
    template: Option<SiteTemplateView>,
    compatible: Option<Seq<char>>,
) -> Result<(Option<Seq<char>>, Option<Seq<char>>), Seq<char>> {
    let chosen = match selected {
        Some(s) => if trim(s).len() > 0 {
            Some(trim(s))
        } else {
            None
        },
        None => None,
    };
    match template {
        None => Ok((chosen, None)),
        Some(t) => match chosen {
            Some(v) => if t.php_min is Some && !at_least(v, t.php_min->0) {
                Err("PHP "@ + v + " não atende o template selecionado (mínimo requerido: "@ + t.php_min->0 + ")."@)
            } else if t.php_max is Some && !at_least(t.php_max->0, v) {
                Err("PHP "@ + v + " não atende o template selecionado (máximo permitido: "@ + t.php_max->0 + ")."@)
            } else {
                Ok((Some(v), None))
            },
            None => match compatible {
                None => Err("Não foi possível determinar um PHP compatível para o template."@),
                Some(c) => Ok((Some(c), Some("Nenhum PHP selecionado; Ipeenv usou PHP "@ + c + " compatível."@))),
            },
        },
    }
}

pub open spec fn opt_seq(o: Option<String>) -> Option<Seq<char>> {
    match o {
        Some(s) => Some(s@),
        None => None,
    }
}

pub open spec fn opt_str(o: Option<&str>) -> Option<Seq<char>> {
    match o {
        Some(s) => Some(s@),
        None => None,
    }
}

/// The PHP version of a new project and the note about it (see `php_choice`).
/// `compatible` is `resolve_compatible_php_version_range` for the template's
/// bounds, needed only when a template is chosen without a PHP version.
pub fn choose_project_php(
    selected: Option<&str>,
    template: Option<&SiteTemplate>,
    compatible: Option<String>,
) -> (r: Result<(Option<String>, Option<String>), String>)
    ensures
        match (r, php_choice(
            opt_str(selected),
            match template {
                Some(t) => Some(t@),
                None => None,
            },
            opt_seq(compatible),
        )) {
            (Ok((a, b)), Ok((x, y))) => opt_seq(a) == x && opt_seq(b) == y,
            (Err(a), Err(b)) => a@ == b,
            _ => false,
        },
{
    let chosen: Option<Vec<char>> = match selected {
        Some(s) => {
            let t = trim_str(s);
            if t.len() > 0 {
                Some(t)
            } else {
                None
            }
        },
        None => None,
    };
    match template {
        None => Ok((
            match chosen {
                Some(v) => Some(string_of(&v)),
                None => None,
            },
            None,
        )),
        Some(t) => match chosen {
            Some(v) => {
                let vs = string_of(&v);
                if let Some(min) = &t.php_min {
                    if !crate::version::version_at_least(vs.as_str(), min.as_str()) {
                        let mut m = chars_of("PHP ");
                        push_str(&mut m, vs.as_str());
                        push_str(&mut m, " não atende o template selecionado (mínimo requerido: ");
                        push_str(&mut m, min.as_str());
                        push_str(&mut m, ").");
                        return Err(string_of(&m));
                    }
                }
                if let Some(max) = &t.php_max {
                    if !crate::version::version_at_least(max.as_str(), vs.as_str()) {
                        let mut m = chars_of("PHP ");
                        push_str(&mut m, vs.as_str());
                        push_str(&mut m, " não atende o template selecionado (máximo permitido: ");
                        push_str(&mut m, max.as_str());
                        push_str(&mut m, ").");
                        return Err(string_of(&m));
                    }
                }
                Ok((Some(vs), None))
            },
            None => match compatible {
                None => Err("Não foi possível determinar um PHP compatível para o template.".to_owned()),
                Some(c) => {
                    let mut m = chars_of("Nenhum PHP selecionado; Ipeenv usou PHP ");
                    push_str(&mut m, c.as_str());
                    push_str(&mut m, " compatível.");
                    Ok((Some(c), Some(string_of(&m))))
                },
            },
        },
    }
}

/// The position of the template chosen by name (compared in any case).
pub open spec fn template_index(ts: Seq<SiteTemplateView>, name: Seq<char>, i: int) -> Option<int>
    decreases ts.len() - i,
{
    if i < 0 || i >= ts.len() {
        None
    } else if eq_ignore_case(ts[i].name, name) {
        Some(i)
    } else {
        template_index(ts, name, i + 1)
    }
}

/// The position in the template catalog of the template named `selected`
/// (in any case); none for a blank name.
pub fn load_template_by_name(templates: &Vec<SiteTemplate>, selected: &str) -> (r: Option<usize>)
    ensures
        trim(selected@).len() == 0 ==> r is None,
        trim(selected@).len() != 0 ==> match template_index(template_views(templates@), selected@, 0) {
            Some(i) => r == Some(i as usize),
            None => r is None,
        },
{
    if trim_str(selected).len() == 0 {
        return None;
    }
    let ghost tv = template_views(templates@);
    let s = chars_of(selected);
    let mut i: usize = 0;
    while i < templates.len()
        invariant
            i <= templates.len(),
            tv == template_views(templates@),
            s@ == selected@,
            trim(selected@).len() != 0,
            template_index(tv, selected@, 0) == template_index(tv, selected@, i as int),
        decreases templates.len() - i,
    {
        assert(tv[i as int] == templates@[i as int]@);
        if eq_ignore_case_exec(&chars_of(templates[i].name.as_str()), &s) {
            return Some(i);
        }
        i += 1;
    }
    None
}

/// How a project's files are made.
pub enum TemplateKind {
    /// Download the template from its URL into this archive, then unpack it
    /// (when it is a zip) or copy it into the project.
    Download { url: String, archive: String, is_zip: bool },
    /// A blank project with a welcome `index.php`.
    Blank,
    /// Run the template's command (a Composer command, most often).
    Command(String),
}

pub enum TemplateKindView {
    Download { url: Seq<char>, archive: Seq<char>, is_zip: bool },
    Blank,
    Command(Seq<char>),
}

impl View for TemplateKind {
    type V = TemplateKindView;

    open spec fn view(&self) -> TemplateKindView {
        match self {
            TemplateKind::Download { url, archive, is_zip } => TemplateKindView::Download {
                url: url@,
                archive: archive@,
                is_zip: *is_zip,
            },
            TemplateKind::Blank => TemplateKindView::Blank,
            TemplateKind::Command(c) => TemplateKindView::Command(c@),
        }
    }
}

/// How a project is made from its template: an `http(s)` source is
/// downloaded, `inline:php` or an empty source gives a blank project, any
/// other source is a command; no template gives a blank project.
pub open spec fn template_kind(root: Seq<char>, template: Option<SiteTemplateView>) -> TemplateKindView {
    match template {
        None => TemplateKindView::Blank,
        Some(t) => if starts_with(t.source, "http://"@) || starts_with(t.source, "https://"@) {
            TemplateKindView::Download {
                url: t.source,
                archive: path_join(
                    path_join(path_join(root, "tmp"@), "downloads"@),
                    "site-"@ + slug(t.name) + package_ext(t.source),
                ),
                is_zip: package_ext(t.source) == ".zip"@,
            }
        } else if starts_with(t.source, "inline:php"@) || t.source.len() == 0 {
            TemplateKindView::Blank
        } else {
            TemplateKindView::Command(t.source)
        },
    }
}

/// How the project is made from the chosen template, if any.
pub fn project_template_kind(root: &str, template: Option<&SiteTemplate>) -> (r: TemplateKind)
    ensures
        r@ == template_kind(
            root@,
            match template {
                Some(t) => Some(t@),
                None => None,
            },
        ),
{
    match template {
        None => TemplateKind::Blank,
        Some(t) => {
            let src = chars_of(t.source.as_str());
            if starts_with_str(&src, "http://") || starts_with_str(&src, "https://") {
                let ext = crate::packages::package_extension(t.source.as_str());
                let a = join_path(root, "tmp");
                let d = join_path(a.as_str(), "downloads");
                let mut f = chars_of("site-");
                let s = slugify(t.name.as_str());
                push_str(&mut f, s.as_str());
                push_str(&mut f, ext);
                let fs = string_of(&f);
                TemplateKind::Download {
                    url: t.source.clone(),
                    archive: join_path(d.as_str(), fs.as_str()),
                    is_zip: text_eq(&chars_of(ext), &chars_of(".zip")),
                }
            } else if starts_with_str(&src, "inline:php") || src.len() == 0 {
                TemplateKind::Blank
            } else {
                TemplateKind::Command(t.source.clone())
            }
        },
    }
}

/// The `index.php` of a blank project.
pub fn blank_project_index(name: &str) -> (r: String)
    ensures
        r@ == "<?php\nhttp_response_code(200);\necho '<h1>"@ + name@ + "</h1><p>Ipeenv está servindo este projeto.</p>';\n"@,
{
    let mut m = chars_of("<?php\nhttp_response_code(200);\necho '<h1>");
    push_str(&mut m, name);
    push_str(&mut m, "</h1><p>Ipeenv está servindo este projeto.</p>';\n");
    string_of(&m)
}

/// The message of a created project: its notes joined by `; `.
pub fn created_message(notes: &Vec<String>) -> (r: ActionResult)
    ensures
        r@ == plain_result(true, join(notes@.map_values(|s: String| s@), "; "@)),
{
    let mut parts: Vec<Vec<char>> = Vec::new();
    let mut i: usize = 0;
    while i < notes.len()
        invariant
            i <= notes.len(),
            texts(parts@) == notes@.take(i as int).map_values(|s: String| s@),
        decreases notes.len() - i,
    {
        let ghost before = texts(parts@);
        parts.push(chars_of(notes[i].as_str()));
        assert(texts(parts@) =~= before.push(notes@[i as int]@));
        assert(notes@.take(i + 1).map_values(|s: String| s@) =~= notes@.take(i as int).map_values(|s: String| s@).push(notes@[i as int]@));
        i += 1;
    }
    assert(notes@.take(notes.len() as int) =~= notes@);
    let j = join_vec(&parts, "; ");
    ActionResult::message(true, string_of(&j))
}

// ---------------------------------------------------------------------------
// The template command
// ---------------------------------------------------------------------------

/// The template command with its placeholders filled: `{name}` and
/// `{project}` by the project name, `{path}` by its folder.
pub open spec fn prepared_command(command: Seq<char>, name: Seq<char>, project_dir: Seq<char>) -> Seq<char> {
    replace_str(replace_str(replace_str(command, "{name}"@, name), "{project}"@, name), "{path}"@, display(project_dir))
}

/// The template command with its placeholders filled.
pub fn prepare_site_command(command: &str, name: &str, project_dir: &str) -> (r: String)
    ensures
        r@ == prepared_command(command@, name@, project_dir@),
{
    let a = replace_lit(&chars_of(command), "{name}", name);
    let b = replace_lit(&a, "{project}", name);
    let shown = display_path(project_dir);
    let c = replace_lit(&b, "{path}", shown.as_str());
    string_of(&c)
}

/// A command run through Composer: it starts, after blanks, with `composer `
/// in any case.
pub open spec fn is_composer(prepared: Seq<char>) -> bool {
    starts_with(ascii_lower(trim_start(prepared)), "composer "@)
}

/// Whether a prepared command is run through Composer.
pub fn is_composer_command(prepared: &str) -> (r: bool)
    ensures
        r == is_composer(prepared@),
{
    let t = trim_start_vec(&chars_of(prepared));
    let l = lower_text(&t);
    starts_with_str(&l, "composer ")
}

/// The arguments handed to `composer.phar`: the words of the command, the
/// leading `composer` (in any case) dropped.
pub open spec fn composer_args(prepared: Seq<char>) -> Seq<Seq<char>> {
    let words = split_whitespace(prepared);
    if words.len() > 0 && eq_ignore_case(words[0], "composer"@) {
        words.drop_first()
    } else {
        words
    }
}

/// The arguments handed to `composer.phar` for a prepared command.
pub fn composer_command_args(prepared: &str) -> (r: Vec<String>)
    ensures
        r@.map_values(|s: String| s@) == composer_args(prepared@),
{
    let words = split_whitespace_vec(&chars_of(prepared));
    let ghost w = texts(words@);
    let start: usize = if words.len() > 0 && eq_ignore_case_exec(&words[0], &chars_of("composer")) {
        1
    } else {
        0
    };
    proof {
        if words.len() > 0 {
            assert(w[0] == words@[0]@);
        }
    }
    let mut r: Vec<String> = Vec::new();
    let mut i = start;
    while i < words.len()
        invariant
            start <= i <= words.len(),
            w == texts(words@),
            r@.map_values(|s: String| s@) == w.subrange(start as int, i as int),
        decreases words.len() - i,
    {
        let ghost before = r@.map_values(|s: String| s@);
        assert(w[i as int] == words@[i as int]@);
        r.push(string_of(&words[i]));
        assert(r@.map_values(|s: String| s@) =~= before.push(w[i as int]));
        assert(w.subrange(start as int, i + 1) =~= w.subrange(start as int, i as int).push(w[i as int]));
        i += 1;
    }
    assert(start == 1 ==> w.subrange(1, w.len() as int) =~= w.drop_first());
    assert(start == 0 ==> w.subrange(0, w.len() as int) =~= w);
    r
}

/// What `String::from_utf8_lossy` makes of some bytes.
pub uninterp spec fn lossy_utf8(bytes: Seq<u8>) -> Seq<char>;

/// `String::from_utf8_lossy`: the bytes as text, invalid sequences replaced.
/// The result is named; the contract states only that ASCII bytes are read
/// as the characters they encode (ASCII is valid UTF-8).
#[verifier::external_body]
fn from_utf8_lossy(bytes: &[u8]) -> (r: String)
    ensures
        r@ == lossy_utf8(bytes@),
        (forall|i: int| 0 <= i < bytes@.len() ==> bytes@[i] < 128) ==> r@ == bytes@.map_values(|b: u8| b as char),
{
    String::from_utf8_lossy(bytes).into_owned()
}

/// Composer refused the command because of security advisories.
pub open spec fn security_blocked(text: Seq<char>) -> bool {
    let l = ascii_lower(text);
    contains(l, "security advisories"@) || contains(l, "no-security-blocking"@) || contains(l, "block-insecure"@)
}

/// Whether the error output of Composer shows it blocked packages because of
/// security advisories.
pub fn is_composer_security_block_error(stderr: &[u8]) -> (r: bool)
    ensures
        r == security_blocked(lossy_utf8(stderr@)),
{
    let t = from_utf8_lossy(stderr);
    let l = lower_text(&chars_of(t.as_str()));
    contains_str(&l, "security advisories") || contains_str(&l, "no-security-blocking") || contains_str(
        &l,
        "block-insecure",
    )
}

/// The command retried when Composer blocked a legacy template.
pub fn composer_retry_command(prepared: &str) -> (r: String)
    ensures
        r@ == trim(prepared@) + " --no-security-blocking --no-audit"@,
{
    let mut m = trim_str(prepared);
    push_str(&mut m, " --no-security-blocking --no-audit");
    string_of(&m)
}

/// The last line of a text that is not blank.
pub open spec fn last_nonblank(ls: Seq<Seq<char>>) -> Option<Seq<char>>
    decreases ls.len(),
{
    if ls.len() == 0 {
        None
    } else if trim(ls.last()).len() > 0 {
        Some(ls.last())
    } else {
        last_nonblank(ls.drop_last())
    }
}

/// The error of a template command that failed: the command and the last
/// non-blank line of its error output.
pub open spec fn site_command_failure(prepared: Seq<char>, stderr: Seq<char>) -> Seq<char> {
    "Comando do catálogo de modelos falhou: "@ + prepared + " ("@ + match last_nonblank(lines(stderr)) {
        Some(l) => l,
        None => "sem detalhes no stderr"@,
    } + ")"@
}

/// The error of a template command that failed: the command and the last
/// non-blank line of its error output.
pub fn site_command_error(prepared: &str, stderr: &str) -> (r: String)
    ensures
        r@ == site_command_failure(prepared@, stderr@),
{
    let ls = lines_str(stderr);
    let ghost lv = texts(ls@);
    let mut i: usize = ls.len();
    assert(lv.take(ls.len() as int) =~= lv);
    while i > 0 && trim_vec(&ls[i - 1]).len() == 0
        invariant
            i <= ls.len(),
            lv == texts(ls@),
            lv == lines(stderr@),
            last_nonblank(lv) == last_nonblank(lv.take(i as int)),
        decreases i,
    {
        proof {
            assert(lv.take(i as int).drop_last() =~= lv.take(i - 1));
            assert(lv.take(i as int).last() == ls@[i - 1]@);
        }
        i -= 1;
    }
    let mut m = chars_of("Comando do catálogo de modelos falhou: ");
    push_str(&mut m, prepared);
    push_str(&mut m, " (");
    if i > 0 {
        proof {
            assert(lv.take(i as int).last() == ls@[i - 1]@);
        }
        push_all(&mut m, &ls[i - 1]);
    } else {
        assert(lv.take(0) =~= Seq::<Seq<char>>::empty());
        push_str(&mut m, "sem detalhes no stderr");
    }
    push_str(&mut m, ")");
    string_of(&m)
}

/// What follows a run of the template command.
pub enum SiteCommandNext {
    /// Composer blocked the command: log that it is retried, and run this
    /// command through Composer.
    Retry(String),
    /// The project was fetched.
    Fetched,
    /// The command failed with this error.
    Failed(String),
}

pub enum SiteCommandNextView {
    Retry(Seq<char>),
    Fetched,
    Failed(Seq<char>),
}

impl View for SiteCommandNext {
    type V = SiteCommandNextView;

    open spec fn view(&self) -> SiteCommandNextView {
        match self {
            SiteCommandNext::Retry(c) => SiteCommandNextView::Retry(c@),
            SiteCommandNext::Fetched => SiteCommandNextView::Fetched,
            SiteCommandNext::Failed(e) => SiteCommandNextView::Failed(e@),
        }
    }
}

/// What follows a run of the template command `prepared`, given whether the
/// run succeeded, its error output, whether the project's folder exists after
/// it, and whether it was the retry: a Composer command that failed because
/// Composer blocked packages for security advisories is retried once without
/// that blocking; a run that succeeded and left the folder fetched the
/// project; anything else fails with the command and the last line of the
/// error output.
pub open spec fn site_command_after(
    prepared: Seq<char>,
    success: bool,
    stderr: Seq<u8>,
    project_exists: bool,
    retried: bool,
) -> SiteCommandNextView {
    if !retried && !success && security_blocked(lossy_utf8(stderr)) && is_composer(prepared) {
        SiteCommandNextView::Retry(trim(prepared) + " --no-security-blocking --no-audit"@)
    } else if success && project_exists {
        SiteCommandNextView::Fetched
    } else {
        SiteCommandNextView::Failed(site_command_failure(prepared, lossy_utf8(stderr)))
    }
}

/// A template command is retried at most once: what follows the retry is
/// never another retry, and only a failed Composer command is retried.
pub proof fn law_site_command_retried_once(
    prepared: Seq<char>,
    success: bool,
    stderr: Seq<u8>,
    project_exists: bool,
    retried: bool,
)
    ensures
        site_command_after(prepared, success, stderr, project_exists, retried) is Retry ==> !retried && !success
            && is_composer(prepared),
{
}

/// What follows a run of the template command (see `site_command_after`).
pub fn site_command_next(prepared: &str, success: bool, stderr: &[u8], project_exists: bool, retried: bool) -> (r: SiteCommandNext)
    ensures
        r@ == site_command_after(prepared@, success, stderr@, project_exists, retried),
{
    if !retried && !success && is_composer_security_block_error(stderr) && is_composer_command(prepared) {
        SiteCommandNext::Retry(composer_retry_command(prepared))
    } else if success && project_exists {
        SiteCommandNext::Fetched
    } else {
        let text = from_utf8_lossy(stderr);
        SiteCommandNext::Failed(site_command_error(prepared, text.as_str()))
    }
}

/// The project progress while `composer.phar` downloads: 46 to 54, following
/// the download's 20 to 60.
pub open spec fn composer_percent(download: u8) -> u8 {
    let past = if download >= 20 {
        download - 20
    } else {
        0
    };
    let part = past * 8 / 40;
    (46 + if part < 8 {
        part
    } else {
        8
    }) as u8
}

/// The project progress while `composer.phar` downloads.
pub fn composer_download_percent(download: u8) -> (r: u8)
    ensures
        r == composer_percent(download),
{
    let past: u16 = if download >= 20 {
        (download - 20) as u16
    } else {
        0
    };
    let part = past * 8 / 40;
    let capped: u16 = if part < 8 {
        part
    } else {
        8
    };
    (46 + capped) as u8
}

/// The `PATH` of a project command: the PHP runtime, Ipeenv's Composer
/// folder, then the `PATH` Ipeenv runs with, separated by `;`.
pub fn composer_path(root: &str, php_dir: &str, path_env: &str) -> (r: String)
    ensures
        r@ == display(php_dir@) + ";"@ + display(path_join(path_join(root@, "bin"@), "composer"@)) + ";"@ + path_env@,
{
    let a = display_path(php_dir);
    let b1 = join_path(root, "bin");
    let b2 = join_path(b1.as_str(), "composer");
    let b = display_path(b2.as_str());
    let mut m = chars_of(a.as_str());
    push_str(&mut m, ";");
    push_str(&mut m, b.as_str());
    push_str(&mut m, ";");
    push_str(&mut m, path_env);
    string_of(&m)
}

/// The folder a template command runs in: the parent of the project folder,
/// else `www`.
pub fn site_command_dir(root: &str, project_dir: &str) -> (r: String)
    ensures
        match parent(project_dir@) {
            Some(p) => r@ == p,
            None => r@ == path_join(root@, "www"@),
        },
{
    match path_parent(project_dir) {
        Some(p) => p,
        None => join_path(root, "www"),
    }
}


// ---------------------------------------------------------------------------
// The project listing
// ---------------------------------------------------------------------------

/// A project as the interface lists it.
pub struct ProjectInfo {
    pub name: String,
    pub path: String,
    pub vhost_path: String,
    pub http_url: String,
    pub https_url: String,
    pub domain: String,
    pub php_version: Option<String>,
    pub php_cgi_port: Option<u16>,
    pub ssl_enabled: bool,
    pub host_configured: bool,
    pub framework: String,
    pub modified_at: String,
}

pub struct ProjectInfoView {
    pub name: Seq<char>,
    pub path: Seq<char>,
    pub vhost_path: Seq<char>,
    pub http_url: Seq<char>,
    pub https_url: Seq<char>,
    pub domain: Seq<char>,
    pub php_version: Option<Seq<char>>,
    pub php_cgi_port: Option<u16>,
    pub ssl_enabled: bool,
    pub host_configured: bool,
    pub framework: Seq<char>,
    pub modified_at: Seq<char>,
}

impl View for ProjectInfo {
    type V = ProjectInfoView;

    open spec fn view(&self) -> ProjectInfoView {
        ProjectInfoView {
            name: self.name@,
            path: self.path@,
            vhost_path: self.vhost_path@,
            http_url: self.http_url@,
            https_url: self.https_url@,
            domain: self.domain@,
            php_version: opt_seq(self.php_version),
            php_cgi_port: self.php_cgi_port,
            ssl_enabled: self.ssl_enabled,
            host_configured: self.host_configured,
            framework: self.framework@,
            modified_at: self.modified_at@,
        }
    }
}

/// The `.test` domain of a project folder.
pub open spec fn project_domain(name: Seq<char>) -> Seq<char> {
    slug(name) + ".test"@
}

/// `etc/ssl/certs/<domain>.crt`: the certificate whose presence marks SSL as prepared.
pub fn project_cert_path(root: &str, name: &str) -> (r: String)
    ensures
        r@ == path_join(path_join(path_join(path_join(root@, "etc"@), "ssl"@), "certs"@), project_domain(name@) + ".crt"@),
{
    let a = join_path(root, "etc");
    let b = join_path(a.as_str(), "ssl");
    let c = join_path(b.as_str(), "certs");
    let mut f = chars_of(slugify(name).as_str());
    push_str(&mut f, ".test");
    push_str(&mut f, ".crt");
    let fs = string_of(&f);
    join_path(c.as_str(), fs.as_str())
}

/// The listing of the project folder `name` at `path`: its domain is the
/// slug of its name with `.test`; its host is configured when a line of the
/// hosts text points the domain at this machine (see `hosted`);
/// `ssl_exists` tells whether its certificate exists.
pub open spec fn project_info_of(
    root: Seq<char>,
    name: Seq<char>,
    path: Seq<char>,
    php_version: Option<Seq<char>>,
    hosts: Seq<char>,
    ssl_exists: bool,
    framework: Seq<char>,
    modified_at: Seq<char>,
) -> ProjectInfoView {
    let domain = project_domain(name);
    ProjectInfoView {
        name,
        path: display(path),
        vhost_path: display(path_join(path_join(path_join(path_join(root, "etc"@), "apache"@), "vhosts"@), domain + ".conf"@)),
        http_url: "http://"@ + domain,
        https_url: "https://"@ + domain,
        domain,
        php_version,
        php_cgi_port: match php_version {
            Some(v) => Some(cgi_port(v)),
            None => None,
        },
        ssl_enabled: ssl_exists,
        host_configured: crate::hosts::hosted(hosts, domain),
        framework,
        modified_at,
    }
}

/// The listing of a project folder (see `project_info_of`).
pub fn project_info(
    root: &str,
    name: &str,
    path: &str,
    php_version: Option<String>,
    hosts: &str,
    ssl_exists: bool,
    framework: &str,
    modified_at: &str,
) -> (r: ProjectInfo)
    ensures
        r@ == project_info_of(root@, name@, path@, opt_seq(php_version), hosts@, ssl_exists, framework@, modified_at@),
{
    let mut d = chars_of(slugify(name).as_str());
    push_str(&mut d, ".test");
    let domain = string_of(&d);
    let vh = crate::apache::vhost_file_path(root, domain.as_str());
    let mut h = chars_of("http://");
    push_str(&mut h, domain.as_str());
    let mut hs = chars_of("https://");
    push_str(&mut hs, domain.as_str());
    let port = match &php_version {
        Some(v) => Some(php_cgi_port(v.as_str())),
        None => None,
    };
    let configured = crate::hosts::hosted_exec(hosts, domain.as_str());
    ProjectInfo {
        name: name.to_owned(),
        path: display_path(path),
        vhost_path: display_path(vh.as_str()),
        http_url: string_of(&h),
        https_url: string_of(&hs),
        domain,
        php_version,
        php_cgi_port: port,
        ssl_enabled: ssl_exists,
        host_configured: configured,
        framework: framework.to_owned(),
        modified_at: modified_at.to_owned(),
    }
}

pub open spec fn project_views(v: Seq<ProjectInfo>) -> Seq<ProjectInfoView> {
    v.map_values(|p: ProjectInfo| p@)
}

/// `items` in the order `o`.
pub open spec fn arranged<A>(items: Seq<A>, o: Seq<int>) -> Seq<A> {
    Seq::new(o.len(), |i: int| items[o[i]])
}

/// The projects ordered by name (a stable sort in the order of `String`).
pub open spec fn projects_by_name(l: Seq<ProjectInfoView>) -> Seq<ProjectInfoView> {
    arranged(l, sort_order(l.map_values(|p: ProjectInfoView| char_codes(p.name)), l.len(), false))
}

fn copy_project(p: &ProjectInfo) -> (r: ProjectInfo)
    ensures
        r@ == p@,
{
    ProjectInfo {
        name: p.name.clone(),
        path: p.path.clone(),
        vhost_path: p.vhost_path.clone(),
        http_url: p.http_url.clone(),
        https_url: p.https_url.clone(),
        domain: p.domain.clone(),
        php_version: match &p.php_version {
            Some(v) => Some(v.clone()),
            None => None,
        },
        php_cgi_port: p.php_cgi_port,
        ssl_enabled: p.ssl_enabled,
        host_configured: p.host_configured,
        framework: p.framework.clone(),
        modified_at: p.modified_at.clone(),
    }
}

/// The projects in the order they are listed: by name.
pub fn sort_projects(projects: &Vec<ProjectInfo>) -> (r: Vec<ProjectInfo>)
    ensures
        project_views(r@) == projects_by_name(project_views(projects@)),
{
    let ghost l = project_views(projects@);
    let mut names: Vec<String> = Vec::new();
    let mut j: usize = 0;
    while j < projects.len()
        invariant
            j <= projects.len(),
            l == project_views(projects@),
            names@.len() == j,
            forall|k: int| 0 <= k < j ==> names@[k]@ == l[k].name,
        decreases projects.len() - j,
    {
        names.push(projects[j].name.clone());
        j += 1;
    }
    let keys = name_keys(&names);
    assert(key_views(keys@) =~= l.map_values(|p: ProjectInfoView| char_codes(p.name)));
    let order = sorted_order(&keys, false);
    let ghost o = sort_order(key_views(keys@), keys.len() as nat, false);
    proof {
        crate::order::law_sort_order_permutation(key_views(keys@), false);
    }
    let mut out: Vec<ProjectInfo> = Vec::new();
    let mut k: usize = 0;
    while k < order.len()
        invariant
            k <= order.len(),
            l == project_views(projects@),
            indices_view(order@) == o,
            o.len() == l.len(),
            forall|q: int| 0 <= q < o.len() ==> 0 <= #[trigger] o[q] < l.len(),
            project_views(out@) == arranged(l, o.take(k as int)),
        decreases order.len() - k,
    {
        assert(o[k as int] == order@[k as int]);
        let c = copy_project(&projects[order[k]]);
        proof {
            assert(l[order@[k as int] as int] == projects@[order@[k as int] as int]@);
            assert(arranged(l, o.take(k + 1)) =~= arranged(l, o.take(k as int)).push(l[o[k as int]]));
        }
        let ghost before = project_views(out@);
        out.push(c);
        k += 1;
        assert(project_views(out@) =~= before.push(c@));
    }
    assert(o.take(o.len() as int) =~= o);
    out
}

// ---------------------------------------------------------------------------
// Opening a project
// ---------------------------------------------------------------------------

/// The position of the project with this domain.
pub fn find_project(projects: &Vec<ProjectInfo>, domain: &str) -> (r: Result<usize, String>)
    ensures
        match r {
            Ok(i) => i < projects.len() && projects@[i as int]@.domain == domain@ && forall|k: int|
                0 <= k < i ==> projects@[k]@.domain != domain@,
            Err(e) => e@ == "Projeto "@ + domain@ + " não encontrado."@ && forall|k: int|
                0 <= k < projects.len() ==> projects@[k]@.domain != domain@,
        },
{
    let d = chars_of(domain);
    let mut i: usize = 0;
    while i < projects.len()
        invariant
            i <= projects.len(),
            d@ == domain@,
            forall|k: int| 0 <= k < i ==> projects@[k]@.domain != domain@,
        decreases projects.len() - i,
    {
        if text_eq(&chars_of(projects[i].domain.as_str()), &d) {
            return Ok(i);
        }
        i += 1;
    }
    let mut m = chars_of("Projeto ");
    push_str(&mut m, domain);
    push_str(&mut m, " não encontrado.");
    Err(string_of(&m))
}

/// The address a project opens at: HTTPS when it is enabled and the project
/// has its certificate, HTTP otherwise.
pub fn project_url(https_enabled: bool, project: &ProjectInfo) -> (r: String)
    ensures
        r@ == if https_enabled && project@.ssl_enabled {
            project@.https_url
        } else {
            project@.http_url
        },
{
    if https_enabled && project.ssl_enabled {
        project.https_url.clone()
    } else {
        project.http_url.clone()
    }
}

fn one_param(ok: bool, code: &str, message: String, key: &str, value: String) -> (r: ActionResult)
    ensures
        r@ == coded_result(ok, code@, message@, seq![(key@, value@)]),
{
    let mut params: Vec<(&str, String)> = Vec::new();
    let ghost v = value@;
    params.push((key, value));
    let r = ActionResult::coded(ok, code, message, params);
    assert(param_views(params@) =~= seq![(key@, v)]);
    r
}

/// The reply when the hosts entry of a project still lacks after asking for it.
pub fn hosts_permission_required(domain: &str) -> (r: ActionResult)
    ensures
        r@ == coded_result(
            false,
            "hosts.permissionRequired"@,
            "Confirme a permissão para adicionar "@ + domain@ + " ao hosts e tente abrir novamente."@,
            seq![("domain"@, domain@)],
        ),
{
    let mut m = chars_of("Confirme a permissão para adicionar ");
    push_str(&mut m, domain);
    push_str(&mut m, " ao hosts e tente abrir novamente.");
    one_param(false, "hosts.permissionRequired", string_of(&m), "domain", domain.to_owned())
}

/// The reply when Apache is missing for opening a project.
pub fn apache_missing_for_project(executable: &str, domain: &str) -> (r: ActionResult)
    ensures
        r@ == coded_result(
            false,
            "apache.missingForProject"@,
            "Apache não encontrado em "@ + display(executable@)
                + ". Instale o Apache pelo catálogo de pacotes antes de abrir "@ + domain@ + "."@,
            seq![("path"@, display(executable@)), ("domain"@, domain@)],
        ),
{
    let shown = display_path(executable);
    let mut m = chars_of("Apache não encontrado em ");
    push_str(&mut m, shown.as_str());
    push_str(&mut m, ". Instale o Apache pelo catálogo de pacotes antes de abrir ");
    push_str(&mut m, domain);
    push_str(&mut m, ".");
    let mut params: Vec<(&str, String)> = Vec::new();
    params.push(("path", shown.clone()));
    params.push(("domain", domain.to_owned()));
    let r = ActionResult::coded(false, "apache.missingForProject", string_of(&m), params);
    assert(param_views(params@) =~= seq![("path"@, display(executable@)), ("domain"@, domain@)]);
    proof {
        reveal_strlit("path");
        reveal_strlit("domain");
        assert("path"@.len() != "domain"@.len());
        crate::config::lemma_distinct_keys2(("path"@, display(executable@)), ("domain"@, domain@));
    }
    r
}

/// The reply when Apache could not be started for opening a project.
pub fn apache_start_failed(message: &str) -> (r: ActionResult)
    ensures
        r@ == coded_result(
            false,
            "apache.startFailed"@,
            "Não foi possível iniciar o Apache: "@ + message@,
            seq![("message"@, message@)],
        ),
{
    let mut m = chars_of("Não foi possível iniciar o Apache: ");
    push_str(&mut m, message);
    one_param(false, "apache.startFailed", string_of(&m), "message", message.to_owned())
}

/// The reply after opening a project: its notes joined by spaces.
pub fn opened_message(opened: bool, notes: &Vec<String>) -> (r: ActionResult)
    ensures
        r@ == plain_result(opened, join(notes@.map_values(|s: String| s@), " "@)),
{
    let mut parts: Vec<Vec<char>> = Vec::new();
    let mut i: usize = 0;
    while i < notes.len()
        invariant
            i <= notes.len(),
            texts(parts@) == notes@.take(i as int).map_values(|s: String| s@),
        decreases notes.len() - i,
    {
        let ghost before = texts(parts@);
        parts.push(chars_of(notes[i].as_str()));
        assert(texts(parts@) =~= before.push(notes@[i as int]@));
        assert(notes@.take(i + 1).map_values(|s: String| s@) =~= notes@.take(i as int).map_values(|s: String| s@).push(notes@[i as int]@));
        i += 1;
    }
    assert(notes@.take(notes.len() as int) =~= notes@);
    let j = join_vec(&parts, " ");
    ActionResult::message(opened, string_of(&j))
}

// ---------------------------------------------------------------------------
// Logs
// ---------------------------------------------------------------------------

/// The log asked for: `apache`, `mysql`, `php` or `app`; anything else is `app`.
pub open spec fn safe_log_kind(kind: Seq<char>) -> Seq<char> {
    if kind == "apache"@ || kind == "mysql"@ || kind == "php"@ || kind == "app"@ {
        kind
    } else {
        "app"@
    }
}

/// The log kind to read and its file, `logs/<kind>/<kind>.log`.
pub fn log_file(root: &str, kind: &str) -> (r: (String, String))
    ensures
        r.0@ == safe_log_kind(kind@),
        r.1@ == path_join(path_join(path_join(root@, "logs"@), r.0@), r.0@ + ".log"@),
{
    let k = chars_of(kind);
    let safe = if text_eq(&k, &chars_of("apache")) || text_eq(&k, &chars_of("mysql")) || text_eq(&k, &chars_of("php"))
        || text_eq(&k, &chars_of("app")) {
        kind.to_owned()
    } else {
        "app".to_owned()
    };
    let a = join_path(root, "logs");
    let b = join_path(a.as_str(), safe.as_str());
    let mut f = chars_of(safe.as_str());
    push_str(&mut f, ".log");
    let fs = string_of(&f);
    let p = join_path(b.as_str(), fs.as_str());
    (safe, p)
}

/// What is shown for a log file that does not exist.
pub fn missing_log_message(path: &str) -> (r: String)
    ensures
        r@ == "Nenhum log encontrado em "@ + display(path@),
{
    let shown = display_path(path);
    let mut m = chars_of("Nenhum log encontrado em ");
    push_str(&mut m, shown.as_str());
    string_of(&m)
}

/// The last `max_lines` lines of a text, joined by `\n`.
pub open spec fn tail(content: Seq<char>, max_lines: nat) -> Seq<char> {
    let ls = lines(content);
    let start = if ls.len() > max_lines {
        ls.len() - max_lines
    } else {
        0
    };
    join(ls.skip(start), "\n"@)
}

/// The end of a log: its last `max_lines` lines.
pub fn tail_file(content: &str, max_lines: usize) -> (r: String)
    ensures
        r@ == tail(content@, max_lines as nat),
{
    let ls = lines_str(content);
    let ghost lv = texts(ls@);
    let start: usize = if ls.len() > max_lines {
        ls.len() - max_lines
    } else {
        0
    };
    let mut kept: Vec<Vec<char>> = Vec::new();
    let mut i = start;
    while i < ls.len()
        invariant
            start <= i <= ls.len(),
            lv == texts(ls@),
            texts(kept@) == lv.subrange(start as int, i as int),
        decreases ls.len() - i,
    {
        let ghost before = texts(kept@);
        kept.push(ls[i].clone());
        assert(texts(kept@) =~= before.push(ls@[i as int]@));
        assert(lv.subrange(start as int, i + 1) =~= lv.subrange(start as int, i as int).push(lv[i as int]));
        i += 1;
    }
    assert(lv.subrange(start as int, ls.len() as int) =~= lv.skip(start as int));
    let j = join_vec(&kept, "\n");
    string_of(&j)
}

/// The tail of a log holds at most the lines asked for.
pub proof fn law_tail_is_bounded(content: Seq<char>, max_lines: nat)
    ensures
        ({
            let ls = lines(content);
            let start = if ls.len() > max_lines {
                ls.len() - max_lines
            } else {
                0
            };
            ls.skip(start).len() <= max_lines && ls.skip(start).len() <= ls.len()
        }),
{
}

// ---------------------------------------------------------------------------
// PHP extensions
// ---------------------------------------------------------------------------

/// An extension of a PHP runtime as listed.
pub struct PhpExtensionInfo {
    pub name: String,
    pub dll: String,
    pub enabled: bool,
}

pub struct PhpExtensionInfoView {
    pub name: Seq<char>,
    pub dll: Seq<char>,
    pub enabled: bool,
}

impl View for PhpExtensionInfo {
    type V = PhpExtensionInfoView;

    open spec fn view(&self) -> PhpExtensionInfoView {
        PhpExtensionInfoView { name: self.name@, dll: self.dll@, enabled: self.enabled }
    }
}

/// The name of an extension library: without `php_` before and `.dll` after.
pub open spec fn extension_name(dll: Seq<char>) -> Seq<char> {
    trim_end_str(trim_start_str(dll, "php_"@), ".dll"@)
}

/// The extensions of a runtime: its `ext` files named `php_*.dll` (in any
/// case), in listing order, each enabled as the ini says.
pub open spec fn extension_list(ini: Seq<char>, files: Seq<Seq<char>>) -> Seq<PhpExtensionInfoView>
    decreases files.len(),
{
    if files.len() == 0 {
        Seq::empty()
    } else {
        let rest = extension_list(ini, files.drop_last());
        let f = files.last();
        if starts_with(ascii_lower(f), "php_"@) && ends_with(ascii_lower(f), ".dll"@) {
            rest.push(PhpExtensionInfoView { name: extension_name(f), dll: f, enabled: extension_enabled(ini, f, extension_name(f)) })
        } else {
            rest
        }
    }
}

/// The extensions listed by name (a stable sort in the order of `String`).
pub open spec fn extensions_by_name(l: Seq<PhpExtensionInfoView>) -> Seq<PhpExtensionInfoView> {
    arranged(l, sort_order(l.map_values(|e: PhpExtensionInfoView| char_codes(e.name)), l.len(), false))
}

pub open spec fn extension_views(v: Seq<PhpExtensionInfo>) -> Seq<PhpExtensionInfoView> {
    v.map_values(|e: PhpExtensionInfo| e@)
}

/// The extensions of a PHP runtime, by name, from the file names of its
/// `ext` folder and its ini text.
pub fn php_extension_infos(ini: &str, files: &Vec<String>) -> (r: Vec<PhpExtensionInfo>)
    ensures
        extension_views(r@) == extensions_by_name(extension_list(ini@, files@.map_values(|s: String| s@))),
{
    let ghost fv = files@.map_values(|s: String| s@);
    let mut list: Vec<PhpExtensionInfo> = Vec::new();
    let mut i: usize = 0;
    while i < files.len()
        invariant
            i <= files.len(),
            fv == files@.map_values(|s: String| s@),
            extension_views(list@) == extension_list(ini@, fv.take(i as int)),
        decreases files.len() - i,
    {
        proof {
            assert(fv.take(i + 1).drop_last() =~= fv.take(i as int));
            assert(fv.take(i + 1).last() == files@[i as int]@);
        }
        let f = files[i].as_str();
        let l = lower_text(&chars_of(f));
        if starts_with_str(&l, "php_") && ends_with_str(&l, ".dll") {
            let a = trim_start_lit(&chars_of(f), "php_");
            let b = trim_end_lit(&a, ".dll");
            let name = string_of(&b);
            let enabled = php_extension_enabled(ini, f, name.as_str());
            let ghost before = extension_views(list@);
            list.push(PhpExtensionInfo { name, dll: f.to_owned(), enabled });
            assert(extension_views(list@) =~= before.push(list@.last()@));
        }
        i += 1;
    }
    assert(fv.take(files.len() as int) =~= fv);
    let ghost l = extension_views(list@);
    let mut names: Vec<String> = Vec::new();
    let mut j: usize = 0;
    while j < list.len()
        invariant
            j <= list.len(),
            l == extension_views(list@),
            names@.len() == j,
            forall|k: int| 0 <= k < j ==> names@[k]@ == l[k].name,
        decreases list.len() - j,
    {
        names.push(list[j].name.clone());
        j += 1;
    }
    let keys = name_keys(&names);
    assert(key_views(keys@) =~= l.map_values(|e: PhpExtensionInfoView| char_codes(e.name)));
    let order = sorted_order(&keys, false);
    let ghost o = sort_order(key_views(keys@), keys.len() as nat, false);
    proof {
        crate::order::law_sort_order_permutation(key_views(keys@), false);
    }
    let mut out: Vec<PhpExtensionInfo> = Vec::new();
    let mut k: usize = 0;
    while k < order.len()
        invariant
            k <= order.len(),
            l == extension_views(list@),
            indices_view(order@) == o,
            o.len() == l.len(),
            forall|q: int| 0 <= q < o.len() ==> 0 <= #[trigger] o[q] < l.len(),
            extension_views(out@) == arranged(l, o.take(k as int)),
        decreases order.len() - k,
    {
        assert(o[k as int] == order@[k as int]);
        let e = &list[order[k]];
        let c = PhpExtensionInfo { name: e.name.clone(), dll: e.dll.clone(), enabled: e.enabled };
        proof {
            assert(l[order@[k as int] as int] == list@[order@[k as int] as int]@);
            assert(arranged(l, o.take(k + 1)) =~= arranged(l, o.take(k as int)).push(l[o[k as int]]));
        }
        let ghost before = extension_views(out@);
        out.push(c);
        k += 1;
        assert(extension_views(out@) =~= before.push(c@));
    }
    assert(o.take(o.len() as int) =~= o);
    out
}

/// The name under which an extension library is loaded (see `extension_name`).
pub fn php_extension_name(dll: &str) -> (r: String)
    ensures
        r@ == extension_name(dll@),
{
    let a = trim_start_lit(&chars_of(dll), "php_");
    let b = trim_end_lit(&a, ".dll");
    string_of(&b)
}

/// The reply after switching an extension, and the line to log.
pub fn php_extension_switched(version: &str, dll: &str, enabled: bool) -> (r: (ActionResult, String))
    ensures
        r.0@ == coded_result(
            true,
            if enabled {
                "php.extensionEnabled"@
            } else {
                "php.extensionDisabled"@
            },
            "Extensão "@ + extension_name(dll@) + " "@ + (if enabled {
                "habilitada"@
            } else {
                "desabilitada"@
            }) + " no PHP "@ + version@ + ". Reinicie o Apache para aplicar."@,
            seq![("extension"@, extension_name(dll@)), ("version"@, version@)],
        ),
        r.1@ == "PHP "@ + version@ + " extension "@ + extension_name(dll@) + " "@ + (if enabled {
            "enabled"@
        } else {
            "disabled"@
        }),
{
    let a = trim_start_lit(&chars_of(dll), "php_");
    let b = trim_end_lit(&a, ".dll");
    let name = string_of(&b);
    let mut m = chars_of("Extensão ");
    push_str(&mut m, name.as_str());
    push_str(&mut m, " ");
    push_str(&mut m, if enabled { "habilitada" } else { "desabilitada" });
    push_str(&mut m, " no PHP ");
    push_str(&mut m, version);
    push_str(&mut m, ". Reinicie o Apache para aplicar.");
    let mut l = chars_of("PHP ");
    push_str(&mut l, version);
    push_str(&mut l, " extension ");
    push_str(&mut l, name.as_str());
    push_str(&mut l, " ");
    push_str(&mut l, if enabled { "enabled" } else { "disabled" });
    let mut params: Vec<(&str, String)> = Vec::new();
    params.push(("extension", name.clone()));
    params.push(("version", version.to_owned()));
    let r = ActionResult::coded(true, if enabled { "php.extensionEnabled" } else { "php.extensionDisabled" }, string_of(&m), params);
    assert(param_views(params@) =~= seq![("extension"@, extension_name(dll@)), ("version"@, version@)]);
    proof {
        reveal_strlit("extension");
        reveal_strlit("version");
        assert("extension"@.len() != "version"@.len());
        crate::config::lemma_distinct_keys2(("extension"@, extension_name(dll@)), ("version"@, version@));
    }
    (r, string_of(&l))
}


/// The first note of a created project.
pub fn project_created_note(project_dir: &str) -> (r: String)
    ensures
        r@ == "Projeto criado em "@ + display(project_dir@),
{
    let shown = display_path(project_dir);
    let mut m = chars_of("Projeto criado em ");
    push_str(&mut m, shown.as_str());
    string_of(&m)
}

/// The note about local SSL of a new project: prepared when HTTPS is on.
pub fn ssl_note(https_enabled: bool) -> (r: &'static str)
    ensures
        https_enabled ==> r@ == "arquivos SSL locais preparados"@,
        !https_enabled ==> r@ == "HTTPS local está desabilitado nas preferências"@,
{
    if https_enabled {
        "arquivos SSL locais preparados"
    } else {
        "HTTPS local está desabilitado nas preferências"
    }
}

/// The note when the hosts file could not be updated for a new project.
pub fn hosts_not_updated_note(error: &str) -> (r: String)
    ensures
        r@ == "hosts não atualizado: "@ + error@,
{
    let mut m = chars_of("hosts não atualizado: ");
    push_str(&mut m, error);
    string_of(&m)
}

/// The note naming the address a project opens at.
pub fn opening_note(url: &str) -> (r: String)
    ensures
        r@ == "Abrindo "@ + url@ + "."@,
{
    let mut m = chars_of("Abrindo ");
    push_str(&mut m, url);
    push_str(&mut m, ".");
    string_of(&m)
}

} // verus!
