//! The Windows hosts file: adding the `.test` domain of a project, removing
//! it, and the elevated script used when the file cannot be written directly.

use vstd::prelude::*;
use crate::text::{
    chars_of, contains, has_char, is_ws, join, join_vec, lemma_split_char_append, lemma_split_char_len,
    lemma_split_join, lines, lines_str, no_newlines, occurs_at, push_all, push_str, replace_lit,
    replace_str, split_char, split_whitespace, split_whitespace_vec, split_ws_raw, non_empty,
    lemma_split_ws_raw_len, lemma_non_empty_push, string_of, strip_cr, text_eq, texts,
};
use crate::naming::{domain_of, normalize_domain, result_view, slug, slugify};
use crate::paths::{display, display_path, join_path, path_join};
use crate::config::{ActionResult, ActionResultView, coded_result, param_views};

verus! {

/// A hosts line points the domain at this machine: its whitespace-separated
/// fields are exactly `127.0.0.1` and the domain (so a comment, a longer
/// name that contains the domain or another address does not count).
pub open spec fn is_entry(line: Seq<char>, domain: Seq<char>) -> bool {
    split_whitespace(line) == seq!["127.0.0.1"@, domain]
}

/// A line of the hosts text points the domain at this machine.
pub open spec fn hosted(hosts: Seq<char>, domain: Seq<char>) -> bool {
    exists|i: int| 0 <= i < lines(hosts).len() && is_entry(#[trigger] lines(hosts)[i], domain)
}

/// The text appended to the hosts file for a domain.
pub open spec fn host_entry(domain: Seq<char>) -> Seq<char> {
    "\n# Ipeenv\n127.0.0.1 "@ + domain + "\n"@
}

/// What adding a domain comes to.
pub enum HostPlan {
    /// A line of the hosts file points it at this machine already: the reply.
    Present(ActionResult),
    /// Append `text` to the hosts file for the normalized `domain`.
    Append { domain: String, text: String },
}

pub enum HostPlanView {
    Present(ActionResultView),
    Append { domain: Seq<char>, text: Seq<char> },
}

impl View for HostPlan {
    type V = HostPlanView;

    open spec fn view(&self) -> HostPlanView {
        match self {
            HostPlan::Present(a) => HostPlanView::Present(a@),
            HostPlan::Append { domain, text } => HostPlanView::Append { domain: domain@, text: text@ },
        }
    }
}

/// The reply naming a domain.
pub open spec fn domain_reply(code: Seq<char>, message: Seq<char>, domain: Seq<char>) -> ActionResultView {
    coded_result(true, code, message, seq![("domain"@, domain)])
}

/// Adding `domain` to the hosts text `current`: the domain is normalized (an
/// invalid one is refused); when a line points it at this machine already
/// nothing is written; otherwise its entry is appended.
pub open spec fn add_plan(domain: Seq<char>, current: Seq<char>) -> Result<HostPlanView, Seq<char>> {
    match domain_of(domain) {
        Err(e) => Err(e),
        Ok(d) => if hosted(current, d) {
            Ok(HostPlanView::Present(domain_reply("hosts.alreadyExists"@, d + " ja existe no hosts."@, d)))
        } else {
            Ok(HostPlanView::Append { domain: d, text: host_entry(d) })
        },
    }
}

pub open spec fn plan_view(r: Result<HostPlan, String>) -> Result<HostPlanView, Seq<char>> {
    match r {
        Ok(p) => Ok(p@),
        Err(e) => Err(e@),
    }
}

fn domain_result(code: &str, message: String, domain: &str) -> (r: ActionResult)
    ensures
        r@ == domain_reply(code@, message@, domain@),
{
    let mut params: Vec<(&str, String)> = Vec::new();
    params.push(("domain", domain.to_owned()));
    let r = ActionResult::coded(true, code, message, params);
    assert(param_views(params@) =~= seq![("domain"@, domain@)]);
    r
}

fn suffixed(a: &str, b: &str) -> (r: String)
    ensures
        r@ == a@ + b@,
{
    let mut m = chars_of(a);
    push_str(&mut m, b);
    string_of(&m)
}

fn entry_exec(line: &Vec<char>, domain: &Vec<char>) -> (r: bool)
    ensures
        r == is_entry(line@, domain@),
{
    let fields = split_whitespace_vec(line);
    let local = chars_of("127.0.0.1");
    let ghost f = texts(fields@);
    if fields.len() != 2 {
        assert(f.len() != 2);
        return false;
    }
    assert(f[0] == fields@[0]@ && f[1] == fields@[1]@);
    let r = text_eq(&fields[0], &local) && text_eq(&fields[1], domain);
    assert(r ==> f =~= seq!["127.0.0.1"@, domain@]);
    assert(f == seq!["127.0.0.1"@, domain@] ==> f[0] == "127.0.0.1"@ && f[1] == domain@);
    r
}

/// Whether a line of the hosts text points the domain at this machine.
pub fn hosted_exec(hosts: &str, domain: &str) -> (r: bool)
    ensures
        r == hosted(hosts@, domain@),
{
    let ls = lines_str(hosts);
    let d = chars_of(domain);
    let ghost lv = texts(ls@);
    let mut i: usize = 0;
    while i < ls.len()
        invariant
            i <= ls.len(),
            lv == texts(ls@),
            lv == lines(hosts@),
            d@ == domain@,
            forall|k: int| 0 <= k < i ==> !is_entry(#[trigger] lv[k], domain@),
        decreases ls.len() - i,
    {
        assert(lv[i as int] == ls@[i as int]@);
        if entry_exec(&ls[i], &d) {
            return true;
        }
        i += 1;
    }
    false
}

/// What adding `domain` to the hosts text `current` comes to (see `add_plan`).
pub fn add_host(domain: &str, current: &str) -> (r: Result<HostPlan, String>)
    ensures
        plan_view(r) == add_plan(domain@, current@),
{
    let d = match normalize_domain(domain) {
        Ok(d) => d,
        Err(e) => return Err(e),
    };
    if hosted_exec(current, d.as_str()) {
        let m = suffixed(d.as_str(), " ja existe no hosts.");
        return Ok(HostPlan::Present(domain_result("hosts.alreadyExists", m, d.as_str())));
    }
    let mut t = chars_of("\n# Ipeenv\n127.0.0.1 ");
    push_str(&mut t, d.as_str());
    push_str(&mut t, "\n");
    let text = string_of(&t);
    Ok(HostPlan::Append { domain: d, text })
}

/// How writing the hosts file went.
pub enum HostWrite {
    /// It was written.
    Written,
    /// Writing was refused for lack of permission, and the elevated script
    /// was started instead.
    Elevated,
    /// Writing failed otherwise; the error text.
    Failed(String),
}

/// The reply to adding `domain` and the line to log, after writing
/// `hosts_path` went as `write` says.
pub fn add_host_reply(domain: &str, hosts_path: &str, write: HostWrite) -> (r: Result<(ActionResult, String), String>)
    ensures
        write is Written ==> (r matches Ok((a, l)) && a@ == domain_reply(
            "hosts.added"@,
            domain@ + " adicionado ao hosts."@,
            domain@,
        ) && l@ == "Host added: "@ + domain@),
        write is Elevated ==> (r matches Ok((a, l)) && a@ == domain_reply(
            "hosts.addElevationRequested"@,
            "Permissão elevada solicitada para adicionar "@ + domain@
                + " ao hosts. Confirme o UAC e recarregue o navegador."@,
            domain@,
        ) && l@ == "Elevation requested to add host: "@ + domain@),
        write matches HostWrite::Failed(e) ==> (r matches Err(m) && m@ == "Não foi possível editar "@ + display(
            hosts_path@,
        ) + ": "@ + e@),
{
    match write {
        HostWrite::Written => Ok((
            domain_result("hosts.added", suffixed(domain, " adicionado ao hosts."), domain),
            suffixed("Host added: ", domain),
        )),
        HostWrite::Elevated => {
            let mut m = chars_of("Permissão elevada solicitada para adicionar ");
            push_str(&mut m, domain);
            push_str(&mut m, " ao hosts. Confirme o UAC e recarregue o navegador.");
            Ok((
                domain_result("hosts.addElevationRequested", string_of(&m), domain),
                suffixed("Elevation requested to add host: ", domain),
            ))
        },
        HostWrite::Failed(e) => {
            let shown = display_path(hosts_path);
            let mut m = chars_of("Não foi possível editar ");
            push_str(&mut m, shown.as_str());
            push_str(&mut m, ": ");
            push_str(&mut m, e.as_str());
            Err(string_of(&m))
        },
    }
}

/// The lines of a hosts text that do not point the domain at this machine,
/// in order.
pub open spec fn kept_lines(ls: Seq<Seq<char>>, domain: Seq<char>) -> Seq<Seq<char>>
    decreases ls.len(),
{
    if ls.len() == 0 {
        Seq::empty()
    } else if is_entry(ls.last(), domain) {
        kept_lines(ls.drop_last(), domain)
    } else {
        kept_lines(ls.drop_last(), domain).push(ls.last())
    }
}

/// The hosts text without the lines that point the domain at this machine,
/// joined by `\n`.
pub open spec fn hosts_without(current: Seq<char>, domain: Seq<char>) -> Seq<char> {
    join(kept_lines(lines(current), domain), "\n"@)
}

/// Removing `domain` from the hosts text `current`: the normalized domain
/// and the text to write back, or why the domain is refused.
pub fn remove_host(domain: &str, current: &str) -> (r: Result<(String, String), String>)
    ensures
        match domain_of(domain@) {
            Err(e) => r matches Err(m) && m@ == e,
            Ok(d) => r matches Ok((n, t)) && n@ == d && t@ == hosts_without(current@, d),
        },
{
    let d = match normalize_domain(domain) {
        Ok(d) => d,
        Err(e) => return Err(e),
    };
    let ls = lines_str(current);
    let dv = chars_of(d.as_str());
    let ghost lv = texts(ls@);
    let mut kept: Vec<Vec<char>> = Vec::new();
    let mut i: usize = 0;
    while i < ls.len()
        invariant
            i <= ls.len(),
            lv == texts(ls@),
            lv == lines(current@),
            dv@ == d@,
            texts(kept@) == kept_lines(lv.take(i as int), d@),
        decreases ls.len() - i,
    {
        proof {
            assert(lv.take(i + 1).drop_last() =~= lv.take(i as int));
            assert(lv.take(i + 1).last() == ls@[i as int]@);
        }
        if !entry_exec(&ls[i], &dv) {
            let ghost before = texts(kept@);
            kept.push(ls[i].clone());
            assert(texts(kept@) =~= before.push(ls@[i as int]@));
        }
        i += 1;
    }
    assert(lv.take(ls.len() as int) =~= lv);
    let t = join_vec(&kept, "\n");
    Ok((d, string_of(&t)))
}

/// The reply to removing `domain` and the line to log, after writing the
/// hosts file went as `write` says.
pub fn remove_host_reply(domain: &str, write: HostWrite) -> (r: Result<(ActionResult, String), String>)
    ensures
        write is Written ==> (r matches Ok((a, l)) && a@ == domain_reply(
            "hosts.removed"@,
            domain@ + " removido do hosts."@,
            domain@,
        ) && l@ == "Host removed: "@ + domain@),
        write is Elevated ==> (r matches Ok((a, l)) && a@ == domain_reply(
            "hosts.removeElevationRequested"@,
            "Permissão elevada solicitada para remover "@ + domain@ + " do hosts. Confirme o UAC."@,
            domain@,
        ) && l@ == "Elevation requested to remove host: "@ + domain@),
        write matches HostWrite::Failed(e) ==> (r matches Err(m) && m@ == "Não foi possível editar hosts: "@ + e@),
{
    match write {
        HostWrite::Written => Ok((
            domain_result("hosts.removed", suffixed(domain, " removido do hosts."), domain),
            suffixed("Host removed: ", domain),
        )),
        HostWrite::Elevated => {
            let mut m = chars_of("Permissão elevada solicitada para remover ");
            push_str(&mut m, domain);
            push_str(&mut m, " do hosts. Confirme o UAC.");
            Ok((
                domain_result("hosts.removeElevationRequested", string_of(&m), domain),
                suffixed("Elevation requested to remove host: ", domain),
            ))
        },
        HostWrite::Failed(e) => Err(suffixed("Não foi possível editar hosts: ", e.as_str())),
    }
}

// ---------------------------------------------------------------------------
// The elevated script
// ---------------------------------------------------------------------------

/// The kinds of I/O error the hosts commands tell apart.
#[derive(PartialEq, Eq, Structural, Clone, Copy)]
pub enum IoErrorKind {
    PermissionDenied,
    Other,
}

/// Whether a write failed for lack of permission (then the elevated script is used).
pub fn is_permission_error(kind: IoErrorKind) -> (r: bool)
    ensures
        r == (kind == IoErrorKind::PermissionDenied),
{
    match kind {
        IoErrorKind::PermissionDenied => true,
        IoErrorKind::Other => false,
    }
}

/// `tmp/elevated/<add|remove>-host-<slug>.ps1`.
pub open spec fn hosts_script_file(root: Seq<char>, domain: Seq<char>, add: bool) -> Seq<char> {
    path_join(
        path_join(path_join(root, "tmp"@), "elevated"@),
        (if add {
            "add"@
        } else {
            "remove"@
        }) + "-host-"@ + slug(domain) + ".ps1"@,
    )
}

/// The script that adds the domain (unless a line of the hosts file points
/// it at this machine) or removes every such line, then flushes the DNS
/// cache. A line points the domain at this machine when it is `127.0.0.1`
/// and the domain, between blanks.
pub open spec fn hosts_script(domain: Seq<char>, add: bool) -> Seq<char> {
    let d = replace_str(domain, "'"@, "''"@);
    if add {
        "$hosts = Join-Path $env:SystemRoot 'System32\\drivers\\etc\\hosts'\n$domain = '"@ + d
            + "'\n$entry = '^\\s*127\\.0\\.0\\.1\\s+' + [regex]::Escape($domain) + '\\s*$'\n$lines = Get-Content -LiteralPath $hosts -ErrorAction SilentlyContinue\nif (-not ($lines | Where-Object { $_ -match $entry })) { Add-Content -LiteralPath $hosts -Value \"`r`n# Ipeenv`r`n127.0.0.1 $domain\" }\nipconfig /flushdns | Out-Null\n"@
    } else {
        "$hosts = Join-Path $env:SystemRoot 'System32\\drivers\\etc\\hosts'\n$domain = '"@ + d
            + "'\n$entry = '^\\s*127\\.0\\.0\\.1\\s+' + [regex]::Escape($domain) + '\\s*$'\n$lines = Get-Content -LiteralPath $hosts -ErrorAction Stop | Where-Object { $_ -notmatch $entry }\nSet-Content -LiteralPath $hosts -Value $lines -Encoding ASCII\nipconfig /flushdns | Out-Null\n"@
    }
}

/// Where the elevated hosts script for a domain is written.
pub fn hosts_script_path(root: &str, domain: &str, add: bool) -> (r: String)
    ensures
        r@ == hosts_script_file(root@, domain@, add),
{
    let a = join_path(root, "tmp");
    let b = join_path(a.as_str(), "elevated");
    let mut f = if add {
        chars_of("add")
    } else {
        chars_of("remove")
    };
    push_str(&mut f, "-host-");
    let s = slugify(domain);
    push_str(&mut f, s.as_str());
    push_str(&mut f, ".ps1");
    let fs = string_of(&f);
    join_path(b.as_str(), fs.as_str())
}

/// The elevated script that adds or removes a domain.
pub fn hosts_script_text(domain: &str, add: bool) -> (r: String)
    ensures
        r@ == hosts_script(domain@, add),
{
    let d = replace_lit(&chars_of(domain), "'", "''");
    let mut m = chars_of("$hosts = Join-Path $env:SystemRoot 'System32\\drivers\\etc\\hosts'\n$domain = '");
    push_all(&mut m, &d);
    if add {
        push_str(&mut m, "'\n$entry = '^\\s*127\\.0\\.0\\.1\\s+' + [regex]::Escape($domain) + '\\s*$'\n$lines = Get-Content -LiteralPath $hosts -ErrorAction SilentlyContinue\nif (-not ($lines | Where-Object { $_ -match $entry })) { Add-Content -LiteralPath $hosts -Value \"`r`n# Ipeenv`r`n127.0.0.1 $domain\" }\nipconfig /flushdns | Out-Null\n");
    } else {
        push_str(&mut m, "'\n$entry = '^\\s*127\\.0\\.0\\.1\\s+' + [regex]::Escape($domain) + '\\s*$'\n$lines = Get-Content -LiteralPath $hosts -ErrorAction Stop | Where-Object { $_ -notmatch $entry }\nSet-Content -LiteralPath $hosts -Value $lines -Encoding ASCII\nipconfig /flushdns | Out-Null\n");
    }
    string_of(&m)
}

/// The command that starts an elevated script, its path with `"` escaped.
pub fn elevated_script_command(script: &str) -> (r: String)
    ensures
        r@ == crate::runtime::elevated_launcher(replace_str(script@, "\""@, "\\\""@)),
{
    let q = replace_lit(&chars_of(script), "\"", "\\\"");
    let qs = string_of(&q);
    crate::runtime::elevated_launcher_command(qs.as_str())
}

// ---------------------------------------------------------------------------
// Laws
// ---------------------------------------------------------------------------

/// The pieces of a text followed by a word without whitespace: the word
/// extends the last piece.
proof fn lemma_ws_raw_append_word(pre: Seq<char>, w: Seq<char>)
    requires
        forall|i: int| 0 <= i < w.len() ==> !is_ws(#[trigger] w[i]),
    ensures
        split_ws_raw(pre + w) == split_ws_raw(pre).update(
            split_ws_raw(pre).len() - 1,
            split_ws_raw(pre).last() + w,
        ),
    decreases w.len(),
{
    lemma_split_ws_raw_len(pre);
    let p = split_ws_raw(pre);
    if w.len() == 0 {
        assert(pre + w =~= pre);
        assert(p.last() + w =~= p.last());
        assert(p.update(p.len() - 1, p.last()) =~= p);
    } else {
        let v = w.drop_last();
        assert forall|i: int| 0 <= i < v.len() implies !is_ws(#[trigger] v[i]) by {
            assert(v[i] == w[i]);
        }
        lemma_ws_raw_append_word(pre, v);
        assert((pre + w).drop_last() =~= pre + v);
        assert((pre + w).last() == w[w.len() - 1]);
        lemma_split_ws_raw_len(pre + v);
        let prev = split_ws_raw(pre + v);
        assert(prev.last() == p.last() + v);
        assert((p.last() + v).push(w.last()) =~= p.last() + w);
        assert(split_ws_raw(pre + w) =~= p.update(p.len() - 1, p.last() + w));
    }
}

/// A trailing `\r` is whitespace, so dropping it keeps the fields of a line.
proof fn lemma_strip_cr_fields(l: Seq<char>)
    ensures
        split_whitespace(strip_cr(l)) == split_whitespace(l),
{
    if l.len() > 0 && l.last() == '\r' {
        assert(is_ws(l.last()));
        lemma_non_empty_push(split_ws_raw(l.drop_last()), Seq::<char>::empty());
    }
}

/// The fields of `127.0.0.1 <domain>` are `127.0.0.1` and the domain, for a
/// non-empty domain without whitespace.
proof fn lemma_entry_fields(domain: Seq<char>)
    requires
        domain.len() > 0,
        forall|i: int| 0 <= i < domain.len() ==> !is_ws(#[trigger] domain[i]),
    ensures
        is_entry("127.0.0.1 "@ + domain, domain),
{
    reveal_strlit("127.0.0.1");
    reveal_strlit("127.0.0.1 ");
    let local = "127.0.0.1"@;
    assert(local.len() == 9);
    assert forall|i: int| 0 <= i < local.len() implies !is_ws(#[trigger] local[i]) by {
        assert(local[i] == '1' || local[i] == '2' || local[i] == '7' || local[i] == '.' || local[i] == '0');
    }
    let empty = Seq::<char>::empty();
    lemma_ws_raw_append_word(empty, local);
    assert(empty + local =~= local);
    assert(split_ws_raw(empty) =~= seq![empty]);
    assert(split_ws_raw(local) =~= seq![local]);
    let head = local.push(' ');
    assert(head.drop_last() =~= local);
    assert(split_ws_raw(head) =~= seq![local, empty]);
    lemma_ws_raw_append_word(head, domain);
    assert(head + domain =~= "127.0.0.1 "@ + domain);
    let raw = split_ws_raw(head + domain);
    assert(raw =~= seq![local, domain]);
    lemma_non_empty_push(seq![local], domain);
    assert(seq![local].push(domain) =~= seq![local, domain]);
    lemma_non_empty_push(Seq::<Seq<char>>::empty(), local);
    assert(Seq::<Seq<char>>::empty().push(local) =~= seq![local]);
    assert(non_empty(Seq::<Seq<char>>::empty()) =~= Seq::<Seq<char>>::empty());
    assert(split_whitespace("127.0.0.1 "@ + domain) =~= seq![local, domain]);
}

/// After its entry is appended, the hosts text points the domain at this
/// machine (for a non-empty domain without whitespace, as normalized
/// domains are).
pub proof fn law_added_host_is_present(current: Seq<char>, domain: Seq<char>)
    requires
        domain.len() > 0,
        forall|i: int| 0 <= i < domain.len() ==> !is_ws(#[trigger] domain[i]),
    ensures
        hosted(current + host_entry(domain), domain),
{
    reveal_strlit("\n# Ipeenv\n127.0.0.1 ");
    reveal_strlit("\n");
    reveal_strlit("\n# Ipeenv\n");
    reveal_strlit("\n# Ipeenv");
    reveal_strlit("127.0.0.1 ");
    let head = current + "\n# Ipeenv\n"@;
    let q = "127.0.0.1 "@ + domain;
    let all = current + host_entry(domain);
    assert(all =~= (head + q).push('\n'));
    assert(head =~= (current + "\n# Ipeenv"@).push('\n'));
    lemma_split_char_len(current + "\n# Ipeenv"@, '\n');
    assert(head.drop_last() =~= current + "\n# Ipeenv"@);
    assert(head.last() == '\n');
    assert(split_char(head, '\n') == split_char(current + "\n# Ipeenv"@, '\n').push(Seq::<char>::empty()));
    assert(!has_char(q, '\n')) by {
        if has_char(q, '\n') {
            let i = choose|i: int| 0 <= i < q.len() && q[i] == '\n';
            if i >= 10 {
                assert(domain[i - 10] == '\n');
                assert(is_ws(domain[i - 10]));
            }
        }
    }
    lemma_split_char_append(head, q, '\n');
    lemma_split_char_len(head, '\n');
    let sh = split_char(head + q, '\n');
    assert(sh.last() =~= q);
    assert(all.drop_last() =~= head + q);
    assert(all.last() == '\n');
    assert(split_char(all, '\n') == sh.push(Seq::<char>::empty()));
    let ls = lines(all);
    let k = sh.len() - 1;
    assert(ls[k] == strip_cr(q));
    assert(strip_cr(q) == q) by {
        assert(q.last() == domain[domain.len() - 1]);
        assert(is_ws('\r'));
    }
    lemma_entry_fields(domain);
    assert(is_entry(ls[k], domain));
}

proof fn lemma_kept_lines(ls: Seq<Seq<char>>, domain: Seq<char>)
    ensures
        forall|i: int| 0 <= i < kept_lines(ls, domain).len() ==> !is_entry(#[trigger] kept_lines(ls, domain)[i], domain),
        forall|i: int| 0 <= i < kept_lines(ls, domain).len() ==> ls.contains(#[trigger] kept_lines(ls, domain)[i]),
    decreases ls.len(),
{
    if ls.len() > 0 {
        lemma_kept_lines(ls.drop_last(), domain);
        let rest = kept_lines(ls.drop_last(), domain);
        let k = kept_lines(ls, domain);
        assert forall|i: int| 0 <= i < k.len() implies !is_entry(#[trigger] k[i], domain) && ls.contains(k[i]) by {
            if i < rest.len() {
                assert(k[i] == rest[i]);
                assert(ls.drop_last().contains(rest[i]));
                let j = choose|j: int| 0 <= j < ls.drop_last().len() && ls.drop_last()[j] == rest[i];
                assert(ls[j] == rest[i]);
            } else {
                assert(k[i] == ls.last());
                assert(ls[ls.len() - 1] == ls.last());
            }
        }
    }
}

/// After a domain is removed, no line of the hosts text points it at this
/// machine.
pub proof fn law_removed_host_is_absent(current: Seq<char>, domain: Seq<char>)
    ensures
        !hosted(hosts_without(current, domain), domain),
{
    reveal_strlit("\n");
    let kept = kept_lines(lines(current), domain);
    lemma_kept_lines(lines(current), domain);
    crate::text::lemma_lines_no_newline(current);
    let out = hosts_without(current, domain);
    if kept.len() == 0 {
        assert(out =~= Seq::<char>::empty());
        assert(split_char(out, '\n') =~= seq![Seq::<char>::empty()]);
        assert(lines(out).len() == 0);
    } else {
        assert(no_newlines(kept)) by {
            assert forall|i: int| 0 <= i < kept.len() implies !has_char(#[trigger] kept[i], '\n') by {
                assert(lines(current).contains(kept[i]));
                let j = choose|j: int| 0 <= j < lines(current).len() && lines(current)[j] == kept[i];
                assert(!has_char(lines(current)[j], '\n'));
            }
        }
        lemma_split_join(kept);
        let p = split_char(out, '\n');
        assert(p == kept);
        assert forall|i: int| 0 <= i < lines(out).len() implies !is_entry(#[trigger] lines(out)[i], domain) by {
            if i < p.len() - 1 {
                assert(lines(out)[i] == strip_cr(p[i]));
                lemma_strip_cr_fields(p[i]);
            } else {
                assert(lines(out)[i] == p.last());
                assert(p.last() == kept[kept.len() - 1]);
            }
        }
    }
}

/// After the entry of a normalized domain is appended, the hosts text points
/// the domain at this machine.
pub proof fn law_added_normalized_host_is_present(current: Seq<char>, domain: Seq<char>)
    ensures
        domain_of(domain) matches Ok(d) ==> hosted(current + host_entry(d), d),
{
    crate::naming::law_normalized_domain_shape(domain);
    if let Ok(d) = domain_of(domain) {
        law_added_host_is_present(current, d);
    }
}
} // verus!
