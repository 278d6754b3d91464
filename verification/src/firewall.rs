//! Windows Firewall rules for the programs of a root: which programs get a
//! rule, whether a rule names a program, the summary shown to the user, and
//! the elevated script used when rules cannot be added directly.

use vstd::prelude::*;
use crate::text::{
    ascii_lower, chars_of, join, join_vec, lines, lines_str, lower_text, push_all, push_str,
    replace_char, replace_char_vec, replace_lit, replace_str, string_of, text_eq, texts, trim,
    trim_str, trim_vec,
};
use crate::paths::{join_path, path_join};
use crate::config::{ActionResult, ActionResultView, coded_result, param_views, plain_result};
use crate::services::{active_dir, bin_of, strings};
use crate::runtime::ps_quoted;

verus! {

/// An entry of `bin/php` and which PHP programs it holds.
pub struct PhpDirProbe {
    pub name: String,
    pub is_dir: bool,
    pub has_cgi: bool,
    pub has_php: bool,
}

pub struct PhpDirProbeView {
    pub name: Seq<char>,
    pub is_dir: bool,
    pub has_cgi: bool,
    pub has_php: bool,
}

impl View for PhpDirProbe {
    type V = PhpDirProbeView;

    open spec fn view(&self) -> PhpDirProbeView {
        PhpDirProbeView { name: self.name@, is_dir: self.is_dir, has_cgi: self.has_cgi, has_php: self.has_php }
    }
}

/// The rules for the PHP folders: for each folder, its `php-cgi.exe` and its
/// `php.exe` when present.
pub open spec fn php_candidates(php: Seq<char>, dirs: Seq<PhpDirProbeView>) -> Seq<(Seq<char>, Seq<char>)>
    decreases dirs.len(),
{
    if dirs.len() == 0 {
        Seq::empty()
    } else {
        let rest = php_candidates(php, dirs.drop_last());
        let d = dirs.last();
        let dir = path_join(php, d.name);
        if !d.is_dir {
            rest
        } else {
            let with_cgi = if d.has_cgi {
                rest.push(("Ipeenv PHP-CGI "@ + d.name, path_join(dir, "php-cgi.exe"@)))
            } else {
                rest
            };
            if d.has_php {
                with_cgi.push(("Ipeenv PHP "@ + d.name, path_join(dir, "php.exe"@)))
            } else {
                with_cgi
            }
        }
    }
}

/// The programs that get a firewall rule, with the rule names: the active
/// Apache and MySQL, then the PHP programs of each folder of `bin/php`.
pub open spec fn candidates(root: Seq<char>, apache: Seq<Seq<char>>, mysql: Seq<Seq<char>>, dirs: Seq<PhpDirProbeView>) -> Seq<(Seq<char>, Seq<char>)> {
    seq![
        ("Ipeenv Apache"@, path_join(path_join(active_dir(bin_of(root, "apache"@), apache), "bin"@), "httpd.exe"@)),
        ("Ipeenv MySQL"@, path_join(path_join(active_dir(bin_of(root, "mysql"@), mysql), "bin"@), "mysqld.exe"@)),
    ] + php_candidates(bin_of(root, "php"@), dirs)
}

pub open spec fn pair_views(v: Seq<(String, String)>) -> Seq<(Seq<char>, Seq<char>)> {
    v.map_values(|p: (String, String)| (p.0@, p.1@))
}

fn named(a: &str, b: &str) -> (r: String)
    ensures
        r@ == a@ + b@,
{
    let mut m = chars_of(a);
    push_str(&mut m, b);
    string_of(&m)
}

/// The programs that get a firewall rule (see `candidates`); `runtimes`
/// lists the Apache and MySQL runtime folders, `php_dirs` the entries of
/// `bin/php` (none when it cannot be read).
pub fn firewall_candidates(root: &str, runtimes: &crate::services::RuntimeListing, php_dirs: &Vec<PhpDirProbe>) -> (r: Vec<(String, String)>)
    ensures
        pair_views(r@) == candidates(root@, strings(runtimes.apache@), strings(runtimes.mysql@), php_dirs@.map_values(|d: PhpDirProbe| d@)),
{
    let bin = join_path(root, "bin");
    let ap = join_path(bin.as_str(), "apache");
    let my = join_path(bin.as_str(), "mysql");
    let php = join_path(bin.as_str(), "php");
    let a = match crate::services::active_runtime_dir(ap.as_str(), &runtimes.apache) {
        Some(d) => d,
        None => ap,
    };
    let m = match crate::services::active_runtime_dir(my.as_str(), &runtimes.mysql) {
        Some(d) => d,
        None => my,
    };
    let ab = join_path(a.as_str(), "bin");
    let mb = join_path(m.as_str(), "bin");
    let mut r: Vec<(String, String)> = Vec::new();
    r.push(("Ipeenv Apache".to_owned(), join_path(ab.as_str(), "httpd.exe")));
    r.push(("Ipeenv MySQL".to_owned(), join_path(mb.as_str(), "mysqld.exe")));
    let ghost head = pair_views(r@);
    let ghost dv = php_dirs@.map_values(|d: PhpDirProbe| d@);
    let mut i: usize = 0;
    while i < php_dirs.len()
        invariant
            i <= php_dirs.len(),
            dv == php_dirs@.map_values(|d: PhpDirProbe| d@),
            php@ == bin_of(root@, "php"@),
            head.len() == 2,
            pair_views(r@) == head + php_candidates(php@, dv.take(i as int)),
        decreases php_dirs.len() - i,
    {
        let d = &php_dirs[i];
        proof {
            assert(dv.take(i + 1).drop_last() =~= dv.take(i as int));
            assert(dv.take(i + 1).last() == d@);
        }
        let ghost before = pair_views(r@);
        if d.is_dir {
            let dir = join_path(php.as_str(), d.name.as_str());
            let ghost prev = php_candidates(php@, dv.take(i as int));
            let ghost with_cgi = if d.has_cgi {
                prev.push(("Ipeenv PHP-CGI "@ + d.name@, path_join(dir@, "php-cgi.exe"@)))
            } else {
                prev
            };
            if d.has_cgi {
                let c = (named("Ipeenv PHP-CGI ", d.name.as_str()), join_path(dir.as_str(), "php-cgi.exe"));
                let ghost cv = (c.0@, c.1@);
                r.push(c);
                assert(pair_views(r@) =~= before.push(cv));
                assert(before.push(cv) =~= head + prev.push(cv));
            }
            assert(pair_views(r@) =~= head + with_cgi);
            let ghost mid = pair_views(r@);
            if d.has_php {
                let c = (named("Ipeenv PHP ", d.name.as_str()), join_path(dir.as_str(), "php.exe"));
                let ghost cv = (c.0@, c.1@);
                r.push(c);
                assert(pair_views(r@) =~= mid.push(cv));
                assert(mid.push(cv) =~= head + with_cgi.push(cv));
            }
            assert(pair_views(r@) =~= head + php_candidates(php@, dv.take(i + 1)));
        } else {
            assert(pair_views(r@) =~= head + php_candidates(php@, dv.take(i + 1)));
        }
        i += 1;
    }
    assert(dv.take(php_dirs.len() as int) =~= dv);
    r
}

// ---------------------------------------------------------------------------
// Rules
// ---------------------------------------------------------------------------

/// A path compared as a rule's program: `/` for `\`, lowercase.
pub open spec fn program_key(p: Seq<char>) -> Seq<char> {
    ascii_lower(replace_char(p, '\\', '/'))
}

/// Some line of the query output names the program.
pub open spec fn names_program(output: Seq<char>, exe: Seq<char>) -> bool {
    exists|i: int| 0 <= i < lines(output).len() && program_key(trim(#[trigger] lines(output)[i])) == program_key(exe)
}

fn program_key_exec(p: &Vec<char>) -> (r: Vec<char>)
    ensures
        r@ == program_key(p@),
{
    let a = replace_char_vec(p, '\\', '/');
    lower_text(&a)
}

/// Whether the programs listed by the rule query (its standard output) include `exe`.
pub fn rule_names_program(output: &str, exe: &str) -> (r: bool)
    ensures
        r == names_program(output@, exe@),
{
    let expected = program_key_exec(&chars_of(exe));
    let ls = lines_str(output);
    let ghost lv = texts(ls@);
    let mut i: usize = 0;
    while i < ls.len()
        invariant
            i <= ls.len(),
            lv == texts(ls@),
            lv == lines(output@),
            expected@ == program_key(exe@),
            forall|k: int| 0 <= k < i ==> program_key(trim(#[trigger] lv[k])) != program_key(exe@),
        decreases ls.len() - i,
    {
        assert(lv[i as int] == ls@[i as int]@);
        let key = program_key_exec(&trim_vec(&ls[i]));
        if text_eq(&key, &expected) {
            return true;
        }
        i += 1;
    }
    false
}

/// The PowerShell query that lists the programs of the rules with a display name.
pub fn rule_query_script(name: &str) -> (r: String)
    ensures
        r@ == "$rules = Get-NetFirewallRule -DisplayName '"@ + ps_quoted(name@)
            + "' -ErrorAction SilentlyContinue; if (-not $rules) { exit 1 }; foreach ($rule in $rules) { Get-NetFirewallApplicationFilter -AssociatedNetFirewallRule $rule | Select-Object -ExpandProperty Program }"@,
{
    let q = replace_lit(&chars_of(name), "'", "''");
    let mut m = chars_of("$rules = Get-NetFirewallRule -DisplayName '");
    push_all(&mut m, &q);
    push_str(&mut m, "' -ErrorAction SilentlyContinue; if (-not $rules) { exit 1 }; foreach ($rule in $rules) { Get-NetFirewallApplicationFilter -AssociatedNetFirewallRule $rule | Select-Object -ExpandProperty Program }");
    string_of(&m)
}

/// The arguments of `netsh` that add an inbound rule allowing a program.
pub fn netsh_rule_args(name: &str, exe: &str) -> (r: Vec<String>)
    ensures
        r@.map_values(|s: String| s@) == seq![
            "advfirewall"@, "firewall"@, "add"@, "rule"@, "name="@ + name@, "dir=in"@, "action=allow"@,
            "program="@ + exe@, "enable=yes"@, "profile=any"@,
        ],
{
    let mut r: Vec<String> = Vec::new();
    r.push("advfirewall".to_owned());
    r.push("firewall".to_owned());
    r.push("add".to_owned());
    r.push("rule".to_owned());
    r.push(named("name=", name));
    r.push("dir=in".to_owned());
    r.push("action=allow".to_owned());
    r.push(named("program=", exe));
    r.push("enable=yes".to_owned());
    r.push("profile=any".to_owned());
    assert(r@.map_values(|s: String| s@) =~= seq![
        "advfirewall"@, "firewall"@, "add"@, "rule"@, "name="@ + name@, "dir=in"@, "action=allow"@,
        "program="@ + exe@, "enable=yes"@, "profile=any"@,
    ]);
    r
}

/// The error of `netsh` when it failed: its error output, else its standard output, trimmed.
pub fn netsh_failure(stderr: &str, stdout: &str) -> (r: String)
    ensures
        r@ == if trim(stderr@).len() > 0 {
            trim(stderr@)
        } else {
            trim(stdout@)
        },
{
    let e = trim_str(stderr);
    if e.len() > 0 {
        string_of(&e)
    } else {
        string_of(&trim_str(stdout))
    }
}

// ---------------------------------------------------------------------------
// The summary
// ---------------------------------------------------------------------------

/// How the rule for one program went.
pub enum RuleStatus {
    /// The program is not installed.
    Missing,
    /// A rule naming it exists.
    Existing,
    /// The rule was added.
    Created,
    /// Adding the rule failed; the error.
    Failed(String),
}

pub enum RuleStatusView {
    Missing,
    Existing,
    Created,
    Failed(Seq<char>),
}

impl View for RuleStatus {
    type V = RuleStatusView;

    open spec fn view(&self) -> RuleStatusView {
        match self {
            RuleStatus::Missing => RuleStatusView::Missing,
            RuleStatus::Existing => RuleStatusView::Existing,
            RuleStatus::Created => RuleStatusView::Created,
            RuleStatus::Failed(e) => RuleStatusView::Failed(e@),
        }
    }
}

/// The names whose rule went a given way.
pub open spec fn with_status(names: Seq<Seq<char>>, st: Seq<RuleStatusView>, which: int) -> Seq<Seq<char>>
    decreases names.len(),
{
    if names.len() == 0 || st.len() < names.len() {
        Seq::empty()
    } else {
        let rest = with_status(names.drop_last(), st.take(names.len() - 1), which);
        let n = names.last();
        let s = st[names.len() - 1];
        let item = match s {
            RuleStatusView::Missing => if which == 0 {
                Some(n + " (não instalado)"@)
            } else {
                None
            },
            RuleStatusView::Existing => if which == 1 {
                Some(n)
            } else {
                None
            },
            RuleStatusView::Created => if which == 2 {
                Some(n)
            } else {
                None
            },
            RuleStatusView::Failed(e) => if which == 3 {
                Some(n + ": "@ + e)
            } else {
                None
            },
        };
        match item {
            Some(x) => rest.push(x),
            None => rest,
        }
    }
}

/// The message after the rules were handled without error: the created,
/// existing and skipped programs, each group when not empty, joined by ` | `.
pub open spec fn firewall_message(created: Seq<Seq<char>>, existing: Seq<Seq<char>>, skipped: Seq<Seq<char>>) -> Seq<char> {
    let parts = (if created.len() > 0 {
        seq!["Regras criadas: "@ + join(created, ", "@)]
    } else {
        Seq::empty()
    }) + (if existing.len() > 0 {
        seq!["Ja existiam: "@ + join(existing, ", "@)]
    } else {
        Seq::empty()
    }) + (if skipped.len() > 0 {
        seq!["Ignorados: "@ + join(skipped, ", "@)]
    } else {
        Seq::empty()
    });
    if parts.len() == 0 {
        "Nenhum executavel encontrado para liberar."@
    } else {
        join(parts, " | "@)
    }
}

/// The reply once every rule was handled: when some rule could not be added
/// the elevated script is to be run and its reply is given; otherwise the summary.
pub open spec fn firewall_reply(names: Seq<Seq<char>>, st: Seq<RuleStatusView>) -> (bool, ActionResultView) {
    if with_status(names, st, 3).len() > 0 {
        (
            true,
            coded_result(
                true,
                "firewall.elevationRequested"@,
                "Permissão elevada solicitada para liberar Apache, MySQL e PHP-CGI no Firewall. Confirme o UAC."@,
                Seq::empty(),
            ),
        )
    } else {
        (false, plain_result(true, firewall_message(with_status(names, st, 2), with_status(names, st, 1), with_status(names, st, 0))))
    }
}

fn collect_status(names: &Vec<String>, statuses: &Vec<RuleStatus>, which: u8) -> (r: Vec<Vec<char>>)
    requires
        statuses.len() == names.len(),
        which <= 3,
    ensures
        texts(r@) == with_status(strings(names@), statuses@.map_values(|s: RuleStatus| s@), which as int),
{
    let ghost nv = strings(names@);
    let ghost sv = statuses@.map_values(|s: RuleStatus| s@);
    let mut r: Vec<Vec<char>> = Vec::new();
    let mut i: usize = 0;
    while i < names.len()
        invariant
            i <= names.len(),
            statuses.len() == names.len(),
            which <= 3,
            nv == strings(names@),
            sv == statuses@.map_values(|s: RuleStatus| s@),
            texts(r@) == with_status(nv.take(i as int), sv.take(i as int), which as int),
        decreases names.len() - i,
    {
        proof {
            assert(nv.take(i + 1).drop_last() =~= nv.take(i as int));
            assert(sv.take(i + 1).take(i as int) =~= sv.take(i as int));
            assert(nv.take(i + 1).last() == names@[i as int]@);
            assert(sv.take(i + 1)[i as int] == statuses@[i as int]@);
        }
        let ghost before = texts(r@);
        let n = names[i].as_str();
        match &statuses[i] {
            RuleStatus::Missing => {
                if which == 0 {
                    let mut m = chars_of(n);
                    push_str(&mut m, " (não instalado)");
                    r.push(m);
                }
            },
            RuleStatus::Existing => {
                if which == 1 {
                    r.push(chars_of(n));
                }
            },
            RuleStatus::Created => {
                if which == 2 {
                    r.push(chars_of(n));
                }
            },
            RuleStatus::Failed(e) => {
                if which == 3 {
                    let mut m = chars_of(n);
                    push_str(&mut m, ": ");
                    push_str(&mut m, e.as_str());
                    r.push(m);
                }
            },
        }
        assert(texts(r@) =~= with_status(nv.take(i + 1), sv.take(i + 1), which as int));
        i += 1;
    }
    assert(nv.take(names.len() as int) =~= nv);
    assert(sv.take(names.len() as int) =~= sv);
    r
}

fn group(out: &mut Vec<Vec<char>>, head: &str, items: &Vec<Vec<char>>)
    ensures
        texts(final(out)@) == texts(old(out)@) + if items.len() > 0 {
            seq![head@ + join(texts(items@), ", "@)]
        } else {
            Seq::<Seq<char>>::empty()
        },
{
    if items.len() > 0 {
        let j = join_vec(items, ", ");
        let mut m = chars_of(head);
        push_all(&mut m, &j);
        let ghost before = texts(out@);
        out.push(m);
        assert(texts(out@) =~= before + seq![head@ + join(texts(items@), ", "@)]);
    } else {
        assert(texts(out@) =~= texts(out@) + Seq::<Seq<char>>::empty());
    }
}

/// The reply once every rule was handled (see `firewall_reply`); the flag
/// tells whether the elevated script is to be run first.
pub fn firewall_summary(names: &Vec<String>, statuses: &Vec<RuleStatus>) -> (r: (bool, ActionResult))
    requires
        statuses.len() == names.len(),
    ensures
        (r.0, r.1@) == firewall_reply(strings(names@), statuses@.map_values(|s: RuleStatus| s@)),
{
    let errors = collect_status(names, statuses, 3);
    if errors.len() > 0 {
        let params: Vec<(&str, String)> = Vec::new();
        assert(param_views(params@) =~= Seq::<(Seq<char>, Seq<char>)>::empty());
        return (true, ActionResult::coded(
            true,
            "firewall.elevationRequested",
            "Permissão elevada solicitada para liberar Apache, MySQL e PHP-CGI no Firewall. Confirme o UAC.".to_owned(),
            params,
        ));
    }
    let created = collect_status(names, statuses, 2);
    let existing = collect_status(names, statuses, 1);
    let skipped = collect_status(names, statuses, 0);
    let mut parts: Vec<Vec<char>> = Vec::new();
    assert(texts(parts@) =~= Seq::<Seq<char>>::empty());
    group(&mut parts, "Regras criadas: ", &created);
    group(&mut parts, "Ja existiam: ", &existing);
    group(&mut parts, "Ignorados: ", &skipped);
    let message = if parts.len() == 0 {
        "Nenhum executavel encontrado para liberar.".to_owned()
    } else {
        string_of(&join_vec(&parts, " | "))
    };
    (false, ActionResult::message(true, message))
}

/// The line logged when a rule was added.
pub fn rule_created_log(name: &str) -> (r: String)
    ensures
        r@ == "Firewall: rule created for "@ + name@,
{
    named("Firewall: rule created for ", name)
}

// ---------------------------------------------------------------------------
// The elevated script
// ---------------------------------------------------------------------------

/// The lines that (re)create the rule of one program.
pub open spec fn rule_block(name: Seq<char>, exe: Seq<char>) -> Seq<char> {
    let n = ps_quoted(name);
    "$existing = Get-NetFirewallRule -DisplayName '"@ + n
        + "' -ErrorAction SilentlyContinue\nif ($existing) { $existing | Remove-NetFirewallRule }\nNew-NetFirewallRule -DisplayName '"@
        + n + "' -Direction Inbound -Action Allow -Program '"@ + ps_quoted(exe)
        + "' -Profile Any -Enabled True | Out-Null\n$created += '"@ + n + "'\n"@
}

/// The blocks of the programs that still need a rule, in order.
pub open spec fn rule_blocks(c: Seq<(Seq<char>, Seq<char>)>, needed: Seq<bool>) -> Seq<char>
    decreases c.len(),
{
    if c.len() == 0 {
        Seq::empty()
    } else {
        let k = c.len() - 1;
        rule_blocks(c.drop_last(), needed) + if k < needed.len() && needed[k] {
            rule_block(c.last().0, c.last().1)
        } else {
            Seq::empty()
        }
    }
}

/// The elevated script: it (re)creates the rules of the programs that need
/// one and records the created names in `result`.
pub open spec fn firewall_script(c: Seq<(Seq<char>, Seq<char>)>, needed: Seq<bool>, result: Seq<char>) -> Seq<char> {
    "$ErrorActionPreference = 'Stop'\n$created = @()\n"@ + rule_blocks(c, needed)
        + "'OK: ' + ($created -join ', ') | Set-Content -LiteralPath '"@ + ps_quoted(result) + "' -Encoding UTF8\n"@
}

/// The elevated firewall script for the candidates; `needed[i]`: the `i`-th
/// program exists and has no rule yet.
pub fn firewall_script_text(candidates: &Vec<(String, String)>, needed: &Vec<bool>, result: &str) -> (r: String)
    ensures
        r@ == firewall_script(pair_views(candidates@), needed@, result@),
{
    let ghost cv = pair_views(candidates@);
    let mut m = chars_of("$ErrorActionPreference = 'Stop'\n$created = @()\n");
    let ghost start = m@;
    let mut i: usize = 0;
    while i < candidates.len()
        invariant
            i <= candidates.len(),
            cv == pair_views(candidates@),
            start == "$ErrorActionPreference = 'Stop'\n$created = @()\n"@,
            m@ == start + rule_blocks(cv.take(i as int), needed@),
        decreases candidates.len() - i,
    {
        proof {
            assert(cv.take(i + 1).drop_last() =~= cv.take(i as int));
            assert(cv.take(i + 1).last() == (candidates@[i as int].0@, candidates@[i as int].1@));
        }
        let ghost before = m@;
        if i < needed.len() && needed[i] {
            let n = replace_lit(&chars_of(candidates[i].0.as_str()), "'", "''");
            let e = replace_lit(&chars_of(candidates[i].1.as_str()), "'", "''");
            push_str(&mut m, "$existing = Get-NetFirewallRule -DisplayName '");
            push_all(&mut m, &n);
            push_str(&mut m, "' -ErrorAction SilentlyContinue\nif ($existing) { $existing | Remove-NetFirewallRule }\nNew-NetFirewallRule -DisplayName '");
            push_all(&mut m, &n);
            push_str(&mut m, "' -Direction Inbound -Action Allow -Program '");
            push_all(&mut m, &e);
            push_str(&mut m, "' -Profile Any -Enabled True | Out-Null\n$created += '");
            push_all(&mut m, &n);
            push_str(&mut m, "'\n");
            assert(m@ =~= before + rule_block(candidates@[i as int].0@, candidates@[i as int].1@));
        } else {
            assert(m@ =~= before + Seq::<char>::empty());
        }
        i += 1;
    }
    assert(cv.take(candidates.len() as int) =~= cv);
    push_str(&mut m, "'OK: ' + ($created -join ', ') | Set-Content -LiteralPath '");
    let q = replace_lit(&chars_of(result), "'", "''");
    push_all(&mut m, &q);
    push_str(&mut m, "' -Encoding UTF8\n");
    string_of(&m)
}

/// The line logged after the elevated script ran: what it recorded, or that
/// it recorded nothing.
pub fn elevated_firewall_log(result: Option<&str>) -> (r: String)
    ensures
        match result {
            Some(t) => r@ == "Elevated firewall: "@ + trim(t@),
            None => r@ == "Elevated firewall requested, but no result was written. Permission may have been canceled or the script failed."@,
        },
{
    match result {
        Some(t) => {
            let mut m = chars_of("Elevated firewall: ");
            let v = trim_str(t);
            push_all(&mut m, &v);
            string_of(&m)
        },
        None => "Elevated firewall requested, but no result was written. Permission may have been canceled or the script failed.".to_owned(),
    }
}

} // verus!
