//! The application settings (`config/app.json`) and the outcome that every
//! command reports to the interface.

use vstd::prelude::*;
use crate::text::{chars_of, decimal, push_decimal, push_str, string_of};

verus! {

/// The application settings.
pub struct AppConfig {
    pub root_dir: String,
    pub http_port: u16,
    pub https_port: u16,
    pub mysql_port: u16,
    pub php_version_hint: String,
    pub https_enabled: bool,
    pub enabled_services: Vec<String>,
}

pub struct AppConfigView {
    pub root_dir: Seq<char>,
    pub http_port: u16,
    pub https_port: u16,
    pub mysql_port: u16,
    pub php_version_hint: Seq<char>,
    pub https_enabled: bool,
    pub enabled_services: Seq<Seq<char>>,
}

pub open spec fn string_views(v: Seq<String>) -> Seq<Seq<char>> {
    v.map_values(|s: String| s@)
}

impl View for AppConfig {
    type V = AppConfigView;

    open spec fn view(&self) -> AppConfigView {
        AppConfigView {
            root_dir: self.root_dir@,
            http_port: self.http_port,
            https_port: self.https_port,
            mysql_port: self.mysql_port,
            php_version_hint: self.php_version_hint@,
            https_enabled: self.https_enabled,
            enabled_services: string_views(self.enabled_services@),
        }
    }
}

/// HTTPS is on unless the settings say otherwise.
pub fn default_https_enabled() -> (r: bool)
    ensures
        r,
{
    true
}

/// The services enabled unless the settings say otherwise: Apache and MySQL.
pub fn default_enabled_services() -> (r: Vec<String>)
    ensures
        string_views(r@) == seq!["apache"@, "mysql"@],
{
    let mut r: Vec<String> = Vec::new();
    r.push("apache".to_owned());
    r.push("mysql".to_owned());
    assert(string_views(r@) =~= seq!["apache"@, "mysql"@]);
    r
}

impl AppConfig {
    /// The settings of a new root: ports 80, 443 and 3306, the bundled PHP,
    /// HTTPS on, Apache and MySQL enabled.
    pub fn default_for(root_dir: String) -> (r: AppConfig)
        ensures
            r@ == (AppConfigView {
                root_dir: root_dir@,
                http_port: 80,
                https_port: 443,
                mysql_port: 3306,
                php_version_hint: "PHP empacotado"@,
                https_enabled: true,
                enabled_services: seq!["apache"@, "mysql"@],
            }),
    {
        AppConfig {
            root_dir,
            http_port: 80,
            https_port: 443,
            mysql_port: 3306,
            php_version_hint: "PHP empacotado".to_owned(),
            https_enabled: true,
            enabled_services: default_enabled_services(),
        }
    }
}

/// The outcome of a command: whether it succeeded, a message, and optionally
/// a message code with named parameters for the interface to translate.
pub struct ActionResult {
    pub ok: bool,
    pub message: String,
    pub code: Option<String>,
    pub params: Vec<(String, String)>,
}

pub struct ActionResultView {
    pub ok: bool,
    pub message: Seq<char>,
    pub code: Option<Seq<char>>,
    pub params: Seq<(Seq<char>, Seq<char>)>,
}

pub open spec fn pair_views(v: Seq<(String, String)>) -> Seq<(Seq<char>, Seq<char>)> {
    v.map_values(|p: (String, String)| (p.0@, p.1@))
}

pub open spec fn param_views(v: Seq<(&str, String)>) -> Seq<(Seq<char>, Seq<char>)> {
    v.map_values(|p: (&str, String)| (p.0@, p.1@))
}

impl View for ActionResult {
    type V = ActionResultView;

    open spec fn view(&self) -> ActionResultView {
        ActionResultView {
            ok: self.ok,
            message: self.message@,
            code: match self.code {
                Some(c) => Some(c@),
                None => None,
            },
            params: pair_views(self.params@),
        }
    }
}

/// An outcome without code.
pub open spec fn plain_result(ok: bool, message: Seq<char>) -> ActionResultView {
    ActionResultView { ok, message, code: None, params: Seq::empty() }
}

/// An outcome with a code and parameters.
pub open spec fn coded_result(
    ok: bool,
    code: Seq<char>,
    message: Seq<char>,
    params: Seq<(Seq<char>, Seq<char>)>,
) -> ActionResultView {
    ActionResultView { ok, message, code: Some(code), params }
}

/// Where the key `k` stands among the pairs, searching from the end; `-1`
/// when no pair has it.
pub open spec fn key_pos(acc: Seq<(Seq<char>, Seq<char>)>, k: Seq<char>) -> int
    decreases acc.len(),
{
    if acc.len() == 0 {
        -1
    } else if acc.last().0 == k {
        acc.len() - 1
    } else {
        key_pos(acc.drop_last(), k)
    }
}

/// The pair put into a keyed list: it replaces the value of its key, or is
/// appended when the key is new.
pub open spec fn put(acc: Seq<(Seq<char>, Seq<char>)>, kv: (Seq<char>, Seq<char>)) -> Seq<(Seq<char>, Seq<char>)> {
    let j = key_pos(acc, kv.0);
    if j >= 0 {
        acc.update(j, kv)
    } else {
        acc.push(kv)
    }
}

/// The parameters as a map keeps them: each key once, where it first came,
/// with the value it was given last.
pub open spec fn keyed(ps: Seq<(Seq<char>, Seq<char>)>) -> Seq<(Seq<char>, Seq<char>)>
    decreases ps.len(),
{
    if ps.len() == 0 {
        Seq::empty()
    } else {
        put(keyed(ps.drop_last()), ps.last())
    }
}

/// No two pairs share a key.
pub open spec fn distinct_keys(ps: Seq<(Seq<char>, Seq<char>)>) -> bool {
    forall|i: int, j: int| 0 <= i < j < ps.len() ==> #[trigger] ps[i].0 != #[trigger] ps[j].0
}

proof fn lemma_key_pos_absent(acc: Seq<(Seq<char>, Seq<char>)>, k: Seq<char>)
    requires
        forall|i: int| 0 <= i < acc.len() ==> #[trigger] acc[i].0 != k,
    ensures
        key_pos(acc, k) == -1,
    decreases acc.len(),
{
    if acc.len() > 0 {
        assert(acc[acc.len() - 1].0 != k);
        assert forall|i: int| 0 <= i < acc.drop_last().len() implies #[trigger] acc.drop_last()[i].0 != k by {
            assert(acc.drop_last()[i] == acc[i]);
        }
        lemma_key_pos_absent(acc.drop_last(), k);
    }
}

/// Pairs with distinct keys are kept as they are.
pub proof fn lemma_keyed_distinct(ps: Seq<(Seq<char>, Seq<char>)>)
    requires
        distinct_keys(ps),
    ensures
        keyed(ps) == ps,
    decreases ps.len(),
{
    if ps.len() > 0 {
        let rest = ps.drop_last();
        assert(distinct_keys(rest)) by {
            assert forall|i: int, j: int| 0 <= i < j < rest.len() implies #[trigger] rest[i].0 != #[trigger] rest[j].0 by {
                assert(rest[i] == ps[i] && rest[j] == ps[j]);
            }
        }
        lemma_keyed_distinct(rest);
        assert forall|i: int| 0 <= i < rest.len() implies #[trigger] rest[i].0 != ps.last().0 by {
            assert(rest[i] == ps[i]);
            assert(ps[i].0 != ps[ps.len() - 1].0);
        }
        lemma_key_pos_absent(rest, ps.last().0);
        assert(rest.push(ps.last()) =~= ps);
    }
}

/// Two pairs with different keys have distinct keys.
pub proof fn lemma_distinct_keys2(a: (Seq<char>, Seq<char>), b: (Seq<char>, Seq<char>))
    requires
        a.0 != b.0,
    ensures
        distinct_keys(seq![a, b]),
{
}

/// Three pairs with pairwise different keys have distinct keys.
pub proof fn lemma_distinct_keys3(a: (Seq<char>, Seq<char>), b: (Seq<char>, Seq<char>), c: (Seq<char>, Seq<char>))
    requires
        a.0 != b.0,
        a.0 != c.0,
        b.0 != c.0,
    ensures
        distinct_keys(seq![a, b, c]),
{
}

/// Puts the pair into the keyed list (see `put`).
fn put_param(out: &mut Vec<(String, String)>, k: String, v: String)
    ensures
        pair_views(final(out)@) == put(pair_views(old(out)@), (k@, v@)),
{
    let ghost pv = pair_views(out@);
    let kc = chars_of(k.as_str());
    let mut j: usize = out.len();
    assert(pv.take(j as int) =~= pv);
    while j > 0
        invariant
            j <= out.len(),
            pv == pair_views(out@),
            pv == pair_views(old(out)@),
            pv.len() == out.len(),
            kc@ == k@,
            key_pos(pv, k@) == key_pos(pv.take(j as int), k@),
        decreases j,
    {
        assert(pv.take(j as int).last() == pv[j - 1]);
        assert(pv[j - 1].0 == out@[j - 1].0@);
        if crate::text::text_eq(&chars_of(out[j - 1].0.as_str()), &kc) {
            assert(key_pos(pv, k@) == j - 1);
            out.set(j - 1, (k, v));
            assert(pair_views(out@) =~= pv.update(j - 1, (k@, v@)));
            return;
        }
        assert(pv.take(j as int).drop_last() =~= pv.take(j - 1));
        j -= 1;
    }
    assert(pv.take(0) =~= Seq::<(Seq<char>, Seq<char>)>::empty());
    out.push((k, v));
    assert(pair_views(out@) =~= pv.push((k@, v@)));
}

impl ActionResult {
    /// An outcome with a message only.
    pub fn message(ok: bool, message: String) -> (r: ActionResult)
        ensures
            r@ == plain_result(ok, message@),
    {
        let params: Vec<(String, String)> = Vec::new();
        let r = ActionResult { ok, message, code: None, params };
        assert(pair_views(r.params@) =~= Seq::<(Seq<char>, Seq<char>)>::empty());
        r
    }

    /// An outcome with a message code and its parameters, kept as a map
    /// keeps them: a later pair with a key already given replaces its value.
    pub fn coded(ok: bool, code: &str, message: String, params: Vec<(&str, String)>) -> (r: ActionResult)
        ensures
            r@ == coded_result(ok, code@, message@, keyed(param_views(params@))),
            distinct_keys(param_views(params@)) ==> r@ == coded_result(ok, code@, message@, param_views(params@)),
    {
        let mut out: Vec<(String, String)> = Vec::new();
        let n = params.len();
        let mut rest = params;
        let ghost all = params@;
        let mut i: usize = 0;
        while rest.len() > 0
            invariant
                i + rest.len() == all.len(),
                all.len() == n,
                rest@ == all.skip(i as int),
                pair_views(out@) == keyed(param_views(all.take(i as int))),
            decreases rest.len(),
        {
            let (k, v) = rest.remove(0);
            assert(all.skip(i as int)[0] == (k, v));
            put_param(&mut out, k.to_owned(), v);
            assert(param_views(all.take(i + 1)) =~= param_views(all.take(i as int)).push((k@, v@)));
            assert(param_views(all.take(i + 1)).drop_last() =~= param_views(all.take(i as int)));
            assert(all.skip(i as int).drop_first() =~= all.skip(i + 1));
            i += 1;
        }
        assert(all.take(i as int) =~= all);
        proof {
            if distinct_keys(param_views(all)) {
                lemma_keyed_distinct(param_views(all));
            }
        }
        ActionResult { ok, message, code: Some(code.to_owned()), params: out }
    }
}

// ---------------------------------------------------------------------------
// Enabling services
// ---------------------------------------------------------------------------

/// `list` with `s` appended, unless it already holds `s`.
pub open spec fn with_service(list: Seq<Seq<char>>, s: Seq<char>) -> Seq<Seq<char>> {
    if list.contains(s) {
        list
    } else {
        list.push(s)
    }
}

/// Where `s` first occurs in `list` (meaningful when it occurs).
pub open spec fn first_position(list: Seq<Seq<char>>, s: Seq<char>) -> int {
    choose|i: int| 0 <= i < list.len() && list[i] == s && forall|k: int| 0 <= k < i ==> list[k] != s
}

/// `list` without the first copy of `s`.
pub open spec fn without_service(list: Seq<Seq<char>>, s: Seq<char>) -> Seq<Seq<char>> {
    if list.contains(s) {
        list.remove(first_position(list, s))
    } else {
        list
    }
}

/// An index at which `s` occurs, with no earlier occurrence, is the first position.
pub proof fn lemma_first_position(list: Seq<Seq<char>>, s: Seq<char>, i: int)
    requires
        0 <= i < list.len(),
        list[i] == s,
        forall|k: int| 0 <= k < i ==> list[k] != s,
    ensures
        first_position(list, s) == i,
        list.contains(s),
{
    let j = first_position(list, s);
    assert(0 <= j < list.len() && list[j] == s && forall|k: int| 0 <= k < j ==> list[k] != s);
    if j < i {
        assert(list[j] != s);
    }
    if j > i {
        assert(list[i] != s);
    }
}

fn index_of_service(list: &Vec<String>, s: &String) -> (r: Option<usize>)
    ensures
        match r {
            Some(i) => i < list.len() && string_views(list@).contains(s@) && first_position(
                string_views(list@),
                s@,
            ) == i,
            None => !string_views(list@).contains(s@),
        },
{
    let ghost l = string_views(list@);
    let mut i: usize = 0;
    while i < list.len()
        invariant
            i <= list.len(),
            l == string_views(list@),
            forall|k: int| 0 <= k < i ==> l[k] != s@,
        decreases list.len() - i,
    {
        if list[i] == *s {
            proof {
                lemma_first_position(l, s@, i as int);
            }
            return Some(i);
        }
        i += 1;
    }
    None
}

/// Marks a service as enabled. The first component of the result tells
/// whether the settings changed (and must be written).
pub fn enable_service(cfg: &mut AppConfig, service: &str) -> (r: (bool, ActionResult))
    ensures
        final(cfg)@ == (AppConfigView {
            enabled_services: with_service(old(cfg)@.enabled_services, service@),
            ..old(cfg)@
        }),
        r.0 == !old(cfg)@.enabled_services.contains(service@),
        r.1@ == plain_result(true, service@ + " habilitado"@),
{
    let s = service.to_owned();
    let changed = match index_of_service(&cfg.enabled_services, &s) {
        Some(_) => false,
        None => {
            let ghost before = string_views(cfg.enabled_services@);
            cfg.enabled_services.push(s);
            assert(string_views(cfg.enabled_services@) =~= before.push(service@));
            true
        },
    };
    let mut m = chars_of(service);
    push_str(&mut m, " habilitado");
    (changed, ActionResult::message(true, string_of(&m)))
}

/// Marks a service as disabled. The first component of the result tells
/// whether the settings changed (and must be written).
pub fn disable_service(cfg: &mut AppConfig, service: &str) -> (r: (bool, ActionResult))
    ensures
        final(cfg)@ == (AppConfigView {
            enabled_services: without_service(old(cfg)@.enabled_services, service@),
            ..old(cfg)@
        }),
        r.0 == old(cfg)@.enabled_services.contains(service@),
        r.1@ == plain_result(true, service@ + " desabilitado"@),
{
    let s = service.to_owned();
    let changed = match index_of_service(&cfg.enabled_services, &s) {
        Some(i) => {
            let ghost before = string_views(cfg.enabled_services@);
            let _ = cfg.enabled_services.remove(i);
            assert(string_views(cfg.enabled_services@) =~= before.remove(i as int));
            true
        },
        None => false,
    };
    let mut m = chars_of(service);
    push_str(&mut m, " desabilitado");
    (changed, ActionResult::message(true, string_of(&m)))
}

/// Enabling a service leaves it enabled, and enabling it again changes nothing.
pub proof fn law_enable_service_idempotent(list: Seq<Seq<char>>, s: Seq<char>)
    ensures
        with_service(list, s).contains(s),
        with_service(with_service(list, s), s) == with_service(list, s),
{
    if !list.contains(s) {
        assert(list.push(s)[list.len() as int] == s);
    }
}

/// Disabling a service that was just enabled, and was not enabled before,
/// gives the list back.
pub proof fn law_disable_undoes_enable(list: Seq<Seq<char>>, s: Seq<char>)
    requires
        !list.contains(s),
    ensures
        without_service(with_service(list, s), s) == list,
        !without_service(with_service(list, s), s).contains(s),
{
    let l2 = list.push(s);
    assert forall|k: int| 0 <= k < list.len() implies l2[k] != s by {
        assert(l2[k] == list[k]);
    }
    lemma_first_position(l2, s, list.len() as int);
    assert(l2.remove(list.len() as int) =~= list);
}

// ---------------------------------------------------------------------------
// Ports and HTTPS
// ---------------------------------------------------------------------------

/// A port setting is valid unless it is 0.
pub fn validate_port(port: u16, label: &str) -> (r: Result<(), String>)
    ensures
        port != 0 ==> r is Ok,
        port == 0 ==> (r matches Err(e) && e@ == "Porta "@ + label@ + " invalida."@),
{
    if port == 0 {
        let mut m = chars_of("Porta ");
        push_str(&mut m, label);
        push_str(&mut m, " invalida.");
        Err(string_of(&m))
    } else {
        Ok(())
    }
}

/// New ports for HTTP, HTTPS and MySQL.
pub struct PortUpdate {
    pub http_port: u16,
    pub https_port: u16,
    pub mysql_port: u16,
}

/// Why a port update is refused, if it is: the first port that is 0, then
/// two services sharing a port.
pub open spec fn port_update_error(p: PortUpdate) -> Option<Seq<char>> {
    if p.http_port == 0 {
        Some("Porta HTTP invalida."@)
    } else if p.https_port == 0 {
        Some("Porta HTTPS invalida."@)
    } else if p.mysql_port == 0 {
        Some("Porta MySQL invalida."@)
    } else if p.http_port == p.https_port || p.http_port == p.mysql_port || p.https_port
        == p.mysql_port {
        Some("As portas dos servicos precisam ser diferentes."@)
    } else {
        None
    }
}

/// Sets the three service ports. Each must be non-zero and the three must
/// differ; otherwise the settings are left as they were and the reason is returned.
pub fn update_ports(cfg: &mut AppConfig, ports: PortUpdate) -> (r: Result<ActionResult, String>)
    ensures
        match port_update_error(ports) {
            Some(e) => (r matches Err(m) && m@ == e) && final(cfg)@ == old(cfg)@,
            None => (r matches Ok(a) && final(cfg)@ == (AppConfigView {
                http_port: ports.http_port,
                https_port: ports.https_port,
                mysql_port: ports.mysql_port,
                ..old(cfg)@
            }) && a@ == coded_result(
                true,
                "ports.updated"@,
                "Portas atualizadas. Reinicie os servicos para aplicar."@,
                seq![
                    ("http"@, decimal(ports.http_port as nat)),
                    ("https"@, decimal(ports.https_port as nat)),
                    ("mysql"@, decimal(ports.mysql_port as nat)),
                ],
            )),
        },
{
    proof {
        reveal_strlit("Porta ");
        reveal_strlit("HTTP");
        reveal_strlit("HTTPS");
        reveal_strlit("MySQL");
        reveal_strlit(" invalida.");
        reveal_strlit("Porta HTTP invalida.");
        reveal_strlit("Porta HTTPS invalida.");
        reveal_strlit("Porta MySQL invalida.");
    }
    validate_port(ports.http_port, "HTTP")?;
    validate_port(ports.https_port, "HTTPS")?;
    validate_port(ports.mysql_port, "MySQL")?;
    if ports.http_port == ports.https_port || ports.http_port == ports.mysql_port
        || ports.https_port == ports.mysql_port {
        return Err("As portas dos servicos precisam ser diferentes.".to_owned());
    }
    cfg.http_port = ports.http_port;
    cfg.https_port = ports.https_port;
    cfg.mysql_port = ports.mysql_port;
    let mut h: Vec<char> = Vec::new();
    push_decimal(&mut h, ports.http_port as u64);
    let mut hs: Vec<char> = Vec::new();
    push_decimal(&mut hs, ports.https_port as u64);
    let mut my: Vec<char> = Vec::new();
    push_decimal(&mut my, ports.mysql_port as u64);
    let mut params: Vec<(&str, String)> = Vec::new();
    params.push(("http", string_of(&h)));
    params.push(("https", string_of(&hs)));
    params.push(("mysql", string_of(&my)));
    let r = ActionResult::coded(
        true,
        "ports.updated",
        "Portas atualizadas. Reinicie os servicos para aplicar.".to_owned(),
        params,
    );
    assert(param_views(params@) =~= seq![
        ("http"@, decimal(ports.http_port as nat)),
        ("https"@, decimal(ports.https_port as nat)),
        ("mysql"@, decimal(ports.mysql_port as nat)),
    ]);
    proof {
        reveal_strlit("http");
        reveal_strlit("https");
        reveal_strlit("mysql");
        assert("http"@.len() != "https"@.len() && "http"@.len() != "mysql"@.len());
        assert("https"@[0] != "mysql"@[0]);
        lemma_distinct_keys3(
            ("http"@, decimal(ports.http_port as nat)),
            ("https"@, decimal(ports.https_port as nat)),
            ("mysql"@, decimal(ports.mysql_port as nat)),
        );
    }
    Ok(r)
}

/// After a successful port update the three ports are non-zero and distinct.
pub proof fn law_updated_ports_are_distinct(p: PortUpdate)
    requires
        port_update_error(p) is None,
    ensures
        p.http_port != 0 && p.https_port != 0 && p.mysql_port != 0,
        p.http_port != p.https_port && p.http_port != p.mysql_port && p.https_port != p.mysql_port,
{
}

/// Switches local HTTPS on or off.
pub fn update_https(cfg: &mut AppConfig, enabled: bool) -> (r: ActionResult)
    ensures
        final(cfg)@ == (AppConfigView { https_enabled: enabled, ..old(cfg)@ }),
        r@ == if enabled {
            coded_result(
                true,
                "https.enabled"@,
                "HTTPS local habilitado. O mkcert instalou a CA local e os certificados foram preparados. Reinicie o Apache."@,
                Seq::empty(),
            )
        } else {
            coded_result(
                true,
                "https.disabled"@,
                "HTTPS local desabilitado. Reinicie o Apache para aplicar."@,
                Seq::empty(),
            )
        },
{
    cfg.https_enabled = enabled;
    let params: Vec<(&str, String)> = Vec::new();
    assert(param_views(params@) =~= Seq::<(Seq<char>, Seq<char>)>::empty());
    if enabled {
        ActionResult::coded(
            true,
            "https.enabled",
            "HTTPS local habilitado. O mkcert instalou a CA local e os certificados foram preparados. Reinicie o Apache.".to_owned(),
            params,
        )
    } else {
        ActionResult::coded(
            true,
            "https.disabled",
            "HTTPS local desabilitado. Reinicie o Apache para aplicar.".to_owned(),
            params,
        )
    }
}

} // verus!
