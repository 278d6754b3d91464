//! The Apache configuration Ipeenv writes: the modules it loads, the main
//! `httpd.conf`, and one virtual host file per project, with its document
//! root chosen by the project's framework.

use vstd::prelude::*;
use crate::text::{chars_of, decimal, join, join_vec, push_all, push_decimal, push_str, string_of, text_eq, texts};
use crate::paths::{display, display_path, join_path, path_join};
use crate::config::AppConfig;
use crate::naming::{cgi_port, php_cgi_port};

verus! {

// ---------------------------------------------------------------------------
// Modules
// ---------------------------------------------------------------------------

/// The modules Ipeenv loads, with their files, in order.
pub open spec fn module_table() -> Seq<(Seq<char>, Seq<char>)> {
    seq![
        ("access_compat_module"@, "mod_access_compat.so"@),
        ("actions_module"@, "mod_actions.so"@),
        ("alias_module"@, "mod_alias.so"@),
        ("allowmethods_module"@, "mod_allowmethods.so"@),
        ("authz_core_module"@, "mod_authz_core.so"@),
        ("authz_host_module"@, "mod_authz_host.so"@),
        ("dir_module"@, "mod_dir.so"@),
        ("env_module"@, "mod_env.so"@),
        ("headers_module"@, "mod_headers.so"@),
        ("log_config_module"@, "mod_log_config.so"@),
        ("mime_module"@, "mod_mime.so"@),
        ("rewrite_module"@, "mod_rewrite.so"@),
        ("setenvif_module"@, "mod_setenvif.so"@),
        ("socache_shmcb_module"@, "mod_socache_shmcb.so"@),
        ("ssl_module"@, "mod_ssl.so"@),
        ("proxy_module"@, "mod_proxy.so"@),
        ("proxy_fcgi_module"@, "mod_proxy_fcgi.so"@),
    ]
}

fn module_pairs() -> (r: Vec<(&'static str, &'static str)>)
    ensures
        r@.map_values(|p: (&'static str, &'static str)| (p.0@, p.1@)) == module_table(),
{
    let mut r: Vec<(&'static str, &'static str)> = Vec::new();
    r.push(("access_compat_module", "mod_access_compat.so"));
    r.push(("actions_module", "mod_actions.so"));
    r.push(("alias_module", "mod_alias.so"));
    r.push(("allowmethods_module", "mod_allowmethods.so"));
    r.push(("authz_core_module", "mod_authz_core.so"));
    r.push(("authz_host_module", "mod_authz_host.so"));
    r.push(("dir_module", "mod_dir.so"));
    r.push(("env_module", "mod_env.so"));
    r.push(("headers_module", "mod_headers.so"));
    r.push(("log_config_module", "mod_log_config.so"));
    r.push(("mime_module", "mod_mime.so"));
    r.push(("rewrite_module", "mod_rewrite.so"));
    r.push(("setenvif_module", "mod_setenvif.so"));
    r.push(("socache_shmcb_module", "mod_socache_shmcb.so"));
    r.push(("ssl_module", "mod_ssl.so"));
    r.push(("proxy_module", "mod_proxy.so"));
    r.push(("proxy_fcgi_module", "mod_proxy_fcgi.so"));
    assert(r@.map_values(|p: (&'static str, &'static str)| (p.0@, p.1@)) =~= module_table());
    r
}

/// `modules/<file>` inside an Apache runtime.
pub open spec fn module_file(apache_root: Seq<char>, file: Seq<char>) -> Seq<char> {
    path_join(path_join(apache_root, "modules"@), file)
}

/// The files of the modules inside an Apache runtime, in the order of the
/// module table (their presence is what `apache_load_modules` takes).
pub fn apache_module_paths(apache_root: &str) -> (r: Vec<String>)
    ensures
        r@.len() == module_table().len(),
        forall|i: int| 0 <= i < r@.len() ==> r@[i]@ == module_file(apache_root@, #[trigger] module_table()[i].1),
{
    let table = module_pairs();
    let ghost t = module_table();
    let m = join_path(apache_root, "modules");
    let mut r: Vec<String> = Vec::new();
    let mut i: usize = 0;
    while i < table.len()
        invariant
            i <= table.len(),
            table@.map_values(|p: (&'static str, &'static str)| (p.0@, p.1@)) == t,
            t == module_table(),
            m@ == path_join(apache_root@, "modules"@),
            r@.len() == i,
            forall|k: int| 0 <= k < i ==> r@[k]@ == module_file(apache_root@, t[k].1),
        decreases table.len() - i,
    {
        assert(t[i as int].1 == table@[i as int].1@);
        r.push(join_path(m.as_str(), table[i].1));
        i += 1;
    }
    r
}

/// The `LoadModule` lines of the modules whose file is present, in order.
pub open spec fn module_lines(apache_root: Seq<char>, table: Seq<(Seq<char>, Seq<char>)>, present: Seq<bool>) -> Seq<Seq<char>>
    decreases table.len(),
{
    if table.len() == 0 {
        Seq::empty()
    } else {
        let before = module_lines(apache_root, table.drop_last(), present);
        let k = table.len() - 1;
        if k < present.len() && present[k] {
            before.push(
                "LoadModule "@ + table.last().0 + " \""@ + display(module_file(apache_root, table.last().1)) + "\""@,
            )
        } else {
            before
        }
    }
}

/// The `LoadModule` lines of an Apache runtime, one per module whose file
/// exists (`present[i]` for the `i`-th of `apache_module_paths`), joined by
/// newlines.
pub fn apache_load_modules(apache_root: &str, present: &Vec<bool>) -> (r: String)
    ensures
        r@ == join(module_lines(apache_root@, module_table(), present@), "\n"@),
{
    let table = module_pairs();
    let ghost t = module_table();
    let m = join_path(apache_root, "modules");
    let mut lines: Vec<Vec<char>> = Vec::new();
    let mut i: usize = 0;
    while i < table.len()
        invariant
            i <= table.len(),
            table@.map_values(|p: (&'static str, &'static str)| (p.0@, p.1@)) == t,
            t == module_table(),
            m@ == path_join(apache_root@, "modules"@),
            texts(lines@) == module_lines(apache_root@, t.take(i as int), present@),
        decreases table.len() - i,
    {
        proof {
            assert(t.take(i + 1).drop_last() =~= t.take(i as int));
            assert(t.take(i + 1).last() == (table@[i as int].0@, table@[i as int].1@));
        }
        if i < present.len() && present[i] {
            let p = join_path(m.as_str(), table[i].1);
            let shown = display_path(p.as_str());
            let mut l = chars_of("LoadModule ");
            push_str(&mut l, table[i].0);
            push_str(&mut l, " \"");
            push_str(&mut l, shown.as_str());
            push_str(&mut l, "\"");
            let ghost before = texts(lines@);
            lines.push(l);
            assert(texts(lines@) =~= before.push(lines@.last()@));
        }
        i += 1;
    }
    assert(t.take(17) =~= t);
    let j = join_vec(&lines, "\n");
    string_of(&j)
}

// ---------------------------------------------------------------------------
// httpd.conf
// ---------------------------------------------------------------------------

/// The main configuration: the runtime as server root, the loaded modules,
/// the HTTP port (and HTTPS port when enabled), `www` as document root, the
/// MIME types when the runtime has them, the logs, and the project hosts.
pub open spec fn httpd_conf(
    root: Seq<char>,
    http_port: u16,
    https_enabled: bool,
    https_port: u16,
    apache_root: Seq<char>,
    modules: Seq<char>,
    mime_exists: bool,
) -> Seq<char> {
    let https_listen = if https_enabled {
        "Listen "@ + decimal(https_port as nat) + "\n"@
    } else {
        Seq::empty()
    };
    let types = if mime_exists {
        "TypesConfig \""@ + display(path_join(path_join(apache_root, "conf"@), "mime.types"@)) + "\"\n"@
    } else {
        Seq::empty()
    };
    let logs = path_join(path_join(root, "logs"@), "apache"@);
    let vhosts = path_join(path_join(path_join(root, "etc"@), "apache"@), "vhosts"@);
    "ServerRoot \""@ + display(apache_root) + "\"\n"@ + modules + "\nListen "@ + decimal(http_port as nat) + "\n"@
        + https_listen + "ServerName localhost\nDocumentRoot \""@ + display(path_join(root, "www"@))
        + "\"\nDirectoryIndex index.php index.html\n"@ + types + "\nErrorLog \""@ + display(path_join(logs, "error.log"@))
        + "\"\nLogFormat \"%h %l %u %t \\\"%r\\\" %>s %b\" common\nCustomLog \""@ + display(path_join(logs, "access.log"@))
        + "\" common\nIncludeOptional \""@ + display(path_join(vhosts, "*.conf"@)) + "\"\n"@
}

/// The main Apache configuration of the root (see `httpd_conf`); `modules`
/// are the `LoadModule` lines, `mime_exists` tells whether the runtime has
/// `conf/mime.types`.
pub fn apache_httpd_conf(root: &str, cfg: &AppConfig, apache_root: &str, modules: &str, mime_exists: bool) -> (r: String)
    ensures
        r@ == httpd_conf(root@, cfg.http_port, cfg.https_enabled, cfg.https_port, apache_root@, modules@, mime_exists),
{
    let mut m = chars_of("ServerRoot \"");
    let ar = display_path(apache_root);
    push_str(&mut m, ar.as_str());
    push_str(&mut m, "\"\n");
    push_str(&mut m, modules);
    push_str(&mut m, "\nListen ");
    push_decimal(&mut m, cfg.http_port as u64);
    push_str(&mut m, "\n");
    if cfg.https_enabled {
        push_str(&mut m, "Listen ");
        push_decimal(&mut m, cfg.https_port as u64);
        push_str(&mut m, "\n");
    }
    push_str(&mut m, "ServerName localhost\nDocumentRoot \"");
    let www = join_path(root, "www");
    let www_shown = display_path(www.as_str());
    push_str(&mut m, www_shown.as_str());
    push_str(&mut m, "\"\nDirectoryIndex index.php index.html\n");
    if mime_exists {
        let c = join_path(apache_root, "conf");
        let mime = join_path(c.as_str(), "mime.types");
        let mime_shown = display_path(mime.as_str());
        push_str(&mut m, "TypesConfig \"");
        push_str(&mut m, mime_shown.as_str());
        push_str(&mut m, "\"\n");
    }
    let l1 = join_path(root, "logs");
    let logs = join_path(l1.as_str(), "apache");
    let err = join_path(logs.as_str(), "error.log");
    let acc = join_path(logs.as_str(), "access.log");
    let e1 = join_path(root, "etc");
    let e2 = join_path(e1.as_str(), "apache");
    let vh = join_path(e2.as_str(), "vhosts");
    let all = join_path(vh.as_str(), "*.conf");
    push_str(&mut m, "\nErrorLog \"");
    let err_shown = display_path(err.as_str());
    push_str(&mut m, err_shown.as_str());
    push_str(&mut m, "\"\nLogFormat \"%h %l %u %t \\\"%r\\\" %>s %b\" common\nCustomLog \"");
    let acc_shown = display_path(acc.as_str());
    push_str(&mut m, acc_shown.as_str());
    push_str(&mut m, "\" common\nIncludeOptional \"");
    let all_shown = display_path(all.as_str());
    push_str(&mut m, all_shown.as_str());
    push_str(&mut m, "\"\n");
    let r = string_of(&m);
    proof {
        let https_listen = if cfg.https_enabled {
            "Listen "@ + decimal(cfg.https_port as nat) + "\n"@
        } else {
            Seq::empty()
        };
        let types = if mime_exists {
            "TypesConfig \""@ + display(path_join(path_join(apache_root@, "conf"@), "mime.types"@)) + "\"\n"@
        } else {
            Seq::empty()
        };
        assert(r@ =~= httpd_conf(root@, cfg.http_port, cfg.https_enabled, cfg.https_port, apache_root@, modules@, mime_exists));
    }
    r
}

// ---------------------------------------------------------------------------
// Frameworks and virtual hosts
// ---------------------------------------------------------------------------

/// The document root of a project: `public` for Laravel, `webroot` for
/// CakePHP, the project folder otherwise.
pub open spec fn docroot(project_path: Seq<char>, framework: Seq<char>) -> Seq<char> {
    if framework == "Laravel"@ {
        project_path + "/public"@
    } else if framework == "CakePHP"@ {
        project_path + "/webroot"@
    } else {
        project_path
    }
}

/// The folder Apache serves for a project of the given framework.
pub fn framework_docroot(project_path: &str, framework: &str) -> (r: String)
    ensures
        r@ == docroot(project_path@, framework@),
{
    let f = chars_of(framework);
    if text_eq(&f, &chars_of("Laravel")) {
        let mut m = chars_of(project_path);
        push_str(&mut m, "/public");
        string_of(&m)
    } else if text_eq(&f, &chars_of("CakePHP")) {
        let mut m = chars_of(project_path);
        push_str(&mut m, "/webroot");
        string_of(&m)
    } else {
        project_path.to_owned()
    }
}

/// What was found in a project folder.
pub struct FrameworkProbe {
    /// `artisan`
    pub artisan: bool,
    /// `wp-config.php`
    pub wp_config: bool,
    /// `wp-content`
    pub wp_content: bool,
    /// `webroot/index.php`
    pub webroot_index: bool,
    /// `config/app.php`
    pub config_app: bool,
    /// `webroot`
    pub webroot: bool,
    /// `composer.json`
    pub composer: bool,
}

/// The framework of a project, told by its files: Laravel (`artisan`),
/// WordPress (`wp-config.php` or `wp-content`), CakePHP (`webroot/index.php`,
/// or `config/app.php` with `webroot`), plain PHP (`composer.json`), or none.
pub open spec fn framework_of(p: FrameworkProbe) -> Seq<char> {
    if p.artisan {
        "Laravel"@
    } else if p.wp_config || p.wp_content {
        "WordPress"@
    } else if p.webroot_index || (p.config_app && p.webroot) {
        "CakePHP"@
    } else if p.composer {
        "PHP"@
    } else {
        "Projeto"@
    }
}

/// The framework of a project from what its folder holds.
pub fn detect_framework(probe: &FrameworkProbe) -> (r: String)
    ensures
        r@ == framework_of(*probe),
{
    if probe.artisan {
        "Laravel".to_owned()
    } else if probe.wp_config || probe.wp_content {
        "WordPress".to_owned()
    } else if probe.webroot_index || (probe.config_app && probe.webroot) {
        "CakePHP".to_owned()
    } else if probe.composer {
        "PHP".to_owned()
    } else {
        "Projeto".to_owned()
    }
}

/// The block that keeps the project folder closed when Apache serves a
/// subfolder of it.
pub open spec fn parent_guard(project_dir: Seq<char>, root_doc: Seq<char>) -> Seq<char> {
    if root_doc != project_dir {
        "  <Directory \""@ + project_dir
            + "\">\n    AllowOverride None\n    Options -Indexes +FollowSymLinks\n    Require all granted\n  </Directory>\n"@
    } else {
        Seq::empty()
    }
}

/// The lines that hand PHP files to the version's `php-cgi`.
pub open spec fn php_handler(version: Option<Seq<char>>, root_doc: Seq<char>) -> Seq<char> {
    match version {
        Some(v) => "  ProxyFCGIBackendType GENERIC\n  <FilesMatch \"\\\\.php$\">\n    SetHandler \"proxy:fcgi://127.0.0.1:"@
            + decimal(cgi_port(v) as nat) + "/\"\n  </FilesMatch>\n  ProxyFCGISetEnvIf \"true\" DOCUMENT_ROOT \""@ + root_doc
            + "\"\n  ProxyFCGISetEnvIf \"true\" SCRIPT_FILENAME \"%{reqenv:DOCUMENT_ROOT}%{reqenv:SCRIPT_NAME}\"\n  ProxyFCGISetEnvIf \"true\" PATH_TRANSLATED \"%{reqenv:DOCUMENT_ROOT}%{reqenv:SCRIPT_NAME}\"\n"@,
        None => Seq::empty(),
    }
}

/// The body shared by the HTTP and HTTPS hosts of a project.
pub open spec fn host_body(domain: Seq<char>, root_doc: Seq<char>, guard: Seq<char>) -> Seq<char> {
    "  ServerName "@ + domain + "\n  DocumentRoot \""@ + root_doc + "\"\n"@ + guard + "  <Directory \""@ + root_doc
        + "\">\n    AllowOverride All\n    Options -Indexes +FollowSymLinks\n    Require all granted\n  </Directory>\n"@
}

/// `etc/ssl/certs/<domain><suffix>`.
pub open spec fn cert_file(root: Seq<char>, domain: Seq<char>, suffix: Seq<char>) -> Seq<char> {
    path_join(path_join(path_join(path_join(root, "etc"@), "ssl"@), "certs"@), domain + suffix)
}

/// The virtual host file of a project: a host on the HTTP port, and when
/// HTTPS is on a second one on the HTTPS port with the project's certificate.
pub open spec fn vhost_conf(
    root: Seq<char>,
    http_port: u16,
    https_enabled: bool,
    https_port: u16,
    domain: Seq<char>,
    project_path: Seq<char>,
    framework: Seq<char>,
    php_version: Option<Seq<char>>,
) -> Seq<char> {
    let doc = docroot(project_path, framework);
    let guard = parent_guard(display(project_path), doc);
    let handler = php_handler(php_version, doc);
    let http = "<VirtualHost *:"@ + decimal(http_port as nat) + ">\n"@ + host_body(domain, doc, guard) + handler
        + "</VirtualHost>\n"@;
    if https_enabled {
        http + "\n<VirtualHost *:"@ + decimal(https_port as nat) + ">\n"@ + host_body(domain, doc, guard) + handler
            + "  SSLEngine on\n  SSLCertificateFile \""@ + display(cert_file(root, domain, ".crt"@))
            + "\"\n  SSLCertificateKeyFile \""@ + display(cert_file(root, domain, ".key"@)) + "\"\n</VirtualHost>\n"@
    } else {
        http
    }
}

/// The virtual host text with its parts given: the port numbers `p1` and
/// `p2`, the served folder, the guard, the PHP handler and the certificate
/// paths.
pub open spec fn vhost_text(
    p1: Seq<char>,
    https_enabled: bool,
    p2: Seq<char>,
    domain: Seq<char>,
    doc: Seq<char>,
    guard: Seq<char>,
    handler: Seq<char>,
    crt: Seq<char>,
    key: Seq<char>,
) -> Seq<char> {
    let http = "<VirtualHost *:"@ + p1 + ">\n"@ + host_body(domain, doc, guard) + handler + "</VirtualHost>\n"@;
    if https_enabled {
        http + "\n<VirtualHost *:"@ + p2 + ">\n"@ + host_body(domain, doc, guard) + handler
            + "  SSLEngine on\n  SSLCertificateFile \""@ + crt + "\"\n  SSLCertificateKeyFile \""@ + key
            + "\"\n</VirtualHost>\n"@
    } else {
        http
    }
}

/// The opening of a virtual host: its port, name and the folder it serves.
pub open spec fn host_head(port: Seq<char>, domain: Seq<char>, root_doc: Seq<char>) -> Seq<char> {
    "<VirtualHost *:"@ + port + ">\n  ServerName "@ + domain + "\n  DocumentRoot \""@ + root_doc + "\"\n"@
}

/// The rest of a host's body after its opening.
pub open spec fn host_tail(doc: Seq<char>, guard: Seq<char>) -> Seq<char> {
    guard + "  <Directory \""@ + doc
        + "\">\n    AllowOverride All\n    Options -Indexes +FollowSymLinks\n    Require all granted\n  </Directory>\n"@
}

proof fn lemma_open_host(lead: Seq<char>, p: Seq<char>, domain: Seq<char>, doc: Seq<char>, guard: Seq<char>)
    ensures
        lead + "<VirtualHost *:"@ + p + ">\n"@ + host_body(domain, doc, guard) == lead + host_head(p, domain, doc)
            + host_tail(doc, guard),
{
    assert(">\n"@ + "  ServerName "@ =~= ">\n  ServerName "@) by {
        reveal_strlit(">\n");
        reveal_strlit("  ServerName ");
        reveal_strlit(">\n  ServerName ");
    }
    let body_rest = "\n  DocumentRoot \""@ + doc + "\"\n"@ + host_tail(doc, guard);
    assert(host_body(domain, doc, guard) =~= "  ServerName "@ + domain + body_rest);
    assert(lead + "<VirtualHost *:"@ + p + ">\n"@ + host_body(domain, doc, guard) =~= lead + "<VirtualHost *:"@ + p + (
    ">\n"@ + "  ServerName "@) + domain + body_rest);
}

proof fn lemma_vhost_text_heads(
    p1: Seq<char>,
    https_enabled: bool,
    p2: Seq<char>,
    domain: Seq<char>,
    doc: Seq<char>,
    guard: Seq<char>,
    handler: Seq<char>,
    crt: Seq<char>,
    key: Seq<char>,
)
    ensures
        crate::text::starts_with(vhost_text(p1, https_enabled, p2, domain, doc, guard, handler, crt, key), host_head(p1, domain, doc)),
        https_enabled ==> crate::text::contains(
            vhost_text(p1, https_enabled, p2, domain, doc, guard, handler, crt, key),
            "\n"@ + host_head(p2, domain, doc),
        ),
{
    let text = vhost_text(p1, https_enabled, p2, domain, doc, guard, handler, crt, key);
    let e = Seq::<char>::empty();
    lemma_open_host(e, p1, domain, doc, guard);
    let head1 = host_head(p1, domain, doc);
    let http = "<VirtualHost *:"@ + p1 + ">\n"@ + host_body(domain, doc, guard) + handler + "</VirtualHost>\n"@;
    assert(e + "<VirtualHost *:"@ =~= "<VirtualHost *:"@);
    assert(e + head1 =~= head1);
    let rest1 = host_tail(doc, guard) + handler + "</VirtualHost>\n"@;
    assert(http =~= head1 + rest1);
    if https_enabled {
        let nl = "\n"@;
        assert(nl + "<VirtualHost *:"@ =~= "\n<VirtualHost *:"@) by {
            reveal_strlit("\n");
            reveal_strlit("<VirtualHost *:");
            reveal_strlit("\n<VirtualHost *:");
        }
        lemma_open_host(http + nl, p2, domain, doc, guard);
        let head2 = nl + host_head(p2, domain, doc);
        let rest = host_tail(doc, guard) + handler + "  SSLEngine on\n  SSLCertificateFile \""@ + crt
            + "\"\n  SSLCertificateKeyFile \""@ + key + "\"\n</VirtualHost>\n"@;
        let body = host_body(domain, doc, guard);
        let lhs = http + "\n<VirtualHost *:"@ + p2 + ">\n"@ + body;
        assert(lhs =~= http + nl + "<VirtualHost *:"@ + p2 + ">\n"@ + body);
        assert(lhs =~= http + head2 + host_tail(doc, guard));
        let ssl = "  SSLEngine on\n  SSLCertificateFile \""@ + crt + "\"\n  SSLCertificateKeyFile \""@ + key
            + "\"\n</VirtualHost>\n"@;
        assert(text =~= lhs + handler + ssl);
        assert(text =~= http + head2 + rest);
        assert(text.subrange(http.len() as int, (http.len() + head2.len()) as int) =~= head2);
        assert(crate::text::occurs_at(text, head2, http.len() as int));
    }
    assert(text.take(head1.len() as int) =~= head1);
}

/// Both hosts of a project serve the same folder, the framework's document
/// root: the file opens with the HTTP host serving it, and with HTTPS on the
/// HTTPS host that follows serves it too.
pub proof fn law_hosts_serve_the_document_root(
    root: Seq<char>,
    http_port: u16,
    https_enabled: bool,
    https_port: u16,
    domain: Seq<char>,
    project_path: Seq<char>,
    framework: Seq<char>,
    php_version: Option<Seq<char>>,
)
    ensures
        crate::text::starts_with(
            vhost_conf(root, http_port, https_enabled, https_port, domain, project_path, framework, php_version),
            host_head(decimal(http_port as nat), domain, docroot(project_path, framework)),
        ),
        https_enabled ==> crate::text::contains(
            vhost_conf(root, http_port, https_enabled, https_port, domain, project_path, framework, php_version),
            "\n"@ + host_head(decimal(https_port as nat), domain, docroot(project_path, framework)),
        ),
{
    let doc = docroot(project_path, framework);
    let guard = parent_guard(display(project_path), doc);
    let handler = php_handler(php_version, doc);
    let crt = display(cert_file(root, domain, ".crt"@));
    let key = display(cert_file(root, domain, ".key"@));
    let p1 = decimal(http_port as nat);
    let p2 = decimal(https_port as nat);
    assert(vhost_conf(root, http_port, https_enabled, https_port, domain, project_path, framework, php_version)
        == vhost_text(p1, https_enabled, p2, domain, doc, guard, handler, crt, key));
    lemma_vhost_text_heads(p1, https_enabled, p2, domain, doc, guard, handler, crt, key);
}

fn host_body_exec(out: &mut Vec<char>, domain: &str, root_doc: &str, guard: &Vec<char>)
    ensures
        final(out)@ == old(out)@ + host_body(domain@, root_doc@, guard@),
{
    push_str(out, "  ServerName ");
    push_str(out, domain);
    push_str(out, "\n  DocumentRoot \"");
    push_str(out, root_doc);
    push_str(out, "\"\n");
    push_all(out, guard);
    push_str(out, "  <Directory \"");
    push_str(out, root_doc);
    push_str(out, "\">\n    AllowOverride All\n    Options -Indexes +FollowSymLinks\n    Require all granted\n  </Directory>\n");
    assert(final(out)@ =~= old(out)@ + host_body(domain@, root_doc@, guard@));
}

fn cert_path(root: &str, domain: &str, suffix: &str) -> (r: String)
    ensures
        r@ == cert_file(root@, domain@, suffix@),
{
    let a = join_path(root, "etc");
    let b = join_path(a.as_str(), "ssl");
    let c = join_path(b.as_str(), "certs");
    let mut f = chars_of(domain);
    push_str(&mut f, suffix);
    let fs = string_of(&f);
    join_path(c.as_str(), fs.as_str())
}

/// The virtual host file of a project (see `vhost_conf`).
pub fn project_vhost_conf(
    root: &str,
    cfg: &AppConfig,
    domain: &str,
    project_path: &str,
    framework: &str,
    php_version: Option<&str>,
) -> (r: String)
    ensures
        r@ == vhost_conf(
            root@,
            cfg.http_port,
            cfg.https_enabled,
            cfg.https_port,
            domain@,
            project_path@,
            framework@,
            match php_version {
                Some(v) => Some(v@),
                None => None,
            },
        ),
{
    let doc = framework_docroot(project_path, framework);
    let project_dir = display_path(project_path);
    let guard: Vec<char> = if !text_eq(&chars_of(doc.as_str()), &chars_of(project_dir.as_str())) {
        let mut g = chars_of("  <Directory \"");
        push_str(&mut g, project_dir.as_str());
        push_str(&mut g, "\">\n    AllowOverride None\n    Options -Indexes +FollowSymLinks\n    Require all granted\n  </Directory>\n");
        g
    } else {
        Vec::new()
    };
    let handler: Vec<char> = match php_version {
        Some(v) => {
            let mut h = chars_of("  ProxyFCGIBackendType GENERIC\n  <FilesMatch \"\\\\.php$\">\n    SetHandler \"proxy:fcgi://127.0.0.1:");
            push_decimal(&mut h, php_cgi_port(v) as u64);
            push_str(&mut h, "/\"\n  </FilesMatch>\n  ProxyFCGISetEnvIf \"true\" DOCUMENT_ROOT \"");
            push_str(&mut h, doc.as_str());
            push_str(&mut h, "\"\n  ProxyFCGISetEnvIf \"true\" SCRIPT_FILENAME \"%{reqenv:DOCUMENT_ROOT}%{reqenv:SCRIPT_NAME}\"\n  ProxyFCGISetEnvIf \"true\" PATH_TRANSLATED \"%{reqenv:DOCUMENT_ROOT}%{reqenv:SCRIPT_NAME}\"\n");
            h
        },
        None => Vec::new(),
    };
    assert(guard@ =~= parent_guard(display(project_path@), doc@));
    assert(handler@ =~= php_handler(
        match php_version {
            Some(v) => Some(v@),
            None => None,
        },
        doc@,
    ));
    let mut m = chars_of("<VirtualHost *:");
    push_decimal(&mut m, cfg.http_port as u64);
    push_str(&mut m, ">\n");
    host_body_exec(&mut m, domain, doc.as_str(), &guard);
    push_all(&mut m, &handler);
    push_str(&mut m, "</VirtualHost>\n");
    if cfg.https_enabled {
        push_str(&mut m, "\n<VirtualHost *:");
        push_decimal(&mut m, cfg.https_port as u64);
        push_str(&mut m, ">\n");
        host_body_exec(&mut m, domain, doc.as_str(), &guard);
        push_all(&mut m, &handler);
        push_str(&mut m, "  SSLEngine on\n  SSLCertificateFile \"");
        let crt = cert_path(root, domain, ".crt");
        let crt_shown = display_path(crt.as_str());
        push_str(&mut m, crt_shown.as_str());
        push_str(&mut m, "\"\n  SSLCertificateKeyFile \"");
        let key = cert_path(root, domain, ".key");
        let key_shown = display_path(key.as_str());
        push_str(&mut m, key_shown.as_str());
        push_str(&mut m, "\"\n</VirtualHost>\n");
    }
    let r = string_of(&m);
    assert(r@ =~= vhost_conf(
        root@,
        cfg.http_port,
        cfg.https_enabled,
        cfg.https_port,
        domain@,
        project_path@,
        framework@,
        match php_version {
            Some(v) => Some(v@),
            None => None,
        },
    ));
    r
}

/// `etc/apache/vhosts/<domain>.conf`: where a project's host file is written.
pub fn vhost_file_path(root: &str, domain: &str) -> (r: String)
    ensures
        r@ == path_join(path_join(path_join(path_join(root@, "etc"@), "apache"@), "vhosts"@), domain@ + ".conf"@),
{
    let a = join_path(root, "etc");
    let b = join_path(a.as_str(), "apache");
    let c = join_path(b.as_str(), "vhosts");
    let mut f = chars_of(domain);
    push_str(&mut f, ".conf");
    let fs = string_of(&f);
    join_path(c.as_str(), fs.as_str())
}

} // verus!
