use ipeenv::catalog::SiteTemplate;
use ipeenv::creating::{
    create_begin, create_project_step, CreateAction, CreateEvent, CreateStage, CreateState, ProjectRequest,
};

fn request(name: &str, php: Option<&str>, template: Option<&str>, ssl: bool, host: bool) -> ProjectRequest {
    ProjectRequest {
        name: name.to_string(),
        php_version: php.map(|s| s.to_string()),
        template: template.map(|s| s.to_string()),
        enable_ssl: ssl,
        add_host: host,
    }
}

fn laravel(min: Option<&str>) -> SiteTemplate {
    SiteTemplate {
        name: "Laravel".to_string(),
        framework: "Laravel".to_string(),
        version: "11".to_string(),
        source: "composer:laravel/laravel".to_string(),
        category: "Frameworks".to_string(),
        php_min: min.map(|s| s.to_string()),
        php_max: None,
        preferred: true,
    }
}

fn begin(req: ProjectRequest) -> (CreateState, CreateAction) {
    create_project_step(create_begin(), CreateEvent::Begin { root: "C:/ipe".to_string(), request: req })
}

fn step_of(p: &Option<(String, u8)>) -> Option<(&str, u8)> {
    p.as_ref().map(|(s, n)| (s.as_str(), *n))
}

#[test]
fn name_without_slug_is_refused() {
    let (s, a) = begin(request("!!!", None, None, false, false));
    assert!(s.stage == CreateStage::Done);
    match a {
        CreateAction::Fail { error, progress } => {
            assert_eq!(error, "Informe um nome de projeto valido.");
            assert!(progress.is_none());
        }
        _ => panic!("expected a failure"),
    }
}

#[test]
fn full_creation_with_ssl_and_host() {
    let (s, a) = begin(request("Minha Loja", None, None, true, true));
    assert!(s.stage == CreateStage::Probing);
    assert_eq!(s.name, "minha-loja");
    assert_eq!(s.project_dir, "C:/ipe\\www\\minha-loja");
    assert_eq!(s.domain, "minha-loja.test");
    match &a {
        CreateAction::Probe(p) => assert_eq!(step_of(p), Some(("Validando projeto", 5))),
        _ => panic!("expected a probe"),
    }
    let (s, a) = create_project_step(s, CreateEvent::Probed { folder_exists: false, template: None, compatible: None });
    assert!(s.stage == CreateStage::CreatingFiles);
    assert!(s.php.is_none());
    match &a {
        CreateAction::CreateFiles(p) => assert_eq!(step_of(p), Some(("Criando arquivos do projeto", 35))),
        _ => panic!("expected the files"),
    }
    let (s, a) = create_project_step(s, CreateEvent::FilesCreated(Ok(())));
    assert!(matches!(a, CreateAction::WriteConfig));
    let (s, a) = create_project_step(s, CreateEvent::ConfigWritten);
    assert_eq!(s.notes, vec!["Projeto criado em C:/ipe/www/minha-loja".to_string()]);
    match &a {
        CreateAction::ReadHttps(p) => assert_eq!(step_of(p), Some(("Preparando SSL local", 70))),
        _ => panic!("expected the HTTPS setting"),
    }
    let (s, a) = create_project_step(s, CreateEvent::HttpsRead(true));
    assert!(matches!(a, CreateAction::EnableSsl));
    let (s, a) = create_project_step(s, CreateEvent::SslEnabled);
    match &a {
        CreateAction::AddHost(p) => assert_eq!(step_of(p), Some(("Atualizando hosts", 82))),
        _ => panic!("expected the hosts entry"),
    }
    let (s, a) = create_project_step(s, CreateEvent::HostAdded(Err("negado".to_string())));
    match &a {
        CreateAction::Regenerate(p) => assert_eq!(step_of(p), Some(("Regenerando configurações", 92))),
        _ => panic!("expected the regeneration"),
    }
    let (s, a) = create_project_step(s, CreateEvent::Regenerated);
    match &a {
        CreateAction::ProbeApache(p) => assert_eq!(step_of(p), Some(("Iniciando Apache", 96))),
        _ => panic!("expected the Apache probe"),
    }
    let (s, a) = create_project_step(s, CreateEvent::Apache(Some(true)));
    assert!(matches!(a, CreateAction::CheckApache));
    let (s, a) = create_project_step(s, CreateEvent::Running(true));
    assert!(matches!(a, CreateAction::StartApache { restart: true }));
    let (s, a) = create_project_step(s, CreateEvent::ApacheStarted { ok: true, message: "Apache iniciado.".to_string() });
    assert!(s.stage == CreateStage::Done);
    match a {
        CreateAction::Finish { log, result } => {
            assert_eq!(log, "Project 'minha-loja' created");
            assert!(result.ok);
            assert_eq!(
                result.message,
                "Projeto criado em C:/ipe/www/minha-loja; arquivos SSL locais preparados; hosts não atualizado: negado; Apache iniciado."
            );
        }
        _ => panic!("expected the reply"),
    }
}

#[test]
fn existing_folder_is_refused() {
    let (s, _) = begin(request("blog", None, None, false, false));
    let (s, a) = create_project_step(s, CreateEvent::Probed { folder_exists: true, template: None, compatible: None });
    assert!(s.stage == CreateStage::Done);
    match a {
        CreateAction::Fail { error, progress } => {
            assert_eq!(error, "O projeto 'blog' ja existe.");
            assert_eq!(step_of(&progress), Some(("Projeto ja existe", 100)));
        }
        _ => panic!("expected a failure"),
    }
}

#[test]
fn php_below_template_minimum_is_refused() {
    let (s, _) = begin(request("api", Some("7.4"), Some("Laravel"), false, false));
    let (_, a) = create_project_step(
        s,
        CreateEvent::Probed { folder_exists: false, template: Some(laravel(Some("8.1"))), compatible: None },
    );
    match a {
        CreateAction::Fail { error, progress } => {
            assert_eq!(error, "PHP 7.4 não atende o template selecionado (mínimo requerido: 8.1).");
            assert!(progress.is_none());
        }
        _ => panic!("expected a failure"),
    }
}

#[test]
fn compatible_php_is_installed_and_failed_files_abandon() {
    let (s, _) = begin(request("api", None, Some("Laravel"), false, false));
    let (s, a) = create_project_step(
        s,
        CreateEvent::Probed { folder_exists: false, template: Some(laravel(Some("8.1"))), compatible: Some("8.2".to_string()) },
    );
    assert!(s.stage == CreateStage::EnsuringPhp);
    assert_eq!(s.php.as_deref(), Some("8.2"));
    assert_eq!(s.php_note.as_deref(), Some("Nenhum PHP selecionado; Ipeenv usou PHP 8.2 compatível."));
    match &a {
        CreateAction::EnsurePhp { version, progress } => {
            assert_eq!(version, "8.2");
            assert_eq!(step_of(progress), Some(("Verificando PHP 8.2", 15)));
        }
        _ => panic!("expected the PHP install"),
    }
    let (s, a) = create_project_step(s, CreateEvent::PhpReady);
    assert!(matches!(a, CreateAction::CreateFiles(_)));
    let (s, a) = create_project_step(s, CreateEvent::FilesCreated(Err("download falhou".to_string())));
    assert!(s.stage == CreateStage::Done);
    match a {
        CreateAction::Abandon { error, progress } => {
            assert_eq!(error, "download falhou");
            assert_eq!(step_of(&progress), Some(("Falha ao criar projeto", 100)));
        }
        _ => panic!("expected the project to be abandoned"),
    }
}

#[test]
fn no_compatible_php_is_an_error() {
    let (s, _) = begin(request("api", None, Some("Laravel"), false, false));
    let (_, a) = create_project_step(
        s,
        CreateEvent::Probed { folder_exists: false, template: Some(laravel(Some("8.1"))), compatible: None },
    );
    match a {
        CreateAction::Fail { error, .. } => {
            assert_eq!(error, "Não foi possível determinar um PHP compatível para o template.")
        }
        _ => panic!("expected a failure"),
    }
}

fn written(name: &str, php: Option<&str>, ssl: bool, host: bool) -> (CreateState, CreateAction) {
    let (s, _) = begin(request(name, php, None, ssl, host));
    let (s, _) = create_project_step(s, CreateEvent::Probed { folder_exists: false, template: None, compatible: None });
    let (s, _) = if php.is_some() { create_project_step(s, CreateEvent::PhpReady) } else { (s, CreateAction::WriteConfig) };
    let (s, _) = create_project_step(s, CreateEvent::FilesCreated(Ok(())));
    create_project_step(s, CreateEvent::ConfigWritten)
}

#[test]
fn https_disabled_and_apache_missing_are_noted() {
    let (s, _) = written("site", Some("8.3"), true, false);
    assert_eq!(s.php.as_deref(), Some("8.3"));
    let (s, a) = create_project_step(s, CreateEvent::HttpsRead(false));
    assert!(matches!(a, CreateAction::Regenerate(_)));
    let (s, _) = create_project_step(s, CreateEvent::Regenerated);
    let (_, a) = create_project_step(s, CreateEvent::Apache(Some(false)));
    match a {
        CreateAction::Finish { result, .. } => assert_eq!(
            result.message,
            "Projeto criado em C:/ipe/www/site; HTTPS local está desabilitado nas preferências; Apache ainda não está instalado"
        ),
        _ => panic!("expected the reply"),
    }
}

#[test]
fn unknown_apache_finishes_and_failed_start_is_an_error() {
    let (s, _) = written("site", None, false, true);
    let (s, _) = create_project_step(s, CreateEvent::HostAdded(Ok("Host adicionado.".to_string())));
    let (s, _) = create_project_step(s, CreateEvent::Regenerated);
    let (_, a) = create_project_step(s, CreateEvent::Apache(None));
    match a {
        CreateAction::Finish { result, .. } => {
            assert_eq!(result.message, "Projeto criado em C:/ipe/www/site; Host adicionado.")
        }
        _ => panic!("expected the reply"),
    }
    let (s, _) = written("site", None, false, false);
    let (s, _) = create_project_step(s, CreateEvent::Regenerated);
    let (s, _) = create_project_step(s, CreateEvent::Apache(Some(true)));
    let (s, a) = create_project_step(s, CreateEvent::Running(false));
    assert!(matches!(a, CreateAction::StartApache { restart: false }));
    let (_, a) = create_project_step(s, CreateEvent::ApacheStarted { ok: false, message: "porta ocupada".to_string() });
    match a {
        CreateAction::Fail { error, progress } => {
            assert_eq!(error, "porta ocupada");
            assert_eq!(step_of(&progress), Some(("Apache não iniciou", 96)));
        }
        _ => panic!("expected a failure"),
    }
}

#[test]
fn failed_outside_work_and_unexpected_events() {
    let (s, _) = begin(request("site", Some("8.3"), None, false, false));
    let (s, _) = create_project_step(s, CreateEvent::Probed { folder_exists: false, template: None, compatible: None });
    let (s, a) = create_project_step(s, CreateEvent::Regenerated);
    assert!(s.stage == CreateStage::EnsuringPhp);
    match &a {
        CreateAction::EnsurePhp { version, progress } => {
            assert_eq!(version, "8.3");
            assert!(progress.is_none());
        }
        _ => panic!("expected the PHP install again"),
    }
    let (s, a) = create_project_step(s, CreateEvent::Failed("sem rede".to_string()));
    assert!(s.stage == CreateStage::Done);
    match a {
        CreateAction::Fail { error, progress } => {
            assert_eq!(error, "sem rede");
            assert!(progress.is_none());
        }
        _ => panic!("expected a failure"),
    }
}
