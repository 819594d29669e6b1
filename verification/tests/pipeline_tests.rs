use onepanel_ci::envelope::HttpOutcome;
use onepanel_ci::pipeline::{
    DeployError, Pipeline, PipelineAction, PipelineEvent, ProjectConfig, Stage,
};

fn config() -> ProjectConfig {
    ProjectConfig {
        path: "/work/svc".to_string(),
        docker_image_name: None,
        default_server_id: Some(1),
        default_compose_path: Some("/x/docker-compose.yml".to_string()),
    }
}

fn body(text: &str) -> HttpOutcome {
    HttpOutcome::Body(text.to_string())
}

#[test]
fn full_deployment_succeeds_end_to_end() {
    let (mut p, first) = Pipeline::start(&config()).unwrap();
    assert_eq!(first, PipelineAction::ListTags { base: "svc".to_string() });

    let a = p.step(PipelineEvent::TagsListed(Ok(vec!["svc:v1.0.0".to_string()])));
    assert_eq!(
        a,
        PipelineAction::BuildImage {
            dir: "/work/svc".to_string(),
            version_tag: "svc:v1.0.1".to_string(),
            latest_tag: "svc:latest".to_string(),
        }
    );

    let a = p.step(PipelineEvent::BuildFinished(Ok("build log".to_string())));
    assert_eq!(a, PipelineAction::SaveImage { image_tag: "svc:v1.0.1".to_string() });

    let a = p.step(PipelineEvent::PackageFinished(Ok("/tmp/image_1.tar".to_string())));
    assert_eq!(
        a,
        PipelineAction::Upload {
            local_path: "/tmp/image_1.tar".to_string(),
            remote_dir: "/opt/1panel/tmp".to_string(),
        }
    );

    let a = p.step(PipelineEvent::TransferFinished(body("{\"code\":200,\"data\":null}")));
    assert_eq!(
        a,
        PipelineAction::LoadImage { remote_path: "/opt/1panel/tmp/image_1.tar".to_string() }
    );

    let a = p.step(PipelineEvent::ActivateFinished(body("{\"code\":200}")));
    assert_eq!(a, PipelineAction::ListStacks);

    let stacks =
        "{\"code\":200,\"data\":{\"items\":[{\"name\":\"svcstack\",\"path\":\"/x/docker-compose.yml\"}]}}";
    let a = p.step(PipelineEvent::StackListFetched(body(stacks)));
    assert_eq!(a, PipelineAction::ReadFile { path: "/x/docker-compose.yml".to_string() });

    let definition = "{\"code\":200,\"data\":{\"content\":\"image: svc:v1.0.0\"}}";
    let a = p.step(PipelineEvent::DefinitionFetched(body(definition)));
    assert_eq!(
        a,
        PipelineAction::SaveFile {
            path: "/x/docker-compose.yml".to_string(),
            content: "image: svc:v1.0.1".to_string(),
        }
    );

    let a = p.step(PipelineEvent::WriteBackFinished(body("{\"code\":200}")));
    assert_eq!(
        a,
        PipelineAction::OperateStack {
            name: "svcstack".to_string(),
            path: "/x/docker-compose.yml".to_string(),
            operation: "up".to_string(),
        }
    );

    // the archive's removal is demanded before anything is reported
    let a = p.step(PipelineEvent::RestartFinished(body("{\"code\":200}")));
    assert_eq!(a, PipelineAction::RemoveArtifact { path: "/tmp/image_1.tar".to_string() });

    let a = p.step(PipelineEvent::ArtifactRemoved(Ok(())));
    assert_eq!(a, PipelineAction::Finish(Ok("v1.0.1".to_string())));
}

#[test]
fn missing_stack_reports_not_found_after_cleanup() {
    let (mut p, _) = Pipeline::start(&config()).unwrap();
    p.step(PipelineEvent::TagsListed(Ok(vec![])));
    p.step(PipelineEvent::BuildFinished(Ok(String::new())));
    p.step(PipelineEvent::PackageFinished(Ok("/tmp/a.tar".to_string())));
    p.step(PipelineEvent::TransferFinished(body("{\"code\":200,\"data\":\"/r/a.tar\"}")));
    p.step(PipelineEvent::ActivateFinished(body("{\"code\":200}")));

    let unrelated = "{\"code\":200,\"data\":{\"items\":[{\"name\":\"other\",\"path\":\"/elsewhere.yml\"}]}}";
    let a = p.step(PipelineEvent::StackListFetched(body(unrelated)));
    // the archive is still removed on this failing path
    assert_eq!(a, PipelineAction::RemoveArtifact { path: "/tmp/a.tar".to_string() });

    let a = p.step(PipelineEvent::ArtifactRemoved(Ok(())));
    match a {
        PipelineAction::Finish(Err(f)) => {
            assert_eq!(f.stage, Stage::ResolveStack);
            assert_eq!(f.error, DeployError::NotFound("/x/docker-compose.yml".to_string()));
        }
        other => panic!("expected a not-found failure, got {:?}", other),
    }
}

#[test]
fn missing_server_is_a_configuration_error() {
    let mut cfg = config();
    cfg.default_server_id = None;
    match Pipeline::start(&cfg) {
        Err(DeployError::Configuration(m)) => {
            assert_eq!(m, "Default server not configured");
        }
        other => panic!("expected a configuration error, got {:?}", other),
    }
}

#[test]
fn missing_stack_path_is_a_configuration_error() {
    let mut cfg = config();
    cfg.default_compose_path = None;
    match Pipeline::start(&cfg) {
        Err(DeployError::Configuration(m)) => {
            assert_eq!(m, "Default compose path not configured");
        }
        other => panic!("expected a configuration error, got {:?}", other),
    }
}

#[test]
fn base_name_falls_back_to_the_directory_name() {
    let mut cfg = config();
    cfg.path = "/srv/projects/shop/".to_string();
    let (_, first) = Pipeline::start(&cfg).unwrap();
    assert_eq!(first, PipelineAction::ListTags { base: "shop".to_string() });
}

#[test]
fn configured_base_name_overrides_the_directory() {
    let mut cfg = config();
    cfg.docker_image_name = Some("custom".to_string());
    let (_, first) = Pipeline::start(&cfg).unwrap();
    assert_eq!(first, PipelineAction::ListTags { base: "custom".to_string() });
}

#[test]
fn engine_failure_before_packaging_ends_without_cleanup() {
    let (mut p, _) = Pipeline::start(&config()).unwrap();
    let a = p.step(PipelineEvent::TagsListed(Err("engine down".to_string())));
    match a {
        PipelineAction::Finish(Err(f)) => {
            assert_eq!(f.stage, Stage::InferVersion);
            assert_eq!(f.error, DeployError::Engine("engine down".to_string()));
        }
        other => panic!("expected an engine failure, got {:?}", other),
    }
}

#[test]
fn transport_failure_during_transfer_cleans_up_first() {
    let (mut p, _) = Pipeline::start(&config()).unwrap();
    p.step(PipelineEvent::TagsListed(Ok(vec![])));
    p.step(PipelineEvent::BuildFinished(Ok(String::new())));
    p.step(PipelineEvent::PackageFinished(Ok("/tmp/b.tar".to_string())));
    let a = p.step(PipelineEvent::TransferFinished(HttpOutcome::Transport(
        "connection refused".to_string(),
    )));
    assert_eq!(a, PipelineAction::RemoveArtifact { path: "/tmp/b.tar".to_string() });
    let a = p.step(PipelineEvent::ArtifactRemoved(Err("already gone".to_string())));
    match a {
        PipelineAction::Finish(Err(f)) => {
            assert_eq!(f.stage, Stage::Transfer);
            assert_eq!(f.error, DeployError::Transport("connection refused".to_string()));
        }
        other => panic!("expected a transport failure, got {:?}", other),
    }
}

#[test]
fn a_failed_packaging_is_a_local_file_error() {
    let (mut p, _) = Pipeline::start(&config()).unwrap();
    p.step(PipelineEvent::TagsListed(Ok(vec![])));
    p.step(PipelineEvent::BuildFinished(Ok(String::new())));
    let a = p.step(PipelineEvent::PackageFinished(Err("no space left".to_string())));
    match a {
        PipelineAction::Finish(Err(f)) => {
            assert_eq!(f.stage, Stage::Package);
            assert_eq!(f.error, DeployError::Io("no space left".to_string()));
        }
        other => panic!("expected a local file failure, got {:?}", other),
    }
}

#[test]
fn an_api_error_while_writing_back_is_tagged_with_its_stage() {
    let (mut p, _) = Pipeline::start(&config()).unwrap();
    p.step(PipelineEvent::TagsListed(Ok(vec![])));
    p.step(PipelineEvent::BuildFinished(Ok(String::new())));
    p.step(PipelineEvent::PackageFinished(Ok("/tmp/d.tar".to_string())));
    p.step(PipelineEvent::TransferFinished(body("{\"code\":200,\"data\":\"/r/d.tar\"}")));
    p.step(PipelineEvent::ActivateFinished(body("{\"code\":200}")));
    let stacks =
        "{\"code\":200,\"data\":{\"items\":[{\"name\":\"svcstack\",\"path\":\"/x/docker-compose.yml\"}]}}";
    p.step(PipelineEvent::StackListFetched(body(stacks)));
    p.step(PipelineEvent::DefinitionFetched(body("{\"code\":200,\"data\":{\"content\":\"x\"}}")));
    let a = p.step(PipelineEvent::WriteBackFinished(body(
        "{\"code\":500,\"message\":\"read only\"}",
    )));
    assert_eq!(a, PipelineAction::RemoveArtifact { path: "/tmp/d.tar".to_string() });
    let a = p.step(PipelineEvent::ArtifactRemoved(Ok(())));
    match a {
        PipelineAction::Finish(Err(f)) => {
            assert_eq!(f.stage, Stage::WriteBack);
            assert_eq!(f.error, DeployError::Api(500, "read only".to_string()));
        }
        other => panic!("expected an application failure, got {:?}", other),
    }
}

#[test]
fn rejected_credentials_surface_as_auth_failures() {
    let (mut p, _) = Pipeline::start(&config()).unwrap();
    p.step(PipelineEvent::TagsListed(Ok(vec![])));
    p.step(PipelineEvent::BuildFinished(Ok(String::new())));
    p.step(PipelineEvent::PackageFinished(Ok("/tmp/c.tar".to_string())));
    p.step(PipelineEvent::TransferFinished(HttpOutcome::Unauthorized));
    let a = p.step(PipelineEvent::ArtifactRemoved(Ok(())));
    match a {
        PipelineAction::Finish(Err(f)) => {
            assert_eq!(f.stage, Stage::Transfer);
            assert_eq!(f.error, DeployError::Auth);
        }
        other => panic!("expected an auth failure, got {:?}", other),
    }
}

#[test]
fn first_build_of_a_fresh_project_is_v1() {
    let (mut p, _) = Pipeline::start(&config()).unwrap();
    let a = p.step(PipelineEvent::TagsListed(Ok(vec![])));
    match a {
        PipelineAction::BuildImage { version_tag, .. } => {
            assert_eq!(version_tag, "svc:v1.0.0");
        }
        other => panic!("expected a build action, got {:?}", other),
    }
}
