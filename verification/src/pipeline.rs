//! The ten-stage deployment pipeline, as a machine of states and events.
//!
//! The library performs no I/O: each step yields the one action the driver
//! must perform next — list tags, build, package, upload, and so on — and the
//! driver reports what happened as the next event. Stages run strictly in
//! order; the first failure is tagged with its stage and aborts the rest; and
//! once the packaged archive exists, every path to the final report first
//! asks for its removal, success and failure alike.

use vstd::prelude::*;
use vstd::pervasive::unreached;
use vstd::string::StringExecFns;

use crate::client::{append_chars, remote_path_clean_spec};
use crate::compose::{patch_compose, patch_spec};
use crate::envelope::{
    content_post, decode_content, decode_stack_list, decode_unit, decode_upload, find_stack,
    find_stack_spec, remote_body, stack_list_post, transport_post, unit_post, upload_post,
    HttpOutcome, RemoteError, StackEntry,
};
use crate::text::{chars_string, str_chars};
use crate::version::{next_version_spec, resolve_next_version};

verus! {

/// The ten stages of one deployment, in their strict order. The patch stage
/// computes locally and cannot fail, so no failure ever carries its tag; it
/// runs between fetching the definition and writing it back.
#[derive(Debug, Clone, Copy, PartialEq, Eq, Structural)]
pub enum Stage {
    InferVersion,
    Build,
    Package,
    Transfer,
    Activate,
    ResolveStack,
    FetchDefinition,
    Patch,
    WriteBack,
    Restart,
}

/// Why a deployment failed.
#[derive(Debug, Clone, PartialEq, Eq)]
pub enum DeployError {
    /// A required deployment target is not configured.
    Configuration(String),
    /// The local container engine failed an operation.
    Engine(String),
    /// A local file operation failed.
    Io(String),
    /// The remote host could not be reached.
    Transport(String),
    /// The remote host rejected the credential.
    Auth,
    /// The remote host answered a non-success HTTP status.
    Http(u16, String),
    /// A response body was not valid JSON.
    Malformed,
    /// The remote envelope carried a non-success code and message.
    Api(i64, String),
    /// A payload did not have the shape the operation needs.
    BadShape,
    /// No listed stack matches the configured path.
    NotFound(String),
}

/// A failure, tagged with the stage it happened in.
#[derive(Debug, Clone, PartialEq, Eq)]
pub struct StageFailure {
    pub stage: Stage,
    pub error: DeployError,
}

/// What the configuration store yields for one project.
#[derive(Debug, Clone, PartialEq, Eq)]
pub struct ProjectConfig {
    /// The project's local directory.
    pub path: String,
    /// The configured image base name, when one is set.
    pub docker_image_name: Option<String>,
    /// The remote host the project deploys to.
    pub default_server_id: Option<i64>,
    /// The stack definition path on that host.
    pub default_compose_path: Option<String>,
}

/// One deployment in flight: the project's base name and directory tied to
/// its target host and stack path. The base name is fixed here once and used
/// unchanged by every later stage.
#[derive(Debug, Clone, PartialEq, Eq)]
pub struct DeploymentRequest {
    pub base: String,
    pub dir: String,
    pub server_id: i64,
    pub stack_path: String,
}

/// Where one pipeline invocation stands: which event it awaits, and the
/// values later stages will need.
#[derive(Debug, PartialEq, Eq)]
pub enum PipelineState {
    /// Awaiting the tag listing.
    InferringVersion,
    /// Awaiting the build; carries the inferred version.
    Building(String),
    /// Awaiting the archive; carries the version.
    Packaging(String),
    /// Awaiting the upload; carries the version and the local archive path.
    Transferring(String, String),
    /// Awaiting the image load; carries version, archive, remote path.
    Activating(String, String, String),
    /// Awaiting the stack listing; carries version and archive.
    ResolvingStack(String, String),
    /// Awaiting the definition text; carries version, archive, stack name.
    FetchingDefinition(String, String, String),
    /// Awaiting the write-back; carries version, archive, stack name.
    WritingBack(String, String, String),
    /// Awaiting the restart; carries version and archive.
    Restarting(String, String),
    /// Awaiting the archive's removal; carries the archive path and the
    /// outcome to report once removal was attempted.
    CleaningUp(String, Result<String, StageFailure>),
    /// The outcome has been reported.
    Done,
}

/// What the driver must do next.
#[derive(Debug, PartialEq, Eq)]
pub enum PipelineAction {
    /// List the local image tags of this base name.
    ListTags { base: String },
    /// Build the directory, tagging the result twice.
    BuildImage { dir: String, version_tag: String, latest_tag: String },
    /// Serialize this image to a fresh local archive file.
    SaveImage { image_tag: String },
    /// Upload the local archive into the remote directory.
    Upload { local_path: String, remote_dir: String },
    /// Load the uploaded archive into the remote image store.
    LoadImage { remote_path: String },
    /// List the remote host's stacks.
    ListStacks,
    /// Read a remote file's text.
    ReadFile { path: String },
    /// Save text to a remote file.
    SaveFile { path: String, content: String },
    /// Apply an operation to a named stack.
    OperateStack { name: String, path: String, operation: String },
    /// Delete the local archive; its failure is only logged.
    RemoveArtifact { path: String },
    /// The pipeline is over; report this outcome.
    Finish(Result<String, StageFailure>),
}

/// What the driver reports back for each action.
#[derive(Debug, PartialEq, Eq)]
pub enum PipelineEvent {
    /// The tag listing, or the engine's failure text.
    TagsListed(Result<Vec<String>, String>),
    /// The build's log text, or its failure text.
    BuildFinished(Result<String, String>),
    /// The path of the written archive, or the failure text; an error means
    /// no archive exists.
    PackageFinished(Result<String, String>),
    /// What the upload request came to.
    TransferFinished(HttpOutcome),
    /// What the image-load request came to.
    ActivateFinished(HttpOutcome),
    /// What the stack-listing request came to.
    StackListFetched(HttpOutcome),
    /// What the file-read request came to.
    DefinitionFetched(HttpOutcome),
    /// What the file-save request came to.
    WriteBackFinished(HttpOutcome),
    /// What the stack-operation request came to.
    RestartFinished(HttpOutcome),
    /// Whether the archive could be deleted.
    ArtifactRemoved(Result<(), String>),
}

/// One deployment invocation.
#[derive(Debug, PartialEq, Eq)]
pub struct Pipeline {
    /// The fixed request this invocation serves.
    pub req: DeploymentRequest,
    /// Where the invocation stands.
    pub state: PipelineState,
}

/// The index of the last slash of `t`, or minus one when there is none.
pub open spec fn last_slash(t: Seq<char>) -> int
    decreases t.len(),
{
    if t.len() == 0 {
        -1
    } else if t.last() == '/' {
        t.len() - 1
    } else {
        last_slash(t.drop_last())
    }
}

/// The final segment of a path: trailing slashes dropped, then everything
/// after the last remaining slash; `unknown` when nothing is left.
pub open spec fn basename_spec(p: Seq<char>) -> Seq<char> {
    let t = crate::client::strip_trailing(p, '/');
    if t.len() == 0 {
        "unknown"@
    } else {
        t.skip(last_slash(t) + 1)
    }
}

/// The image base name one configuration deploys under: the configured
/// override, or the final segment of the project directory.
pub open spec fn base_name_spec(cfg: ProjectConfig) -> Seq<char> {
    match cfg.docker_image_name {
        Some(n) => n@,
        None => basename_spec(cfg.path@),
    }
}

/// The remote directory uploads land in.
pub open spec fn upload_dir_view() -> Seq<char> {
    "/opt/1panel/tmp"@
}

/// Which event each state awaits.
pub open spec fn accepts(s: PipelineState, e: PipelineEvent) -> bool {
    match s {
        PipelineState::InferringVersion => e is TagsListed,
        PipelineState::Building(_) => e is BuildFinished,
        PipelineState::Packaging(_) => e is PackageFinished,
        PipelineState::Transferring(_, _) => e is TransferFinished,
        PipelineState::Activating(_, _, _) => e is ActivateFinished,
        PipelineState::ResolvingStack(_, _) => e is StackListFetched,
        PipelineState::FetchingDefinition(_, _, _) => e is DefinitionFetched,
        PipelineState::WritingBack(_, _, _) => e is WriteBackFinished,
        PipelineState::Restarting(_, _) => e is RestartFinished,
        PipelineState::CleaningUp(_, _) => e is ArtifactRemoved,
        PipelineState::Done => false,
    }
}

/// The local archive a state holds live, if any. A state that has already
/// asked for the archive's removal no longer counts as holding it.
pub open spec fn artifact_of(s: PipelineState) -> Option<String> {
    match s {
        PipelineState::Transferring(_, a) => Some(a),
        PipelineState::Activating(_, a, _) => Some(a),
        PipelineState::ResolvingStack(_, a) => Some(a),
        PipelineState::FetchingDefinition(_, a, _) => Some(a),
        PipelineState::WritingBack(_, a, _) => Some(a),
        PipelineState::Restarting(_, a) => Some(a),
        _ => None,
    }
}

/// Maps a remote failure to the pipeline's error taxonomy.
pub open spec fn deploy_of_remote(e: RemoteError) -> DeployError {
    match e {
        RemoteError::Transport(m) => DeployError::Transport(m),
        RemoteError::Auth => DeployError::Auth,
        RemoteError::Http(s, b) => DeployError::Http(s, b),
        RemoteError::Malformed => DeployError::Malformed,
        RemoteError::Api(c, m) => DeployError::Api(c, m),
        RemoteError::BadShape => DeployError::BadShape,
        RemoteError::NotFound(p) => DeployError::NotFound(p),
    }
}

/// Runtime counterpart of [`deploy_of_remote`].
fn deploy_of_remote_exec(e: RemoteError) -> (r: DeployError)
    ensures
        r == deploy_of_remote(e),
{
    match e {
        RemoteError::Transport(m) => DeployError::Transport(m),
        RemoteError::Auth => DeployError::Auth,
        RemoteError::Http(s, b) => DeployError::Http(s, b),
        RemoteError::Malformed => DeployError::Malformed,
        RemoteError::Api(c, m) => DeployError::Api(c, m),
        RemoteError::BadShape => DeployError::BadShape,
        RemoteError::NotFound(p) => DeployError::NotFound(p),
    }
}

/// What the upload stage's decode yields for a transport outcome: the
/// transport errors map over, and a delivered body is decoded against the
/// upload's directory and the archive's file name.
pub open spec fn transfer_decode(
    outcome: HttpOutcome,
    art: String,
    dr: Result<String, RemoteError>,
) -> bool {
    &&& transport_post(outcome, dr)
    &&& (outcome matches HttpOutcome::Body(b) ==> upload_post(
        b@,
        upload_dir_view(),
        basename_spec(art@),
        dr,
    ))
}

/// What a unit operation's decode yields for a transport outcome.
pub open spec fn unit_decode(outcome: HttpOutcome, dr: Result<(), RemoteError>) -> bool {
    &&& transport_post(outcome, dr)
    &&& (outcome matches HttpOutcome::Body(b) ==> unit_post(b@, dr))
}

/// What the stack-listing decode yields for a transport outcome.
pub open spec fn list_decode(outcome: HttpOutcome, dr: Result<Vec<StackEntry>, RemoteError>) -> bool {
    &&& transport_post(outcome, dr)
    &&& (outcome matches HttpOutcome::Body(b) ==> stack_list_post(b@, dr))
}

/// What the file-read decode yields for a transport outcome.
pub open spec fn content_decode(outcome: HttpOutcome, dr: Result<String, RemoteError>) -> bool {
    &&& transport_post(outcome, dr)
    &&& (outcome matches HttpOutcome::Body(b) ==> content_post(b@, dr))
}

/// The error inside a failed outcome awaiting cleanup; meaningful only for
/// such states.
pub open spec fn failure_error(post: Pipeline) -> DeployError
    recommends
        post.state matches PipelineState::CleaningUp(_, o) && o is Err,
{
    match post.state {
        PipelineState::CleaningUp(_, o) => match o {
            Err(f) => f.error,
            Ok(_) => DeployError::Malformed,
        },
        _ => DeployError::Malformed,
    }
}

/// A failed stage hands over to cleanup: the archive's removal is requested
/// and the tagged failure is held for the final report.
pub open spec fn cleanup_shape(
    art: String,
    stage: Stage,
    post: Pipeline,
    action: PipelineAction,
) -> bool {
    &&& post.state matches PipelineState::CleaningUp(a2, outcome) && a2 == art && (
    outcome matches Err(f) && f.stage == stage)
    &&& action matches PipelineAction::RemoveArtifact { path } && path == art
}

/// A failure before any archive exists ends the pipeline at once with the
/// tagged failure.
pub open spec fn early_failure(stage: Stage, post: Pipeline, action: PipelineAction) -> bool {
    &&& post.state is Done
    &&& action matches PipelineAction::Finish(res) && res matches Err(f) && f.stage == stage
}

/// The error reported by an early failure.
pub open spec fn early_error(action: PipelineAction) -> DeployError
    recommends
        action matches PipelineAction::Finish(r) && r is Err,
{
    match action {
        PipelineAction::Finish(r) => match r {
            Err(f) => f.error,
            Ok(_) => DeployError::Malformed,
        },
        _ => DeployError::Malformed,
    }
}

/// The whole transition relation: for every state and the event it awaits,
/// exactly which state follows and which action is handed to the driver.
pub open spec fn step_rel(
    pre: Pipeline,
    event: PipelineEvent,
    post: Pipeline,
    action: PipelineAction,
) -> bool {
    &&& post.req == pre.req
    &&& match (pre.state, event) {
        (PipelineState::InferringVersion, PipelineEvent::TagsListed(res)) => match res {
            Ok(tags) => post.state matches PipelineState::Building(ver) && (ver@
                == next_version_spec(tags.deep_view()) && (
            action matches PipelineAction::BuildImage { dir, version_tag, latest_tag } && (dir@
                == pre.req.dir@ && version_tag@ == pre.req.base@ + seq![':'] + ver@ && latest_tag@
                == pre.req.base@ + seq![':'] + "latest"@))),
            Err(e) => early_failure(Stage::InferVersion, post, action) && (early_error(action)
                matches DeployError::Engine(m) && m@ == e@),
        },
        (PipelineState::Building(ver), PipelineEvent::BuildFinished(res)) => match res {
            Ok(_) => post.state matches PipelineState::Packaging(v2) && (v2 == ver && (
            action matches PipelineAction::SaveImage { image_tag } && image_tag@ == pre.req.base@
                + seq![':'] + ver@)),
            Err(e) => early_failure(Stage::Build, post, action) && (early_error(action)
                matches DeployError::Engine(m) && m@ == e@),
        },
        (PipelineState::Packaging(ver), PipelineEvent::PackageFinished(res)) => match res {
            Ok(p) => post.state matches PipelineState::Transferring(v2, a2) && (v2 == ver && a2
                == p && (action matches PipelineAction::Upload { local_path, remote_dir } && (
            local_path == p && remote_dir@ == upload_dir_view()))),
            Err(e) => early_failure(Stage::Package, post, action) && (early_error(action)
                matches DeployError::Io(m) && m@ == e@),
        },
        (PipelineState::Transferring(ver, art), PipelineEvent::TransferFinished(outcome)) => exists|
            dr: Result<String, RemoteError>,
        |
            {
                &&& #[trigger] transfer_decode(outcome, art, dr)
                &&& match dr {
                    Ok(rp) => post.state matches PipelineState::Activating(v2, a2, rp2) && (v2
                        == ver && a2 == art && rp2 == rp && (
                    action matches PipelineAction::LoadImage { remote_path } && remote_path == rp)),
                    Err(e) => cleanup_shape(art, Stage::Transfer, post, action) && failure_error(
                        post,
                    ) == deploy_of_remote(e),
                }
            },
        (PipelineState::Activating(ver, art, _), PipelineEvent::ActivateFinished(outcome)) => exists|
            dr: Result<(), RemoteError>,
        |
            {
                &&& #[trigger] unit_decode(outcome, dr)
                &&& match dr {
                    Ok(_) => post.state matches PipelineState::ResolvingStack(v2, a2) && (v2 == ver
                        && a2 == art && action is ListStacks),
                    Err(e) => cleanup_shape(art, Stage::Activate, post, action) && failure_error(
                        post,
                    ) == deploy_of_remote(e),
                }
            },
        (PipelineState::ResolvingStack(ver, art), PipelineEvent::StackListFetched(outcome)) => exists|
            dr: Result<Vec<StackEntry>, RemoteError>,
        |
            {
                &&& #[trigger] list_decode(outcome, dr)
                &&& match dr {
                    Ok(items) => match find_stack_spec(items@, pre.req.stack_path@) {
                        Some(entry) => post.state matches PipelineState::FetchingDefinition(
                            v2,
                            a2,
                            nm,
                        ) && (v2 == ver && a2 == art && (entry.name matches Some(n) && nm == n) && (
                        action matches PipelineAction::ReadFile { path } && path@
                            == pre.req.stack_path@)),
                        None => cleanup_shape(art, Stage::ResolveStack, post, action) && (
                        failure_error(post) matches DeployError::NotFound(p) && p@
                            == pre.req.stack_path@),
                    },
                    Err(e) => cleanup_shape(art, Stage::ResolveStack, post, action)
                        && failure_error(post) == deploy_of_remote(e),
                }
            },
        (
            PipelineState::FetchingDefinition(ver, art, name),
            PipelineEvent::DefinitionFetched(outcome),
        ) => exists|dr: Result<String, RemoteError>|
            {
                &&& #[trigger] content_decode(outcome, dr)
                &&& match dr {
                    Ok(content) => post.state matches PipelineState::WritingBack(v2, a2, nm2) && (
                    v2 == ver && a2 == art && nm2 == name && (
                    action matches PipelineAction::SaveFile { path, content: c2 } && (path@
                        == pre.req.stack_path@ && c2@ == patch_spec(
                        content@,
                        pre.req.base@,
                        ver@,
                    )))),
                    Err(e) => cleanup_shape(art, Stage::FetchDefinition, post, action)
                        && failure_error(post) == deploy_of_remote(e),
                }
            },
        (PipelineState::WritingBack(ver, art, name), PipelineEvent::WriteBackFinished(outcome)) => exists|
            dr: Result<(), RemoteError>,
        |
            {
                &&& #[trigger] unit_decode(outcome, dr)
                &&& match dr {
                    Ok(_) => post.state matches PipelineState::Restarting(v2, a2) && (v2 == ver
                        && a2 == art && (
                    action matches PipelineAction::OperateStack { name: n2, path, operation } && (n2
                        == name && path@ == pre.req.stack_path@ && operation@ == "up"@))),
                    Err(e) => cleanup_shape(art, Stage::WriteBack, post, action) && failure_error(
                        post,
                    ) == deploy_of_remote(e),
                }
            },
        (PipelineState::Restarting(ver, art), PipelineEvent::RestartFinished(outcome)) => exists|
            dr: Result<(), RemoteError>,
        |
            {
                &&& #[trigger] unit_decode(outcome, dr)
                &&& match dr {
                    Ok(_) => post.state matches PipelineState::CleaningUp(a2, res) && (a2 == art
                        && (res matches Ok(v2) && v2 == ver) && (
                    action matches PipelineAction::RemoveArtifact { path } && path == art)),
                    Err(e) => cleanup_shape(art, Stage::Restart, post, action) && failure_error(
                        post,
                    ) == deploy_of_remote(e),
                }
            },
        (PipelineState::CleaningUp(_, outcome), PipelineEvent::ArtifactRemoved(_)) => {
            &&& post.state is Done
            &&& action matches PipelineAction::Finish(res) && res == outcome
        },
        _ => false,
    }
}

/// The archive, once created, is released on every path: a transition that
/// lets go of a live archive does so only by asking the driver to remove
/// that very file.
pub proof fn lemma_cleanup_requested(
    pre: Pipeline,
    event: PipelineEvent,
    post: Pipeline,
    action: PipelineAction,
)
    requires
        accepts(pre.state, event),
        step_rel(pre, event, post, action),
        artifact_of(pre.state) is Some,
        artifact_of(post.state) is None,
    ensures
        action matches PipelineAction::RemoveArtifact { path } && artifact_of(pre.state) == Some(
            path,
        ),
{
}

/// No outcome is reported while an archive is still live: a `Finish` action
/// can only follow states that hold no archive, so cleanup always precedes
/// the report.
pub proof fn lemma_no_report_with_live_artifact(
    pre: Pipeline,
    event: PipelineEvent,
    post: Pipeline,
    action: PipelineAction,
)
    requires
        accepts(pre.state, event),
        step_rel(pre, event, post, action),
        action is Finish,
    ensures
        artifact_of(pre.state) is None,
        artifact_of(post.state) is None,
{
}

/// Joins `base`, a colon and `version` into one tag.
fn tag_of(base: &String, version: &String) -> (r: String)
    ensures
        r@ == base@ + seq![':'] + version@,
{
    let base_chars = str_chars(base.as_str());
    let version_chars = str_chars(version.as_str());
    let mut out: Vec<char> = Vec::new();
    append_chars(&mut out, &base_chars);
    out.push(':');
    append_chars(&mut out, &version_chars);
    proof {
        assert(out@ =~= base@ + seq![':'] + version@);
    }
    chars_string(&out)
}

/// The final segment of a path, `unknown` when there is none.
pub fn basename(p: &str) -> (r: String)
    ensures
        r@ == basename_spec(p@),
{
    let chars = str_chars(p);
    let mut t = chars;
    let ghost orig = t@;
    while t.len() > 0 && t[t.len() - 1] == '/'
        invariant
            crate::client::strip_trailing(orig, '/') == crate::client::strip_trailing(t@, '/'),
        decreases t@.len(),
    {
        t.pop();
    }
    if t.len() == 0 {
        return String::from_str("unknown");
    }
    let mut j: usize = t.len();
    proof {
        assert(t@.take(j as int) =~= t@);
    }
    while j > 0 && t[j - 1] != '/'
        invariant
            j <= t@.len(),
            last_slash(t@) == last_slash(t@.take(j as int)),
            forall|k: int| j <= k < t@.len() ==> t@[k] != '/',
        decreases j,
    {
        proof {
            assert(t@.take(j as int).drop_last() =~= t@.take(j as int - 1));
        }
        j = j - 1;
    }
    proof {
        if j > 0 {
            assert(t@.take(j as int).last() == t@[j - 1]);
        } else {
            assert(t@.take(0) =~= Seq::<char>::empty());
        }
        assert(last_slash(t@) == j - 1);
    }
    let mut out: Vec<char> = Vec::new();
    let mut k: usize = j;
    while k < t.len()
        invariant
            j <= k <= t@.len(),
            out@ == t@.subrange(j as int, k as int),
        decreases t@.len() - k,
    {
        out.push(t[k]);
        k = k + 1;
        proof {
            assert(out@ =~= t@.subrange(j as int, k as int));
        }
    }
    proof {
        assert(out@ =~= t@.skip(last_slash(t@) + 1));
    }
    chars_string(&out)
}

impl Pipeline {
    /// Checks a project's configuration and opens a deployment: the request
    /// record and the first action. Fails exactly when the target host or
    /// the stack path is missing; the base name falls back to the project
    /// directory's final segment.
    pub fn start(cfg: &ProjectConfig) -> (r: Result<(Pipeline, PipelineAction), DeployError>)
        ensures
            r is Err <==> (cfg.default_server_id is None || cfg.default_compose_path is None),
            match r {
                Ok(pa) => {
                    &&& pa.0.req.base@ == base_name_spec(*cfg)
                    &&& pa.0.req.dir@ == cfg.path@
                    &&& cfg.default_server_id matches Some(sid) && pa.0.req.server_id == sid
                    &&& cfg.default_compose_path matches Some(sp) && pa.0.req.stack_path == sp
                    &&& pa.0.state is InferringVersion
                    &&& pa.1 matches PipelineAction::ListTags { base } && base@ == base_name_spec(
                        *cfg,
                    )
                },
                Err(e) => {
                    &&& e matches DeployError::Configuration(m)
                    &&& (cfg.default_server_id is None ==> m@
                        == "Default server not configured"@)
                    &&& (cfg.default_server_id is Some ==> m@
                        == "Default compose path not configured"@)
                },
            },
    {
        let server_id: i64 = match &cfg.default_server_id {
            Some(sid) => *sid,
            None => {
                return Err(
                    DeployError::Configuration(String::from_str("Default server not configured")),
                );
            },
        };
        let stack_path: String = match &cfg.default_compose_path {
            Some(sp) => sp.clone(),
            None => {
                return Err(
                    DeployError::Configuration(
                        String::from_str("Default compose path not configured"),
                    ),
                );
            },
        };
        let base: String = match &cfg.docker_image_name {
            Some(n) => n.clone(),
            None => basename(cfg.path.as_str()),
        };
        let req = DeploymentRequest {
            base: base.clone(),
            dir: cfg.path.clone(),
            server_id,
            stack_path,
        };
        let pipeline = Pipeline { req, state: PipelineState::InferringVersion };
        Ok((pipeline, PipelineAction::ListTags { base }))
    }

    /// Whether this invocation currently awaits the given kind of event:
    /// the runtime guard for [`Pipeline::step`].
    pub fn accepts_event(&self, event: &PipelineEvent) -> (r: bool)
        ensures
            r == accepts(self.state, *event),
    {
        match (&self.state, event) {
            (PipelineState::InferringVersion, PipelineEvent::TagsListed(_)) => true,
            (PipelineState::Building(_), PipelineEvent::BuildFinished(_)) => true,
            (PipelineState::Packaging(_), PipelineEvent::PackageFinished(_)) => true,
            (PipelineState::Transferring(_, _), PipelineEvent::TransferFinished(_)) => true,
            (PipelineState::Activating(_, _, _), PipelineEvent::ActivateFinished(_)) => true,
            (PipelineState::ResolvingStack(_, _), PipelineEvent::StackListFetched(_)) => true,
            (
                PipelineState::FetchingDefinition(_, _, _),
                PipelineEvent::DefinitionFetched(_),
            ) => true,
            (PipelineState::WritingBack(_, _, _), PipelineEvent::WriteBackFinished(_)) => true,
            (PipelineState::Restarting(_, _), PipelineEvent::RestartFinished(_)) => true,
            (PipelineState::CleaningUp(_, _), PipelineEvent::ArtifactRemoved(_)) => true,
            _ => false,
        }
    }

    /// Performs one transition: consumes the event the current state awaits
    /// and yields the next action. The whole behaviour is [`step_rel`].
    pub fn step(&mut self, event: PipelineEvent) -> (a: PipelineAction)
        requires
            accepts(old(self).state, event),
        ensures
            step_rel(*old(self), event, *final(self), a),
    {
        match event {
            PipelineEvent::TagsListed(res) => {
                match res {
                    Ok(tags) => {
                        let version = resolve_next_version(&tags);
                        let dir = self.req.dir.clone();
                        let version_tag = tag_of(&self.req.base, &version);
                        let latest_tag = tag_of(&self.req.base, &String::from_str("latest"));
                        self.state = PipelineState::Building(version);
                        PipelineAction::BuildImage { dir, version_tag, latest_tag }
                    },
                    Err(e) => {
                        self.state = PipelineState::Done;
                        PipelineAction::Finish(
                            Err(
                                StageFailure {
                                    stage: Stage::InferVersion,
                                    error: DeployError::Engine(e),
                                },
                            ),
                        )
                    },
                }
            },
            PipelineEvent::BuildFinished(res) => {
                let ver = match &self.state {
                    PipelineState::Building(v) => v.clone(),
                    _ => unreached(),
                };
                match res {
                    Ok(_) => {
                        let image_tag = tag_of(&self.req.base, &ver);
                        self.state = PipelineState::Packaging(ver);
                        PipelineAction::SaveImage { image_tag }
                    },
                    Err(e) => {
                        self.state = PipelineState::Done;
                        PipelineAction::Finish(
                            Err(StageFailure { stage: Stage::Build, error: DeployError::Engine(e) }),
                        )
                    },
                }
            },
            PipelineEvent::PackageFinished(res) => {
                let ver = match &self.state {
                    PipelineState::Packaging(v) => v.clone(),
                    _ => unreached(),
                };
                match res {
                    Ok(p) => {
                        let local_path = p.clone();
                        self.state = PipelineState::Transferring(ver, p);
                        PipelineAction::Upload {
                            local_path,
                            remote_dir: String::from_str("/opt/1panel/tmp"),
                        }
                    },
                    Err(e) => {
                        self.state = PipelineState::Done;
                        PipelineAction::Finish(
                            Err(StageFailure { stage: Stage::Package, error: DeployError::Io(e) }),
                        )
                    },
                }
            },
            PipelineEvent::TransferFinished(outcome) => {
                let (ver, art) = match &self.state {
                    PipelineState::Transferring(v, a) => (v.clone(), a.clone()),
                    _ => unreached(),
                };
                let ghost outcome0 = outcome;
                let dr: Result<String, RemoteError> = match remote_body(outcome) {
                    Err(e) => Err(e),
                    Ok(body) => {
                        let file = basename(art.as_str());
                        let dir = String::from_str("/opt/1panel/tmp");
                        decode_upload(body.as_str(), dir.as_str(), file.as_str())
                    },
                };
                proof {
                    assert(transfer_decode(outcome0, art, dr));
                }
                match dr {
                    Ok(rp) => {
                        let remote_path = rp.clone();
                        self.state = PipelineState::Activating(ver, art, rp);
                        PipelineAction::LoadImage { remote_path }
                    },
                    Err(e) => {
                        let path = art.clone();
                        self.state = PipelineState::CleaningUp(
                            art,
                            Err(
                                StageFailure {
                                    stage: Stage::Transfer,
                                    error: deploy_of_remote_exec(e),
                                },
                            ),
                        );
                        PipelineAction::RemoveArtifact { path }
                    },
                }
            },
            PipelineEvent::ActivateFinished(outcome) => {
                let (ver, art) = match &self.state {
                    PipelineState::Activating(v, a, _) => (v.clone(), a.clone()),
                    _ => unreached(),
                };
                let ghost outcome0 = outcome;
                let dr: Result<(), RemoteError> = match remote_body(outcome) {
                    Err(e) => Err(e),
                    Ok(body) => decode_unit(body.as_str()),
                };
                proof {
                    assert(unit_decode(outcome0, dr));
                }
                match dr {
                    Ok(_) => {
                        self.state = PipelineState::ResolvingStack(ver, art);
                        PipelineAction::ListStacks
                    },
                    Err(e) => {
                        let path = art.clone();
                        self.state = PipelineState::CleaningUp(
                            art,
                            Err(
                                StageFailure {
                                    stage: Stage::Activate,
                                    error: deploy_of_remote_exec(e),
                                },
                            ),
                        );
                        PipelineAction::RemoveArtifact { path }
                    },
                }
            },
            PipelineEvent::StackListFetched(outcome) => {
                let (ver, art) = match &self.state {
                    PipelineState::ResolvingStack(v, a) => (v.clone(), a.clone()),
                    _ => unreached(),
                };
                let ghost outcome0 = outcome;
                let dr: Result<Vec<StackEntry>, RemoteError> = match remote_body(outcome) {
                    Err(e) => Err(e),
                    Ok(body) => decode_stack_list(body.as_str()),
                };
                proof {
                    assert(list_decode(outcome0, dr));
                }
                match dr {
                    Ok(items) => {
                        proof {
                            crate::envelope::lemma_find_stack_matches(
                                items@,
                                self.req.stack_path@,
                            );
                        }
                        match find_stack(&items, self.req.stack_path.as_str()) {
                            Some(entry) => {
                                let name = match entry.name {
                                    Some(n) => n,
                                    None => unreached(),
                                };
                                let path = self.req.stack_path.clone();
                                self.state = PipelineState::FetchingDefinition(ver, art, name);
                                PipelineAction::ReadFile { path }
                            },
                            None => {
                                let path = art.clone();
                                self.state = PipelineState::CleaningUp(
                                    art,
                                    Err(
                                        StageFailure {
                                            stage: Stage::ResolveStack,
                                            error: DeployError::NotFound(
                                                self.req.stack_path.clone(),
                                            ),
                                        },
                                    ),
                                );
                                PipelineAction::RemoveArtifact { path }
                            },
                        }
                    },
                    Err(e) => {
                        let path = art.clone();
                        self.state = PipelineState::CleaningUp(
                            art,
                            Err(
                                StageFailure {
                                    stage: Stage::ResolveStack,
                                    error: deploy_of_remote_exec(e),
                                },
                            ),
                        );
                        PipelineAction::RemoveArtifact { path }
                    },
                }
            },
            PipelineEvent::DefinitionFetched(outcome) => {
                let (ver, art, name) = match &self.state {
                    PipelineState::FetchingDefinition(v, a, n) => (v.clone(), a.clone(), n.clone()),
                    _ => unreached(),
                };
                let ghost outcome0 = outcome;
                let dr: Result<String, RemoteError> = match remote_body(outcome) {
                    Err(e) => Err(e),
                    Ok(body) => decode_content(body.as_str()),
                };
                proof {
                    assert(content_decode(outcome0, dr));
                }
                match dr {
                    Ok(content) => {
                        let patched = patch_compose(
                            content.as_str(),
                            self.req.base.as_str(),
                            ver.as_str(),
                        );
                        let path = self.req.stack_path.clone();
                        self.state = PipelineState::WritingBack(ver, art, name);
                        PipelineAction::SaveFile { path, content: patched }
                    },
                    Err(e) => {
                        let path = art.clone();
                        self.state = PipelineState::CleaningUp(
                            art,
                            Err(
                                StageFailure {
                                    stage: Stage::FetchDefinition,
                                    error: deploy_of_remote_exec(e),
                                },
                            ),
                        );
                        PipelineAction::RemoveArtifact { path }
                    },
                }
            },
            PipelineEvent::WriteBackFinished(outcome) => {
                let (ver, art, name) = match &self.state {
                    PipelineState::WritingBack(v, a, n) => (v.clone(), a.clone(), n.clone()),
                    _ => unreached(),
                };
                let ghost outcome0 = outcome;
                let dr: Result<(), RemoteError> = match remote_body(outcome) {
                    Err(e) => Err(e),
                    Ok(body) => decode_unit(body.as_str()),
                };
                proof {
                    assert(unit_decode(outcome0, dr));
                }
                match dr {
                    Ok(_) => {
                        let path = self.req.stack_path.clone();
                        self.state = PipelineState::Restarting(ver, art);
                        PipelineAction::OperateStack {
                            name,
                            path,
                            operation: String::from_str("up"),
                        }
                    },
                    Err(e) => {
                        let path = art.clone();
                        self.state = PipelineState::CleaningUp(
                            art,
                            Err(
                                StageFailure {
                                    stage: Stage::WriteBack,
                                    error: deploy_of_remote_exec(e),
                                },
                            ),
                        );
                        PipelineAction::RemoveArtifact { path }
                    },
                }
            },
            PipelineEvent::RestartFinished(outcome) => {
                let (ver, art) = match &self.state {
                    PipelineState::Restarting(v, a) => (v.clone(), a.clone()),
                    _ => unreached(),
                };
                let ghost outcome0 = outcome;
                let dr: Result<(), RemoteError> = match remote_body(outcome) {
                    Err(e) => Err(e),
                    Ok(body) => decode_unit(body.as_str()),
                };
                proof {
                    assert(unit_decode(outcome0, dr));
                }
                match dr {
                    Ok(_) => {
                        let path = art.clone();
                        self.state = PipelineState::CleaningUp(art, Ok(ver));
                        PipelineAction::RemoveArtifact { path }
                    },
                    Err(e) => {
                        let path = art.clone();
                        self.state = PipelineState::CleaningUp(
                            art,
                            Err(
                                StageFailure {
                                    stage: Stage::Restart,
                                    error: deploy_of_remote_exec(e),
                                },
                            ),
                        );
                        PipelineAction::RemoveArtifact { path }
                    },
                }
            },
            PipelineEvent::ArtifactRemoved(_) => {
                let mut taken = PipelineState::Done;
                core::mem::swap(&mut self.state, &mut taken);
                let outcome = match taken {
                    PipelineState::CleaningUp(_, o) => o,
                    _ => unreached(),
                };
                PipelineAction::Finish(outcome)
            },
        }
    }
}

} // verus!
