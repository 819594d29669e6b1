//! The plain data records the dashboard moves around: configured servers and
//! repositories, container-engine summaries, and the request and response
//! bodies of the management endpoints. They carry no behaviour of their own;
//! the pipeline and the protocol modules state everything over their fields.

use vstd::prelude::*;

verus! {

/// A configured remote host: identity, network address, shared credential.
#[derive(Debug, Clone, PartialEq, Eq)]
pub struct Server {
    pub id: i64,
    pub name: String,
    pub host: String,
    pub port: u16,
    pub api_key: String,
}

impl Server {
    /// The record as it is listed: every field but the credential, which
    /// never leaves the store.
    pub fn response(&self) -> (r: ServerResponse)
        ensures
            r.id == self.id,
            r.name@ == self.name@,
            r.host@ == self.host@,
            r.port == self.port,
    {
        ServerResponse {
            id: self.id,
            name: self.name.clone(),
            host: self.host.clone(),
            port: self.port,
        }
    }
}

/// A container as a remote host reports it.
#[derive(Debug, Clone, PartialEq, Eq)]
pub struct Container {
    pub id: String,
    pub name: String,
    pub image: String,
    pub state: String,
    pub status: String,
}

/// A request to start, stop or remove containers by name.
#[derive(Debug, Clone, PartialEq, Eq)]
pub struct ContainerOperationReq {
    pub names: Vec<String>,
    pub operation: String,
}

/// A request to inspect one object by id and kind.
#[derive(Debug, Clone, PartialEq, Eq)]
pub struct InspectReq {
    pub id: String,
    pub type_: String,
}

/// A tracked project: its local directory and its deployment configuration.
#[derive(Debug, Clone, PartialEq, Eq)]
pub struct Repository {
    pub id: i64,
    pub path: String,
    pub name: Option<String>,
    pub docker_image_name: Option<String>,
}

/// A request to track a directory.
#[derive(Debug, Clone, PartialEq, Eq)]
pub struct CreateDirectoryRequest {
    pub path: String,
}

/// A request to add or update a server record.
#[derive(Debug, Clone, PartialEq, Eq)]
pub struct CreateServerRequest {
    pub name: String,
    pub host: String,
    pub port: u16,
    pub api_key: String,
}

/// A server record as it is listed, without its credential.
#[derive(Debug, Clone, PartialEq, Eq)]
pub struct ServerResponse {
    pub id: i64,
    pub name: String,
    pub host: String,
    pub port: u16,
}

/// Operating-system facts a remote host reports about itself.
#[derive(Debug, Clone, PartialEq, Eq)]
pub struct OsInfo {
    pub os: String,
    pub platform: String,
    pub platform_family: String,
    pub kernel_arch: String,
    pub kernel_version: String,
    pub disk_size: u64,
}

/// The envelope of the host's dashboard endpoint.
#[derive(Debug, Clone, PartialEq, Eq)]
pub struct DashboardResponse {
    pub code: i32,
    pub message: String,
    pub data: Option<OsInfo>,
}

/// A request to push a built image to a server.
#[derive(Debug, Clone, PartialEq, Eq)]
pub struct PushImageReq {
    pub server_id: i64,
    pub image_tag: String,
}

/// A request to set a project's image base name.
#[derive(Debug, Clone, PartialEq, Eq)]
pub struct UpdateDockerConfigReq {
    pub path: String,
    pub docker_image_name: String,
}

/// A request to read a project's image configuration.
#[derive(Debug, Clone, PartialEq, Eq)]
pub struct GetDockerConfigReq {
    pub path: String,
}

/// The local container engine's identity and object counts.
#[derive(Debug, Clone, PartialEq, Eq)]
pub struct DockerInfo {
    pub version: String,
    pub containers: usize,
    pub images: usize,
    pub status: String,
}

/// A request to build a directory into an image at a version.
#[derive(Debug, Clone, PartialEq, Eq)]
pub struct DockerBuildRequest {
    pub path: String,
    pub image_name: String,
    pub version: String,
}

/// A local image: id, tags, and whether a container uses it.
#[derive(Debug, Clone, PartialEq, Eq)]
pub struct DockerImage {
    pub id: String,
    pub tags: Vec<String>,
    pub created: i64,
    pub size: i64,
    pub is_used: bool,
}

/// A local container as the engine lists it.
#[derive(Debug, Clone, PartialEq, Eq)]
pub struct ContainerSummary {
    pub id: String,
    pub names: Vec<String>,
    pub image: String,
    pub state: String,
    pub status: String,
}

/// A request to pull an image by reference.
#[derive(Debug, Clone, PartialEq, Eq)]
pub struct PullImageRequest {
    pub image: String,
}

/// A request to list the local tags of one image base name.
#[derive(Debug, Clone, PartialEq, Eq)]
pub struct ListTagsRequest {
    pub image: String,
}

/// A request for a stack definition's text.
#[derive(Debug, Clone, PartialEq, Eq)]
pub struct GetContentReq {
    pub path: String,
}

/// A request to remove a remote image.
#[derive(Debug, Clone, PartialEq, Eq)]
pub struct RemoveImageReq {
    pub id: String,
    pub force: bool,
}

/// A query for every deployment of one image base name.
#[derive(Debug, Clone, PartialEq, Eq)]
pub struct ImageDeploymentsQuery {
    pub image_base: String,
}

/// One place an image is deployed: the server, the stack, and the exact
/// reference found in its definition.
#[derive(Debug, Clone, PartialEq, Eq)]
pub struct ImageDeployment {
    pub server_id: i64,
    pub server_name: String,
    pub compose_name: String,
    pub image_tag: String,
}

/// A request to build one tracked project, named by path or loosely.
#[derive(Debug, Clone, PartialEq, Eq)]
pub struct BuildImageTool {
    pub path: String,
}

/// A request to build one tracked project and deploy it to its configured
/// host and stack.
#[derive(Debug, Clone, PartialEq, Eq)]
pub struct BuildAndDeployTool {
    pub path: String,
}

/// One file of a repository's status listing.
#[derive(Debug, Clone, PartialEq, Eq)]
pub struct FileStatus {
    pub path: String,
    pub status: String,
}

} // verus!
