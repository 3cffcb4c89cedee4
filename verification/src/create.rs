//! Planning a toolbox rootfs creation.
//!
//! Provisioning validates its inputs and then performs a fixed sequence of
//! steps: create the target directory, enter a user namespace under a
//! single root mapping, obtain a tar archive (a local file, or one exported
//! from an OCI image by an engine), extract it, and create the placeholder
//! mount points and the stub resolver file. The validation and the exact
//! shape of every step are decided here; the caller performs the
//! filesystem and subprocess work the plan calls for.

use vstd::prelude::*;

use crate::namespaces::IdMapping;

verus! {

/// The request to create a toolbox rootfs from an image.
#[derive(Debug)]
pub struct Create {
    /// Name of the toolbox.
    pub name: String,
    /// Path to a local tar archive to extract.
    pub tar: Option<String>,
    /// Reference of an OCI image to export.
    pub image: Option<String>,
    /// Engine that exports the OCI image.
    pub engine: Option<Engine>,
    /// Default shell recorded for the toolbox.
    pub shell: Option<String>,
    /// Suppress progress feedback.
    pub quiet: bool,
}

/// The engine that exports an OCI image's filesystem. The two engines speak
/// the same subcommand protocol and differ only in the binary invoked.
#[derive(Clone, Copy, PartialEq, Eq, Structural, Debug)]
pub enum Engine {
    Docker,
    Podman,
}

impl Engine {
    /// The name of the binary this engine is invoked as.
    pub open spec fn binary_spec(&self) -> Seq<char> {
        match *self {
            Engine::Docker => "docker"@,
            Engine::Podman => "podman"@,
        }
    }

    /// The name of the binary this engine is invoked as.
    pub fn binary(&self) -> (s: String)
        ensures
            s@ == self.binary_spec(),
    {
        match *self {
            Engine::Docker => String::from_str("docker"),
            Engine::Podman => String::from_str("podman"),
        }
    }
}

/// Why provisioning failed.
#[derive(Clone, Copy, PartialEq, Eq, Structural, Debug)]
pub enum CreateError {
    /// The target directory already exists; nothing was touched.
    TargetExists,
    /// Neither a local tar path nor a complete image-and-engine pair was
    /// supplied; nothing was touched.
    ConfigurationError,
    /// Creating the user namespace or configuring its mapping failed.
    NamespaceError,
    /// Opening, parsing or writing out the archive failed; the target is
    /// left partially populated.
    ExtractionError,
    /// An engine subcommand could not be run, exited with failure, or its
    /// output held no container id; an ephemeral container may leak.
    EngineError,
}

/// Where the tar archive comes from.
#[derive(Debug)]
pub enum Source {
    /// A local tar archive at this path.
    LocalTar(String),
    /// A tar archive exported from this OCI image by this engine.
    OciImage { reference: String, engine: Engine },
}

/// The validated recipe for one provisioning run, in execution order:
/// create `target`, enter a user namespace under `mapping`, obtain the
/// archive named by `source`, extract it into `target`, create each of
/// `placeholder_dirs`, and create the empty file `resolv_conf` (its parent
/// directory must have come out of the archive).
#[derive(Debug)]
pub struct ProvisionPlan {
    pub target: String,
    pub source: Source,
    pub mapping: IdMapping,
    pub placeholder_dirs: Vec<String>,
    pub resolv_conf: String,
}

/// The placeholder paths of a plan are the four fixed mount points and the
/// stub resolver file under the target.
pub open spec fn fixed_paths_ok(plan: ProvisionPlan, target: Seq<char>) -> bool {
    &&& plan.placeholder_dirs@.len() == 4
    &&& plan.placeholder_dirs@[0]@ == target + "/host"@
    &&& plan.placeholder_dirs@[1]@ == target + "/proc"@
    &&& plan.placeholder_dirs@[2]@ == target + "/sys"@
    &&& plan.placeholder_dirs@[3]@ == target + "/dev"@
    &&& plan.resolv_conf@ == target + "/etc/resolv.conf"@
}

/// The request names no usable source: no local tar archive, and no
/// complete image-and-engine pair.
pub open spec fn source_missing(args: Create) -> bool {
    args.tar is None && (args.image is None || args.engine is None)
}

/// Validate a creation request and lay out the provisioning steps.
///
/// `target` is the resolved rootfs directory for the toolbox, and
/// `target_exists` says whether anything is already at that path; `uid` is
/// the caller's real uid, which the namespace mapping presents as root.
/// No filesystem work happens here: when the request is rejected, nothing
/// has been mutated.
pub fn plan_create(args: &Create, target: &str, target_exists: bool, uid: u32) -> (r: Result<
    ProvisionPlan,
    CreateError,
>)
    ensures
        target_exists ==> r == Err::<ProvisionPlan, CreateError>(CreateError::TargetExists),
        !target_exists && source_missing(*args) ==> r == Err::<ProvisionPlan, CreateError>(
            CreateError::ConfigurationError,
        ),
        !target_exists && !source_missing(*args) ==> {
            &&& r is Ok
            &&& r->Ok_0.target@ == target@
            &&& r->Ok_0.mapping == (IdMapping { inside: 0, outside: uid, len: 1 })
            &&& fixed_paths_ok(r->Ok_0, target@)
            &&& args.tar matches Some(t) ==> (r->Ok_0.source matches Source::LocalTar(p) && p@
                == t@)
            &&& args.tar is None ==> (r->Ok_0.source matches Source::OciImage {
                reference,
                engine,
            } && reference@ == args.image->Some_0@ && engine == args.engine->Some_0)
        },
{
    if target_exists {
        return Err(CreateError::TargetExists);
    }
    let source: Source = match (&args.tar, &args.image, &args.engine) {
        (Some(tar), _, _) => Source::LocalTar(tar.clone()),
        (None, Some(image), Some(engine)) => Source::OciImage {
            reference: image.clone(),
            engine: *engine,
        },
        _ => {
            return Err(CreateError::ConfigurationError);
        },
    };
    let mut placeholder_dirs: Vec<String> = Vec::new();
    placeholder_dirs.push(String::from_str(target).concat("/host"));
    placeholder_dirs.push(String::from_str(target).concat("/proc"));
    placeholder_dirs.push(String::from_str(target).concat("/sys"));
    placeholder_dirs.push(String::from_str(target).concat("/dev"));
    let resolv_conf: String = String::from_str(target).concat("/etc/resolv.conf");
    Ok(
        ProvisionPlan {
            target: String::from_str(target),
            source,
            mapping: IdMapping { inside: 0, outside: uid, len: 1 },
            placeholder_dirs,
            resolv_conf,
        },
    )
}

/// The path the exported archive of a toolbox's image is written to before
/// extraction.
pub fn tar_file_path(name: &str) -> (r: String)
    ensures
        r@ == "/tmp/unbox-"@ + name@ + "-image.tar"@,
{
    String::from_str("/tmp/unbox-").concat(name).concat("-image.tar")
}

} // verus!
