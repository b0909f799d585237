//! Scripts in Docker containers.

use super::laws::law_script_is_run_by_its_language;
use super::types::{ExecutionError, ResourceLimits, ScriptOutput};
use crate::clock::Elapsed;
use crate::ids::{is_uuid, new_uuid};
use crate::responses::code_interpreter::{collect_pieces, written_err, written_out, OutputPiece};
use crate::text::{
    all_ascii, chars_of, is_ascii_lowered, lowered, same_text, string_of, texts, to_lowercase,
};
use crate::text_map::TextMap;
use vstd::prelude::*;
use vstd::string::*;

verus! {

/// The image for Python.
pub const DEFAULT_PYTHON_IMAGE: &'static str = "python:3.11-slim";

/// The image for shells, and for everything that is not known.
pub const DEFAULT_SHELL_IMAGE: &'static str = "alpine:latest";

/// The image for Ruby.
pub const DEFAULT_RUBY_IMAGE: &'static str = "ruby:3.2-slim";

/// The image for JavaScript.
pub const DEFAULT_NODE_IMAGE: &'static str = "node:20-slim";

/// How scripts are run in Docker.
#[derive(Debug)]
pub struct DockerConfig {
    /// The socket, where it is not to be found by itself.
    pub socket: Option<String>,
    /// The image for scripts that are not known.
    pub default_image: String,
    /// The images, by the extension of the script.
    pub images: TextMap<String>,
    /// Whether containers are removed when they are done.
    pub auto_remove: bool,
    /// Whether the file system is read-only.
    pub read_only: bool,
    /// The network that scripts get that may not use the network.
    pub network_mode: String,
    /// What the names of containers begin with.
    pub container_prefix: String,
    /// Whether images that are missing are fetched.
    pub auto_pull: bool,
}

/// The image for scripts that are not known, by default.
pub fn default_image() -> (r: String)
    ensures
        r@ == DEFAULT_SHELL_IMAGE@,
{
    DEFAULT_SHELL_IMAGE.to_owned()
}

/// The image for an extension, by default.
pub open spec fn default_image_for(ext: Seq<char>) -> Option<Seq<char>> {
    if ext == "py"@ {
        Some(DEFAULT_PYTHON_IMAGE@)
    } else if ext == "sh"@ || ext == "bash"@ {
        Some(DEFAULT_SHELL_IMAGE@)
    } else if ext == "rb"@ {
        Some(DEFAULT_RUBY_IMAGE@)
    } else if ext == "js"@ {
        Some(DEFAULT_NODE_IMAGE@)
    } else {
        None
    }
}

/// `m` holds the images by default.
pub open spec fn are_default_images(m: Map<Seq<char>, String>) -> bool {
    forall|k: Seq<char>|
        if #[trigger] m.dom().contains(k) {
            default_image_for(k) == Some(m[k]@)
        } else {
            default_image_for(k) is None
        }
}

/// The images by default.
pub fn default_images() -> (r: TextMap<String>)
    ensures
        are_default_images(r@),
{
    let mut images: TextMap<String> = TextMap::new();
    images.insert("py".to_owned(), DEFAULT_PYTHON_IMAGE.to_owned());
    images.insert("sh".to_owned(), DEFAULT_SHELL_IMAGE.to_owned());
    images.insert("bash".to_owned(), DEFAULT_SHELL_IMAGE.to_owned());
    images.insert("rb".to_owned(), DEFAULT_RUBY_IMAGE.to_owned());
    images.insert("js".to_owned(), DEFAULT_NODE_IMAGE.to_owned());
    proof {
        reveal_strlit("py");
        reveal_strlit("sh");
        reveal_strlit("bash");
        reveal_strlit("rb");
        reveal_strlit("js");
        assert("py"@[0] == 'p' && "sh"@[0] == 's' && "bash"@[0] == 'b' && "rb"@[0] == 'r' && "js"@[0]
            == 'j');
        assert("bash"@.len() == 4 && "rb"@.len() == 2);
    }
    images
}

/// Yes, by default.
pub fn default_true() -> (r: bool)
    ensures
        r,
{
    true
}

/// The network by default: none.
pub fn default_network_mode() -> (r: String)
    ensures
        r@ == "none"@,
{
    "none".to_owned()
}

/// What the names of containers begin with, by default.
pub fn default_container_prefix() -> (r: String)
    ensures
        r@ == "llama-nexus-exec"@,
{
    "llama-nexus-exec".to_owned()
}

impl Default for DockerConfig {
    fn default() -> (r: DockerConfig)
        ensures
            r.socket is None,
            r.default_image@ == DEFAULT_SHELL_IMAGE@,
            are_default_images(r.images@),
            r.auto_remove,
            r.read_only,
            r.network_mode@ == "none"@,
            r.container_prefix@ == "llama-nexus-exec"@,
            r.auto_pull,
    {
        DockerConfig {
            socket: None,
            default_image: default_image(),
            images: default_images(),
            auto_remove: default_true(),
            read_only: default_true(),
            network_mode: default_network_mode(),
            container_prefix: default_container_prefix(),
            auto_pull: default_true(),
        }
    }
}

// ---------------------------------------------------------------------------
// Images
// ---------------------------------------------------------------------------

/// The last position of `c` in `s`.
pub open spec fn last_of(s: Seq<char>, c: char) -> Option<int>
    decreases s.len(),
{
    if s.len() == 0 {
        None
    } else if s.last() == c {
        Some(s.len() - 1)
    } else {
        last_of(s.drop_last(), c)
    }
}

/// The name and the tag of an image. What stands behind the last colon is the tag,
/// unless there is a slash in it: then it belongs to the port of a registry.
pub open spec fn image_parts(s: Seq<char>) -> (Seq<char>, Seq<char>) {
    match last_of(s, ':') {
        Some(i) if !s.skip(i + 1).contains('/') => (s.take(i), s.skip(i + 1)),
        _ => (s, "latest"@),
    }
}

/// The name and the tag of an image.
pub fn parse_image_tag(image: &str) -> (r: (String, String))
    ensures
        (r.0@, r.1@) == image_parts(image@),
{
    let x = chars_of(image);
    let n: usize = x.len();
    let mut i: usize = n;
    assert(x@.take(n as int) =~= x@);
    while i > 0
        invariant
            x@ == image@,
            n == x@.len(),
            i <= n,
            last_of(x@, ':') == last_of(x@.take(i as int), ':'),
            forall|j: int| i <= j < n ==> x@[j] != ':' && x@[j] != '/',
        decreases i,
    {
        let ghost t = x@.take(i as int);
        assert(t.last() == x@[i - 1]);
        assert(t.drop_last() =~= x@.take(i - 1));
        if x[i - 1] == ':' {
            assert(!x@.skip(i as int).contains('/')) by {
                if x@.skip(i as int).contains('/') {
                    let j = choose|j: int|
                        0 <= j < x@.skip(i as int).len() && x@.skip(i as int)[j] == '/';
                    assert(x@[i + j] == '/');
                }
            }
            assert(x@.take(i - 1) =~= x@.subrange(0, i - 1));
            assert(x@.skip(i as int) =~= x@.subrange(i as int, n as int));
            return (string_of(&x, 0, i - 1), string_of(&x, i, n));
        }
        if x[i - 1] == '/' {
            proof {
                let at = last_of(x@, ':');
                lemma_last_of(x@.take(i as int), ':');
                if at is Some {
                    let k = at->0;
                    assert(x@.skip(k + 1)[i - 1 - (k + 1)] == '/');
                }
            }
            return (image.to_owned(), "latest".to_owned());
        }
        i = i - 1;
    }
    (image.to_owned(), "latest".to_owned())
}

proof fn lemma_last_of(s: Seq<char>, c: char)
    ensures
        match last_of(s, c) {
            Some(i) => 0 <= i < s.len() && s[i] == c,
            None => true,
        },
        s.len() > 0 && s.last() != c ==> (last_of(s, c) matches Some(i) ==> i < s.len() - 1),
    decreases s.len(),
{
    if s.len() > 0 && s.last() != c {
        lemma_last_of(s.drop_last(), c);
    }
}

// ---------------------------------------------------------------------------
// The executor
// ---------------------------------------------------------------------------

/// Runs scripts in containers.
#[derive(Debug)]
pub struct DockerExecutor {
    pub config: DockerConfig,
}

/// What runs a script with this extension.
pub open spec fn interpreter(ext: Seq<char>) -> Seq<char> {
    if ext == "py"@ {
        "python"@
    } else if ext == "rb"@ {
        "ruby"@
    } else if ext == "js"@ {
        "node"@
    } else {
        "sh"@
    }
}

/// What is to be done about an image.
#[derive(Debug, Clone)]
pub enum ImageStep {
    /// Nothing: it is there.
    Ready,
    /// It is to be fetched: its name and its tag.
    Pull(String, String),
    /// It is missing and may not be fetched.
    Missing(ExecutionError),
}

/// A script, by what its path says: the extension and the name of the file, where they
/// are text, and the directory, where there is one.
#[derive(Debug, Clone)]
pub struct ScriptPath {
    pub extension: Option<String>,
    pub file_name: Option<String>,
    pub parent: Option<String>,
}

/// A container that is to be created.
#[derive(Debug)]
pub struct ContainerPlan {
    pub name: String,
    pub image: String,
    pub cmd: Vec<String>,
    pub env: Vec<String>,
    /// The directory that is mounted, read-only, as `/scripts`.
    pub mount_source: String,
    pub memory: u64,
    pub network_mode: Option<String>,
    pub readonly_rootfs: bool,
}

/// The extension of a script in lower case, `sh` where it has none.
pub open spec fn script_extension(p: ScriptPath) -> Seq<char> {
    match p.extension {
        Some(e) => lowered(e@),
        None => "sh"@,
    }
}

/// The path of a script in its container.
pub open spec fn container_path(p: ScriptPath) -> Seq<char> {
    "/scripts/"@ + match p.file_name {
        Some(n) => n@,
        None => "script"@,
    }
}

/// A variable as Docker takes it.
pub open spec fn env_entry(e: (String, String)) -> Seq<char> {
    e.0@ + "="@ + e.1@
}

/// `p` is a container that runs the script at `path`, in the directory `dir`, with these
/// arguments and variables and within these limits.
pub open spec fn is_container_for(
    config: DockerConfig,
    ext: Seq<char>,
    path: ScriptPath,
    dir: Seq<char>,
    args: Seq<String>,
    env: Seq<(String, String)>,
    limits: ResourceLimits,
    p: ContainerPlan,
) -> bool {
    &&& p.image@ == image_for(config, ext)
    &&& texts(p.cmd@) == seq![interpreter(ext), container_path(path)] + texts(args)
    &&& texts(p.env@) == env.map_values(|e: (String, String)| env_entry(e))
    &&& p.mount_source@ == dir
    &&& p.memory == limits.max_memory_bytes
    &&& crate::pattern::opt_text(p.network_mode) == (if limits.network_access {
        None
    } else {
        Some(config.network_mode@)
    })
    &&& p.readonly_rootfs == config.read_only
}

/// `r` is the name of a container with this identifier.
pub open spec fn is_container_name(prefix: Seq<char>, id: Seq<char>, r: Seq<char>) -> bool {
    r == prefix + "-"@ + id.take(8)
}

/// `r` is what a script gave that wrote these pieces and ended with this code.
pub open spec fn is_output_of(
    pieces: Seq<OutputPiece>,
    code: Option<i32>,
    duration: Elapsed,
    r: ScriptOutput,
) -> bool {
    &&& r.stdout@ == written_out(pieces)
    &&& r.stderr@ == written_err(pieces)
    &&& match code {
        Some(n) => r.exit_code == n && !r.timed_out,
        None => r.exit_code == -1 && r.timed_out,
    }
    &&& r.duration == duration
}

/// The image for an extension.
pub open spec fn image_for(config: DockerConfig, ext: Seq<char>) -> Seq<char> {
    if config.images@.dom().contains(ext) {
        config.images@[ext]@
    } else {
        config.default_image@
    }
}

impl DockerExecutor {
    /// An executor with this configuration.
    pub fn with_config(config: DockerConfig) -> (r: DockerExecutor)
        ensures
            r.config == config,
    {
        DockerExecutor { config }
    }

    /// Its name.
    pub fn name(&self) -> (r: &'static str)
        ensures
            r@ == "docker"@,
    {
        "docker"
    }

    /// The extensions of the scripts that it runs.
    pub fn supported_extensions(&self) -> (r: Vec<&'static str>)
        ensures
            crate::text::slices(r@) == seq!["py"@, "sh"@, "bash"@, "rb"@],
    {
        let mut v: Vec<&'static str> = Vec::new();
        v.push("py");
        v.push("sh");
        v.push("bash");
        v.push("rb");
        assert(crate::text::slices(v@) =~= seq!["py"@, "sh"@, "bash"@, "rb"@]);
        v
    }

    /// The image for an extension: the configured one, or the default.
    pub fn get_image(&self, extension: &str) -> (r: &str)
        ensures
            r@ == image_for(self.config, extension@),
    {
        match self.config.images.get(extension) {
            Some(s) => s.as_str(),
            None => self.config.default_image.as_str(),
        }
    }

    /// The command that runs a script.
    pub fn build_command(&self, extension: &str, script_path: &str, args: &Vec<String>) -> (r: Vec<
        String,
    >)
        ensures
            texts(r@) == seq![interpreter(extension@), script_path@] + texts(args@),
            r@.len() == args@.len() + 2,
            extension@ == "py"@ ==> r@[0]@ == "python"@,
            extension@ == "rb"@ ==> r@[0]@ == "ruby"@,
            extension@ == "js"@ ==> r@[0]@ == "node"@,
            extension@ == "sh"@ || extension@ == "bash"@ ==> r@[0]@ == "sh"@,
            r@[1]@ == script_path@,
            forall|i: int| 0 <= i < args@.len() ==> (#[trigger] r@[i + 2])@ == args@[i]@,
    {
        let first = if same_text(extension, "py") {
            "python"
        } else if same_text(extension, "rb") {
            "ruby"
        } else if same_text(extension, "js") {
            "node"
        } else {
            "sh"
        };
        let mut cmd: Vec<String> = Vec::new();
        cmd.push(first.to_owned());
        cmd.push(script_path.to_owned());
        let ghost head = cmd@;
        let mut i: usize = 0;
        while i < args.len()
            invariant
                i <= args@.len(),
                cmd@ == head + args@.take(i as int),
            decreases args@.len() - i,
        {
            cmd.push(args[i].clone());
            assert(args@.take(i + 1) =~= args@.take(i as int).push(args@[i as int]));
            i = i + 1;
        }
        assert(args@.take(args@.len() as int) =~= args@);
        assert(texts(cmd@) =~= seq![interpreter(extension@), script_path@] + texts(args@));
        proof {
            law_script_is_run_by_its_language(extension@, script_path@, args@, cmd@);
        }
        cmd
    }

    /// The name of a container with this identifier: what names begin with, and the first
    /// eight characters of the identifier.
    pub fn container_name(&self, id: &str) -> (r: String)
        requires
            id@.len() >= 8,
        ensures
            r@ == self.config.container_prefix@ + "-"@ + id@.take(8),
            is_container_name(self.config.container_prefix@, id@, r@),
    {
        let x = chars_of(id);
        let mut r = self.config.container_prefix.clone();
        r.append("-");
        r.append(string_of(&x, 0, 8).as_str());
        assert(id@.take(8) =~= x@.subrange(0, 8));
        r
    }

    /// A name for a container.
    pub fn generate_container_name(&self) -> (r: String)
        ensures
            exists|id: Seq<char>|
                is_uuid(id) && r@ == self.config.container_prefix@ + "-"@ + #[trigger] id.take(8),
    {
        let id = new_uuid();
        let r = self.container_name(id.as_str());
        assert(is_uuid(id@) && r@ == self.config.container_prefix@ + "-"@ + id@.take(8));
        r
    }

    /// What is to be done about an image that is there or not.
    pub fn ensure_image(&self, image: &str, present: bool) -> (r: ImageStep)
        ensures
            if present {
                r is Ready
            } else if self.config.auto_pull {
                r matches ImageStep::Pull(name, tag) && (name@, tag@) == image_parts(image@)
            } else {
                r matches ImageStep::Missing(e) && e.is_runtime(
                    "docker"@,
                    "image "@ + image@ + " not found locally and auto_pull is disabled"@,
                )
            },
    {
        if present {
            return ImageStep::Ready;
        }
        if !self.config.auto_pull {
            let mut m = "image ".to_owned();
            m.append(image);
            m.append(" not found locally and auto_pull is disabled");
            return ImageStep::Missing(ExecutionError::runtime("docker", m));
        }
        let (name, tag) = parse_image_tag(image);
        ImageStep::Pull(name, tag)
    }

    /// The extension of a script in lower case.
    pub fn extension_of(path: &ScriptPath) -> (r: String)
        ensures
            r@ == script_extension(*path),
            path.extension matches Some(e) ==> (all_ascii(e@) ==> is_ascii_lowered(e@, r@)),
    {
        match &path.extension {
            Some(e) => to_lowercase(e.as_str()),
            None => "sh".to_owned(),
        }
    }

    /// The container named `name` for a script with this extension.
    pub fn plan_container(
        &self,
        name: String,
        extension: &str,
        path: &ScriptPath,
        args: &Vec<String>,
        env: &TextMap<String>,
        limits: ResourceLimits,
    ) -> (r: Result<ContainerPlan, ExecutionError>)
        ensures
            match path.parent {
                None => r matches Err(e) && e.is_runtime("docker"@, "invalid script path"@),
                Some(dir) => r matches Ok(p) && p.name == name && p.image@ == image_for(
                    self.config,
                    extension@,
                ) && texts(p.cmd@) == seq![interpreter(extension@), container_path(*path)] + texts(
                    args@,
                ) && texts(p.env@) == env.listed().map_values(|e: (String, String)| env_entry(e))
                    && p.mount_source == dir && p.memory == limits.max_memory_bytes
                    && crate::pattern::opt_text(p.network_mode) == (if limits.network_access {
                    None
                } else {
                    Some(self.config.network_mode@)
                }) && p.readonly_rootfs == self.config.read_only,
            },
            path.parent matches Some(dir) ==> (r matches Ok(p) && is_container_for(
                self.config,
                extension@,
                *path,
                dir@,
                args@,
                env.listed(),
                limits,
                p,
            )),
    {
        let mut script = "/scripts/".to_owned();
        match &path.file_name {
            Some(n) => script.append(n.as_str()),
            None => script.append("script"),
        }
        let cmd = self.build_command(extension, script.as_str(), args);
        let ghost all = env.listed();
        let n: usize = env.len();
        let mut vars: Vec<String> = Vec::new();
        let mut i: usize = 0;
        while i < n
            invariant
                i <= n,
                n == all.len(),
                all == env.listed(),
                vars@.len() == i,
                forall|j: int| 0 <= j < i ==> (#[trigger] vars@[j])@ == env_entry(all[j]),
            decreases n - i,
        {
            let mut v = env.key_at(i).clone();
            v.append("=");
            v.append(env.value_at(i).as_str());
            vars.push(v);
            i = i + 1;
        }
        assert(texts(vars@) =~= all.map_values(|e: (String, String)| env_entry(e)));
        match &path.parent {
            None => Err(ExecutionError::runtime("docker", "invalid script path".to_owned())),
            Some(dir) => Ok(
                ContainerPlan {
                    name,
                    image: self.get_image(extension).to_owned(),
                    cmd,
                    env: vars,
                    mount_source: dir.clone(),
                    memory: limits.max_memory_bytes,
                    network_mode: if limits.network_access {
                        None
                    } else {
                        Some(self.config.network_mode.clone())
                    },
                    readonly_rootfs: self.config.read_only,
                },
            ),
        }
    }
}

/// How the wait for a container ended.
#[derive(Debug, Clone)]
pub enum WaitEnd {
    /// The container ended with this status.
    Exited(i64),
    /// The wait failed.
    Failed(String),
    /// The wait ended without a word.
    Silent,
    /// It took too long.
    TimedOut,
}

/// What is to be done with a container after the wait.
#[derive(Debug, Clone)]
pub enum AfterWait {
    /// Its output is to be read; this is its exit code.
    ReadLogs(i32),
    /// It is to be killed, and its output read.
    KillAndReadLogs,
    /// It is to be removed, and the error told.
    RemoveAndFail(ExecutionError),
}

#[verifier::truncate]
fn exit_code(status: i64) -> (r: i32)
    ensures
        r == status as i32,
{
    status as i32
}

/// What is to be done with a container after the wait.
pub fn after_wait(end: WaitEnd) -> (r: AfterWait)
    ensures
        match end {
            WaitEnd::Exited(s) => r == AfterWait::ReadLogs(s as i32),
            WaitEnd::Silent => r == AfterWait::ReadLogs(0),
            WaitEnd::TimedOut => r is KillAndReadLogs,
            WaitEnd::Failed(e) => r matches AfterWait::RemoveAndFail(x) && x.is_runtime(
                "docker"@,
                "container wait error: "@ + e@,
            ),
        },
{
    match end {
        WaitEnd::Exited(s) => AfterWait::ReadLogs(exit_code(s)),
        WaitEnd::Silent => AfterWait::ReadLogs(0),
        WaitEnd::TimedOut => AfterWait::KillAndReadLogs,
        WaitEnd::Failed(e) => {
            let mut m = "container wait error: ".to_owned();
            m.append(e.as_str());
            AfterWait::RemoveAndFail(ExecutionError::runtime("docker", m))
        },
    }
}

/// What a script gave: its output, and its exit code unless it took too long.
pub fn script_output(pieces: &Vec<OutputPiece>, code: Option<i32>, duration: Elapsed) -> (r: ScriptOutput)
    ensures
        r.stdout@ == written_out(pieces@),
        r.stderr@ == written_err(pieces@),
        r.exit_code == match code {
            Some(n) => n as int,
            None => -1,
        },
        r.timed_out == (code is None),
        r.duration == duration,
        is_output_of(pieces@, code, duration, r),
{
    let (stdout, stderr) = collect_pieces(pieces);
    let (exit_code, timed_out) = match code {
        Some(n) => (n, false),
        None => (-1i32, true),
    };
    ScriptOutput { stdout, stderr, exit_code, duration, timed_out }
}

} // verus!
