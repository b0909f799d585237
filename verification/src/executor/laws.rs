//! What holds of scripts and their containers.

use super::docker::{
    are_default_images, container_path, default_image_for, env_entry, image_for, image_parts,
    interpreter, is_container_for, is_container_name, is_output_of, last_of, script_extension,
    ContainerPlan, DockerConfig, ScriptPath,
};
use super::types::{ExecutionError, ResourceLimits, ScriptOutput};
use crate::text::{begins_with, has_text, lemma_has_end, lemma_has_middle, lowered, texts};
use crate::clock::Elapsed;
use crate::responses::code_interpreter::{written_err, written_out, OutputPiece};
use vstd::prelude::*;
use vstd::string::*;

verus! {

/// Extensions differ from each other.
proof fn lemma_extensions()
    ensures
        "py"@ != "rb"@,
        "py"@ != "js"@,
        "py"@ != "sh"@,
        "py"@ != "bash"@,
        "rb"@ != "js"@,
        "rb"@ != "sh"@,
        "rb"@ != "bash"@,
        "js"@ != "sh"@,
        "js"@ != "bash"@,
        "sh"@ != "bash"@,
{
    reveal_strlit("py");
    reveal_strlit("rb");
    reveal_strlit("js");
    reveal_strlit("sh");
    reveal_strlit("bash");
    assert("py"@[0] != "rb"@[0]);
    assert("py"@[0] != "js"@[0]);
    assert("py"@[0] != "sh"@[0]);
    assert("rb"@[0] != "js"@[0]);
    assert("rb"@[0] != "sh"@[0]);
    assert("js"@[0] != "sh"@[0]);
    assert("bash"@.len() == 4);
}

/// The command for a script begins with the word that runs its language: `python` for
/// `py`, `ruby` for `rb`, `node` for `js`, and `sh` for `sh`, `bash` and everything else.
pub proof fn law_script_is_run_by_its_language(
    ext: Seq<char>,
    path: Seq<char>,
    args: Seq<String>,
    cmd: Seq<String>,
)
    requires
        texts(cmd) == seq![interpreter(ext), path] + texts(args),
    ensures
        cmd.len() == args.len() + 2,
        ext == "rb"@ ==> cmd[0]@ == "ruby"@,
        ext == "py"@ ==> cmd[0]@ == "python"@,
        ext == "js"@ ==> cmd[0]@ == "node"@,
        ext == "sh"@ ==> cmd[0]@ == "sh"@,
        ext == "bash"@ ==> cmd[0]@ == "sh"@,
        ext != "rb"@ && ext != "py"@ && ext != "js"@ ==> cmd[0]@ == "sh"@,
        cmd[1]@ == path,
        forall|i: int| 0 <= i < args.len() ==> (#[trigger] cmd[i + 2])@ == args[i]@,
{
    lemma_extensions();
    let t = texts(cmd);
    assert(t.len() == cmd.len());
    assert(texts(args).len() == args.len());
    assert(t[0] == cmd[0]@);
    assert(t[1] == cmd[1]@);
    assert forall|i: int| 0 <= i < args.len() implies (#[trigger] cmd[i + 2])@ == args[i]@ by {
        assert(t[i + 2] == cmd[i + 2]@);
        assert(texts(args)[i] == args[i]@);
    }
}

/// By default every language has its own image, and shells and everything else have
/// the small one.
pub proof fn law_languages_have_their_images(config: DockerConfig)
    requires
        are_default_images(config.images@),
        config.default_image@ == "alpine:latest"@,
    ensures
        image_for(config, "py"@) == "python:3.11-slim"@,
        image_for(config, "rb"@) == "ruby:3.2-slim"@,
        image_for(config, "js"@) == "node:20-slim"@,
        image_for(config, "sh"@) == "alpine:latest"@,
        image_for(config, "bash"@) == "alpine:latest"@,
        forall|e: Seq<char>|
            e != "py"@ && e != "rb"@ && e != "js"@ ==> #[trigger] image_for(config, e)
                == "alpine:latest"@,
{
    lemma_extensions();
    let m = config.images@;
    assert(m.dom().contains("py"@) || default_image_for("py"@) is None);
    assert(m.dom().contains("rb"@) || default_image_for("rb"@) is None);
    assert(m.dom().contains("js"@) || default_image_for("js"@) is None);
    assert(m.dom().contains("sh"@) || default_image_for("sh"@) is None);
    assert(m.dom().contains("bash"@) || default_image_for("bash"@) is None);
    assert forall|e: Seq<char>| e != "py"@ && e != "rb"@ && e != "js"@ implies #[trigger] image_for(
        config,
        e,
    ) == "alpine:latest"@ by {
        assert(m.dom().contains(e) || default_image_for(e) is None);
    }
}

/// An image that is configured for an extension is used for it.
pub proof fn law_configured_image_is_used(config: DockerConfig, ext: Seq<char>)
    ensures
        config.images@.dom().contains(ext) ==> image_for(config, ext) == config.images@[ext]@,
        !config.images@.dom().contains(ext) ==> image_for(config, ext) == config.default_image@,
{
}

/// A script lies below `/scripts/` in its container, under the name of its file.
pub proof fn law_script_keeps_its_name(p: ScriptPath)
    ensures
        begins_with(container_path(p), "/scripts/"@),
        p.file_name matches Some(n) ==> container_path(p).skip(9) == n@,
        p.file_name is None ==> container_path(p).skip(9) == "script"@,
        p.extension is None ==> script_extension(p) == "sh"@,
{
    reveal_strlit("/scripts/");
    let c = container_path(p);
    assert(c.subrange(0, 9) =~= "/scripts/"@);
    match p.file_name {
        Some(n) => {
            assert(c.skip(9) =~= n@);
        },
        None => {
            assert(c.skip(9) =~= "script"@);
        },
    }
}

/// Every variable reaches its container with its name and its value, and in order.
pub proof fn law_variables_reach_the_container(
    env: Seq<(String, String)>,
    r: Seq<String>,
    i: int,
)
    requires
        texts(r) == env.map_values(|e: (String, String)| env_entry(e)),
        0 <= i < env.len(),
    ensures
        r.len() == env.len(),
        r[i]@.len() == env[i].0@.len() + 1 + env[i].1@.len(),
        r[i]@.take(env[i].0@.len() as int) == env[i].0@,
        r[i]@[env[i].0@.len() as int] == '=',
        r[i]@.skip(env[i].0@.len() as int + 1) == env[i].1@,
{
    reveal_strlit("=");
    let t = texts(r);
    assert(t.len() == r.len());
    assert(t[i] == r[i]@);
    let e = env[i];
    assert(r[i]@.take(e.0@.len() as int) =~= e.0@);
    assert(r[i]@.skip(e.0@.len() as int + 1) =~= e.1@);
}

proof fn lemma_last_of(s: Seq<char>, c: char)
    ensures
        match last_of(s, c) {
            Some(i) => 0 <= i < s.len() && s[i] == c && forall|j: int|
                i < j < s.len() ==> #[trigger] s[j] != c,
            None => !s.contains(c),
        },
    decreases s.len(),
{
    if s.len() > 0 && s.last() != c {
        let t = s.drop_last();
        lemma_last_of(t, c);
        match last_of(t, c) {
            Some(i) => {
                assert(t[i] == s[i]);
                assert forall|j: int| i < j < s.len() implies #[trigger] s[j] != c by {
                    if j < t.len() {
                        assert(t[j] == s[j]);
                    }
                }
            },
            None => {
                assert forall|j: int| 0 <= j < s.len() implies #[trigger] s[j] != c by {
                    if j < t.len() {
                        assert(t[j] == s[j]);
                        assert(t.contains(t[j]));
                    }
                }
            },
        }
    }
}

/// The tag of an image is what stands behind its last colon: a name without slash and
/// colon behind a colon is read back as the tag, and what is in front as the name.
pub proof fn law_tag_is_read_back(name: Seq<char>, tag: Seq<char>)
    requires
        !tag.contains(':'),
        !tag.contains('/'),
    ensures
        image_parts(name + seq![':'] + tag) == (name, tag),
{
    let s = name + seq![':'] + tag;
    let n = name.len() as int;
    lemma_last_of(s, ':');
    assert(s[n] == ':');
    assert(s.contains(':'));
    let i = last_of(s, ':')->0;
    if i > n {
        assert(s[i] == tag[i - n - 1]);
        assert(tag.contains(s[i]));
    }
    assert(s.take(n) =~= name);
    assert(s.skip(n + 1) =~= tag);
}

/// An image without a tag is meant as the latest: one without colon, and one whose last
/// colon stands in front of a slash.
pub proof fn law_untagged_image_is_the_latest(s: Seq<char>, j: int)
    ensures
        !s.contains(':') ==> image_parts(s) == (s, "latest"@),
        0 <= j < s.len() && s[j] == '/' && (forall|k: int| j < k < s.len() ==> s[k] != ':')
            ==> image_parts(s) == (s, "latest"@),
{
    lemma_last_of(s, ':');
    if let Some(i) = last_of(s, ':') {
        assert(s.contains(s[i]));
        if 0 <= j < s.len() && s[j] == '/' && (forall|k: int| j < k < s.len() ==> s[k] != ':') {
            assert(i < j);
            assert(s.skip(i + 1)[j - i - 1] == s[j]);
            assert(s.skip(i + 1).contains('/'));
        }
    }
}

/// An error in words tells the executor that it speaks of, and what went wrong.
pub proof fn law_error_tells_what_went_wrong(e: String, m: String)
    ensures
        ExecutionError::ScriptNotFound(m).words() == "Script not found: "@ + m@,
        ExecutionError::ConfigError(m).words() == "Configuration error: "@ + m@,
        has_text(ExecutionError::ExecutorUnavailable(e, m).words(), e@),
        has_text(ExecutionError::ExecutorUnavailable(e, m).words(), "' unavailable: "@ + m@),
        has_text(ExecutionError::Runtime(e, m).words(), e@),
        has_text(ExecutionError::Runtime(e, m).words(), "' failed: "@ + m@),
{
    let head = "Executor '"@;
    let a = ExecutionError::ExecutorUnavailable(e, m).words();
    let b = ExecutionError::Runtime(e, m).words();
    assert(a =~= head + e@ + ("' unavailable: "@ + m@));
    assert(b =~= head + e@ + ("' failed: "@ + m@));
    lemma_has_middle(head, e@, "' unavailable: "@ + m@);
    lemma_has_middle(head, e@, "' failed: "@ + m@);
    lemma_has_end(head + e@, "' unavailable: "@ + m@);
    lemma_has_end(head + e@, "' failed: "@ + m@);
}

/// What is said of a failure tells the executor and the message.
pub proof fn law_kinds_of_failures(e: ExecutionError, executor: Seq<char>, m: Seq<char>)
    ensures
        e.is_runtime(executor, m) <==> (e matches ExecutionError::Runtime(x, t) && x@ == executor
            && t@ == m),
{
}

/// A script is known by its extension in lower case.
pub proof fn law_extension_in_lower_case(p: ScriptPath)
    ensures
        p.extension matches Some(e) ==> script_extension(p) == lowered(e@),
{
}

/// A container runs its script: the word that runs its language, the script by the name of
/// its file, then the arguments; with the variables, in the directory of the script, within
/// the limit of memory, and with a network only where it may use one.
pub proof fn law_container_runs_its_script(
    config: DockerConfig,
    ext: Seq<char>,
    path: ScriptPath,
    dir: Seq<char>,
    args: Seq<String>,
    env: Seq<(String, String)>,
    limits: ResourceLimits,
    p: ContainerPlan,
)
    requires
        is_container_for(config, ext, path, dir, args, env, limits, p),
    ensures
        p.cmd@.len() == args.len() + 2,
        ext == "py"@ ==> p.cmd@[0]@ == "python"@,
        ext == "rb"@ ==> p.cmd@[0]@ == "ruby"@,
        ext == "js"@ ==> p.cmd@[0]@ == "node"@,
        ext == "sh"@ || ext == "bash"@ ==> p.cmd@[0]@ == "sh"@,
        path.file_name matches Some(n) ==> p.cmd@[1]@ == "/scripts/"@ + n@,
        forall|i: int| 0 <= i < args.len() ==> (#[trigger] p.cmd@[i + 2])@ == args[i]@,
        p.env@.len() == env.len(),
        forall|i: int|
            0 <= i < env.len() ==> (#[trigger] p.env@[i])@ == env[i].0@ + "="@ + env[i].1@,
        p.mount_source@ == dir,
        p.memory == limits.max_memory_bytes,
        limits.network_access ==> p.network_mode is None,
        !limits.network_access ==> (p.network_mode matches Some(n) && n@ == config.network_mode@),
        p.readonly_rootfs == config.read_only,
{
    law_script_is_run_by_its_language(ext, container_path(path), args, p.cmd@);
    let t = texts(p.env@);
    assert(t.len() == p.env@.len());
    assert forall|i: int| 0 <= i < env.len() implies (#[trigger] p.env@[i])@ == env[i].0@ + "="@
        + env[i].1@ by {
        assert(t[i] == p.env@[i]@);
    }
}

/// The name of a container begins as configured and ends with eight characters of its
/// identifier, which tell it from others.
pub proof fn law_containers_are_told_apart(
    prefix: Seq<char>,
    a: Seq<char>,
    b: Seq<char>,
    ra: Seq<char>,
    rb: Seq<char>,
)
    requires
        a.len() >= 8,
        b.len() >= 8,
        is_container_name(prefix, a, ra),
        is_container_name(prefix, b, rb),
    ensures
        ra.len() == prefix.len() + 9,
        ra.take(prefix.len() as int) == prefix,
        a.take(8) != b.take(8) ==> ra != rb,
{
    reveal_strlit("-");
    let n = prefix.len() as int;
    assert(ra.take(n) =~= prefix);
    assert(ra.skip(n + 1) =~= a.take(8));
    assert(rb.skip(n + 1) =~= b.take(8));
}

/// What a script gave is what it wrote, with its exit code; one that took too long says so.
pub proof fn law_output_is_what_was_written(
    pieces: Seq<OutputPiece>,
    code: Option<i32>,
    duration: Elapsed,
    r: ScriptOutput,
)
    requires
        is_output_of(pieces, code, duration, r),
    ensures
        r.stdout@ == written_out(pieces),
        r.stderr@ == written_err(pieces),
        code matches Some(n) ==> r.exit_code == n && !r.timed_out,
        code is None ==> r.timed_out && r.exit_code == -1,
        r.duration == duration,
{
}

} // verus!
