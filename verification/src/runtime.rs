//! What the engine asks of the container runtime when it creates a sandbox:
//! a plain-value description of the container — image, idle command,
//! environment, working directory and resource ceilings — plus a fresh
//! name. The runtime adapter turns this into its own creation request.

use vstd::prelude::*;
use crate::lang::LanguageId;

verus! {

/// A creation request for one sandbox container, as plain values.
pub struct ContainerRuntimeSpec {
    /// `compiler-<language>-<uuid>`.
    pub name: String,
    /// `compiler-<language>`.
    pub image: String,
    /// The idle command keeping the container alive between exec instances.
    pub cmd: Vec<String>,
    /// `LANGUAGE=<language>`.
    pub env: Vec<String>,
    pub working_dir: String,
    /// Memory ceiling in bytes.
    pub memory_bytes: i64,
    /// Memory+swap ceiling in bytes; equal to the memory ceiling, so no swap
    /// headroom.
    pub memory_swap_bytes: i64,
    /// The fixed CPU accounting period, in microseconds.
    pub cpu_period: i64,
    /// The CPU quota per period, in microseconds.
    pub cpu_quota: i64,
}

/// Relies on `uuid::Uuid::new_v4` and `Uuid`'s display form: a random
/// version-4 UUID rendered in hyphenated form, always 36 ASCII characters.
/// Nothing more is assumed of the value: it is random.
#[verifier::external_body]
fn fresh_uuid() -> (r: String)
    ensures
        r@.len() == 36,
{
    uuid::Uuid::new_v4().to_string()
}

/// A fresh container name: `compiler-<language>-` followed by a 36-character
/// random UUID.
pub fn fresh_container_name(language: LanguageId) -> (r: String)
    ensures
        r@.len() == "compiler-"@.len() + language.spec_tag().len() + 1 + 36,
        r@.subrange(0, r@.len() - 36) == "compiler-"@ + language.spec_tag() + "-"@,
{
    let mut out = String::from_str("compiler-");
    out.append(language.tag());
    out.append("-");
    let id = fresh_uuid();
    out.append(id.as_str());
    proof {
        reveal_strlit("-");
        assert(out@.subrange(0, out@.len() - 36) =~= "compiler-"@ + language.spec_tag() + "-"@);
    }
    out
}

/// Builds the creation request for a sandbox of `language`: the language's
/// image, a keep-alive command, the language in the environment, the fixed
/// working directory, a hard memory ceiling with no swap headroom, and the
/// CPU quota against the fixed 100000-microsecond period.
pub fn container_spec(language: LanguageId, max_memory: u64, cpu_quota: i64) -> (r:
    ContainerRuntimeSpec)
    requires
        max_memory <= i64::MAX,
    ensures
        r.name@.subrange(0, r.name@.len() - 36) == "compiler-"@ + language.spec_tag() + "-"@,
        r.name@.len() == "compiler-"@.len() + language.spec_tag().len() + 1 + 36,
        r.image@ == "compiler-"@ + language.spec_tag(),
        r.cmd@.len() == 3,
        r.cmd@[0]@ == "/bin/sh"@,
        r.cmd@[1]@ == "-c"@,
        r.cmd@[2]@ == "tail -f /dev/null"@,
        r.env@.len() == 1,
        r.env@[0]@ == "LANGUAGE="@ + language.spec_tag(),
        r.working_dir@ == "/workspace"@,
        r.memory_bytes == max_memory,
        r.memory_swap_bytes == max_memory,
        r.cpu_period == 100000,
        r.cpu_quota == cpu_quota,
{
    let name = fresh_container_name(language);
    let mut image = String::from_str("compiler-");
    image.append(language.tag());
    let mut cmd: Vec<String> = Vec::new();
    cmd.push(String::from_str("/bin/sh"));
    cmd.push(String::from_str("-c"));
    cmd.push(String::from_str("tail -f /dev/null"));
    let mut env_entry = String::from_str("LANGUAGE=");
    env_entry.append(language.tag());
    let mut env: Vec<String> = Vec::new();
    env.push(env_entry);
    ContainerRuntimeSpec {
        name,
        image,
        cmd,
        env,
        working_dir: String::from_str("/workspace"),
        memory_bytes: max_memory as i64,
        memory_swap_bytes: max_memory as i64,
        cpu_period: 100000,
        cpu_quota,
    }
}

} // verus!
