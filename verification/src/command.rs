//! The command-template registry: a pure mapping from (language, source) to
//! the shell-invocable command line run inside a sandbox container.
//!
//! For interpreted languages the interpreter is invoked directly with the
//! source as an inline argument. For the other languages the source is
//! wrapped in a minimal entry-point boilerplate when it does not already
//! contain the language's entry marker, written to a fixed in-container path,
//! compiled, and executed.

use vstd::prelude::*;
use crate::error::CompilerError;
use crate::lang::{spec_parse_language, LanguageId};
use crate::strutil::{push_char, spec_contains, str_contains};

verus! {

/// `s` with every single quote replaced by a backslash-quote pair, so that it
/// survives single-quoted shell interpolation.
pub open spec fn spec_escape_quotes(s: Seq<char>) -> Seq<char>
    decreases s.len(),
{
    if s.len() == 0 {
        Seq::empty()
    } else {
        spec_escape_quotes(s.drop_last()) + (if s.last() == '\'' {
            seq!['\\', '\'']
        } else {
            seq![s.last()]
        })
    }
}

/// Replaces every `'` in `s` with `\'`.
pub fn escape_single_quotes(s: &str) -> (r: String)
    ensures
        r@ == spec_escape_quotes(s@),
{
    let len = s.unicode_len();
    let mut out = String::new();
    let mut i: usize = 0;
    while i < len
        invariant
            len == s@.len(),
            i <= len,
            out@ == spec_escape_quotes(s@.take(i as int)),
        decreases len - i,
    {
        let c = s.get_char(i);
        if c == '\'' {
            push_char(&mut out, '\\');
            push_char(&mut out, '\'');
        } else {
            push_char(&mut out, c);
        }
        proof {
            assert(s@.take(i as int + 1).drop_last() =~= s@.take(i as int));
            assert(s@.take(i as int + 1).last() == s@[i as int]);
            assert(out@ =~= spec_escape_quotes(s@.take(i as int + 1)));
        }
        i = i + 1;
    }
    proof {
        assert(s@.take(len as int) =~= s@);
    }
    out
}

/// `code` unchanged when it already holds `marker`, else wrapped between
/// `pre` and `post`.
pub open spec fn spec_wrap_missing(
    code: Seq<char>,
    marker: Seq<char>,
    pre: Seq<char>,
    post: Seq<char>,
) -> Seq<char> {
    if spec_contains(code, marker) {
        code
    } else {
        pre + code + post
    }
}

/// Wraps `code` between `pre` and `post` unless it already holds `marker`.
fn wrap_if_missing(code: &str, marker: &str, pre: &str, post: &str) -> (r: String)
    ensures
        r@ == spec_wrap_missing(code@, marker@, pre@, post@),
{
    if str_contains(code, marker) {
        String::from_str(code)
    } else {
        let mut out = String::from_str(pre);
        out.append(code);
        out.append(post);
        out
    }
}

/// A three-element command line `[head, flag, script]`.
fn three_part_command(head: &str, flag: &str, script: String) -> (cmd: Vec<String>)
    ensures
        cmd@.len() == 3,
        cmd@[0]@ == head@,
        cmd@[1]@ == flag@,
        cmd@[2]@ == script@,
{
    let mut cmd: Vec<String> = Vec::new();
    cmd.push(String::from_str(head));
    cmd.push(String::from_str(flag));
    cmd.push(script);
    cmd
}

/// `echo '<escaped payload>' <tail>`: writes the payload to the language's
/// in-container source path, then compiles and runs it.
fn echo_compile_script(payload: String, tail: &str) -> (r: String)
    ensures
        r@ == "echo '"@ + spec_escape_quotes(payload@) + tail@,
{
    let escaped = escape_single_quotes(payload.as_str());
    let mut out = String::from_str("echo '");
    out.append(escaped.as_str());
    out.append(tail);
    out
}

/// The boilerplate placed around TypeScript source; applied unconditionally.
pub open spec fn spec_typescript_wrapped(code: Seq<char>) -> Seq<char> {
    "import { createRequire } from 'module';\n    const require = createRequire(import.meta.url);\n\n    // Main execution block\n    async function runCode() {\n        try {\n            "@
        + code
        + "\n        } catch (error) {\n            console.error('Runtime error:', error);\n        }\n    }\n\n    runCode().catch(error => console.error('Execution error:', error));"@
}

/// The heredoc script that writes the wrapped TypeScript source and runs it
/// through ts-node.
pub open spec fn spec_typescript_script(code: Seq<char>) -> Seq<char> {
    "cat > /workspace/script.ts << 'EOL'\n    "@ + spec_typescript_wrapped(code)
        + "\n    EOL\n    ts-node --esm /workspace/script.ts"@
}

/// The shell script for a language using the `echo '..' > path && build` shape.
pub open spec fn spec_echo_script(
    code: Seq<char>,
    marker: Seq<char>,
    pre: Seq<char>,
    post: Seq<char>,
    tail: Seq<char>,
) -> Seq<char> {
    "echo '"@ + spec_escape_quotes(spec_wrap_missing(code, marker, pre, post)) + tail
}

/// The command line run inside the container for `language` and `code`.
pub open spec fn spec_command_script(language: LanguageId, code: Seq<char>) -> Seq<char> {
    match language {
        LanguageId::JavaScript => code,
        LanguageId::Python => code,
        LanguageId::TypeScript => spec_typescript_script(code),
        LanguageId::Rust => spec_echo_script(
            code,
            "fn main"@,
            "\n                    fn main() {\n                        "@,
            "\n                    }\n                    "@,
            "' > /workspace/main.rs && rustc -O /workspace/main.rs && ./main"@,
        ),
        LanguageId::C => spec_echo_script(
            code,
            "main"@,
            "\n                    #include <stdio.h>\n                    #include <stdlib.h>\n                    #include <string.h>\n                    #include <math.h>\n\n                    int main() {\n                        "@,
            "\n                        return 0;\n                    }\n                    "@,
            "' > /workspace/main.c && gcc -O2 -o main main.c && ./main"@,
        ),
        LanguageId::Cpp => spec_echo_script(
            code,
            "main"@,
            "\n                    #include <iostream>\n                    #include <string>\n                    #include <vector>\n                    #include <algorithm>\n                    using namespace std;\n\n                    int main() {\n                        "@,
            "\n                        return 0;\n                    }\n                    "@,
            "' > /workspace/main.cpp && g++ -O2 -std=c++17 -o main main.cpp && ./main"@,
        ),
        LanguageId::Csharp => spec_echo_script(
            code,
            "class Program"@,
            "\n                    using System;\n                    using System.Collections.Generic;\n                    using System.Linq;\n                    using System.Threading.Tasks;\n\n                    public class Program\n                    {\n                        public static void Main()\n                        {\n                            try\n                            {\n                                "@,
            "\n                            }\n                            catch (Exception ex)\n                            {\n                                Console.WriteLine($\"Runtime error: {ex.Message}\");\n                            }\n                        }\n                    }\n                    "@,
            "' > /workspace/Program.cs && dotnet run --no-restore"@,
        ),
        LanguageId::Zig => spec_echo_script(
            code,
            "pub fn main"@,
            "\n                    const std = @import(\"std\");\n\n                    pub fn main() !void {\n                        const stdout = std.io.getStdOut().writer();\n                        {\n                            "@,
            "\n                        }\n                    }\n                    "@,
            "' > /workspace/main.zig && zig build-exe main.zig -O ReleaseSmall && ./main"@,
        ),
    }
}

/// The interpreter or shell the command line starts with.
pub open spec fn spec_command_head(language: LanguageId) -> Seq<char> {
    match language {
        LanguageId::JavaScript => "node"@,
        LanguageId::Python => "python3"@,
        LanguageId::TypeScript => "bash"@,
        LanguageId::Rust => "sh"@,
        LanguageId::C => "sh"@,
        LanguageId::Cpp => "sh"@,
        LanguageId::Csharp => "sh"@,
        LanguageId::Zig => "sh"@,
    }
}

/// The interpreter flag in the command line's middle position.
pub open spec fn spec_command_flag(language: LanguageId) -> Seq<char> {
    match language {
        LanguageId::JavaScript => "-e"@,
        LanguageId::Python => "-c"@,
        _ => "-c"@,
    }
}

/// The full command line for `language` and `code`: interpreter or shell,
/// flag, script.
pub open spec fn spec_command(language: LanguageId, code: Seq<char>) -> Seq<Seq<char>> {
    seq![
        spec_command_head(language),
        spec_command_flag(language),
        spec_command_script(language, code),
    ]
}

/// Whether an exec command line `cmd` is the one the registry builds.
pub open spec fn command_matches(cmd: Seq<String>, language: LanguageId, code: Seq<char>) -> bool {
    cmd.len() == 3 && cmd[0]@ == spec_command_head(language) && cmd[1]@ == spec_command_flag(
        language,
    ) && cmd[2]@ == spec_command_script(language, code)
}

/// Creates a basic TypeScript program structure around the submitted source
/// and emits the heredoc command that runs it with ts-node.
pub fn prepare_typescript_command(code: &str) -> (cmd: Vec<String>)
    ensures
        command_matches(cmd@, LanguageId::TypeScript, code@),
{
    let mut wrapped = String::from_str(
        "import { createRequire } from 'module';\n    const require = createRequire(import.meta.url);\n\n    // Main execution block\n    async function runCode() {\n        try {\n            ",
    );
    wrapped.append(code);
    wrapped.append(
        "\n        } catch (error) {\n            console.error('Runtime error:', error);\n        }\n    }\n\n    runCode().catch(error => console.error('Execution error:', error));",
    );
    let mut script = String::from_str("cat > /workspace/script.ts << 'EOL'\n    ");
    script.append(wrapped.as_str());
    script.append("\n    EOL\n    ts-node --esm /workspace/script.ts");
    three_part_command("bash", "-c", script)
}

/// Wraps bare Rust statements in `fn main` when no main function is present,
/// then emits the shell command that writes, compiles and runs the program.
pub fn prepare_rust_command(code: &str) -> (cmd: Vec<String>)
    ensures
        command_matches(cmd@, LanguageId::Rust, code@),
{
    let wrapped = wrap_if_missing(
        code,
        "fn main",
        "\n                    fn main() {\n                        ",
        "\n                    }\n                    ",
    );
    let script = echo_compile_script(
        wrapped,
        "' > /workspace/main.rs && rustc -O /workspace/main.rs && ./main",
    );
    three_part_command("sh", "-c", script)
}

/// Wraps bare C statements in an `int main` with the usual headers when no
/// main is present, then emits the write-compile-run shell command.
pub fn prepare_c_command(code: &str) -> (cmd: Vec<String>)
    ensures
        command_matches(cmd@, LanguageId::C, code@),
{
    let wrapped = wrap_if_missing(
        code,
        "main",
        "\n                    #include <stdio.h>\n                    #include <stdlib.h>\n                    #include <string.h>\n                    #include <math.h>\n\n                    int main() {\n                        ",
        "\n                        return 0;\n                    }\n                    ",
    );
    let script = echo_compile_script(
        wrapped,
        "' > /workspace/main.c && gcc -O2 -o main main.c && ./main",
    );
    three_part_command("sh", "-c", script)
}

/// The C++ analogue of `prepare_c_command`.
pub fn prepare_cpp_command(code: &str) -> (cmd: Vec<String>)
    ensures
        command_matches(cmd@, LanguageId::Cpp, code@),
{
    let wrapped = wrap_if_missing(
        code,
        "main",
        "\n                    #include <iostream>\n                    #include <string>\n                    #include <vector>\n                    #include <algorithm>\n                    using namespace std;\n\n                    int main() {\n                        ",
        "\n                        return 0;\n                    }\n                    ",
    );
    let script = echo_compile_script(
        wrapped,
        "' > /workspace/main.cpp && g++ -O2 -std=c++17 -o main main.cpp && ./main",
    );
    three_part_command("sh", "-c", script)
}

/// Wraps C# statements in a `Program.Main` with a try/catch when no
/// `class Program` is present, then emits the write-and-run shell command.
pub fn prepare_csharp_command(code: &str) -> (cmd: Vec<String>)
    ensures
        command_matches(cmd@, LanguageId::Csharp, code@),
{
    let wrapped = wrap_if_missing(
        code,
        "class Program",
        "\n                    using System;\n                    using System.Collections.Generic;\n                    using System.Linq;\n                    using System.Threading.Tasks;\n\n                    public class Program\n                    {\n                        public static void Main()\n                        {\n                            try\n                            {\n                                ",
        "\n                            }\n                            catch (Exception ex)\n                            {\n                                Console.WriteLine($\"Runtime error: {ex.Message}\");\n                            }\n                        }\n                    }\n                    ",
    );
    let script = echo_compile_script(wrapped, "' > /workspace/Program.cs && dotnet run --no-restore");
    three_part_command("sh", "-c", script)
}

/// Wraps Zig statements in a `pub fn main` block when none is present, then
/// emits the write-compile-run shell command.
pub fn prepare_zig_command(code: &str) -> (cmd: Vec<String>)
    ensures
        command_matches(cmd@, LanguageId::Zig, code@),
{
    let wrapped = wrap_if_missing(
        code,
        "pub fn main",
        "\n                    const std = @import(\"std\");\n\n                    pub fn main() !void {\n                        const stdout = std.io.getStdOut().writer();\n                        {\n                            ",
        "\n                        }\n                    }\n                    ",
    );
    let script = echo_compile_script(
        wrapped,
        "' > /workspace/main.zig && zig build-exe main.zig -O ReleaseSmall && ./main",
    );
    three_part_command("sh", "-c", script)
}

/// The command line for a known language; never fails, because the language
/// set is closed.
pub fn build_command(language: LanguageId, code: &str) -> (cmd: Vec<String>)
    ensures
        command_matches(cmd@, language, code@),
{
    match language {
        LanguageId::JavaScript => {
            three_part_command("node", "-e", String::from_str(code))
        },
        LanguageId::Python => {
            three_part_command("python3", "-c", String::from_str(code))
        },
        LanguageId::TypeScript => prepare_typescript_command(code),
        LanguageId::Rust => prepare_rust_command(code),
        LanguageId::C => prepare_c_command(code),
        LanguageId::Cpp => prepare_cpp_command(code),
        LanguageId::Csharp => prepare_csharp_command(code),
        LanguageId::Zig => prepare_zig_command(code),
    }
}

/// Maps a wire-level language tag and source to the container command line;
/// unknown tags fail fast with `UnsupportedLanguage`.
pub fn prepare_execution_command(language: &str, code: &str) -> (r: Result<
    Vec<String>,
    CompilerError,
>)
    ensures
        r matches Ok(cmd) ==> spec_parse_language(language@) matches Some(l) && command_matches(
            cmd@,
            l,
            code@,
        ),
        r matches Err(e) ==> e is UnsupportedLanguage && spec_parse_language(language@) is None,
{
    match crate::lang::parse_language(language) {
        Ok(l) => Ok(build_command(l, code)),
        Err(e) => Err(e),
    }
}

} // verus!
