//! The command-template registry and the output classifier, held to exact
//! expected values.

use sandbox_engine::command::{
    build_command, escape_single_quotes, prepare_c_command, prepare_cpp_command,
    prepare_csharp_command, prepare_execution_command, prepare_rust_command,
    prepare_typescript_command, prepare_zig_command,
};
use sandbox_engine::lang::LanguageId;
use sandbox_engine::output::classify_output;
use sandbox_engine::strutil::{str_contains, str_eq, str_starts_with};

#[test]
fn interpreted_languages_run_the_source_inline() {
    assert_eq!(
        build_command(LanguageId::JavaScript, "console.log('hi')"),
        vec!["node", "-e", "console.log('hi')"]
    );
    assert_eq!(build_command(LanguageId::Python, "print(1)"), vec!["python3", "-c", "print(1)"]);
}

#[test]
fn rust_snippet_is_wrapped_in_main() {
    let cmd = prepare_rust_command("println!(\"ok\");");
    assert_eq!(cmd[0], "sh");
    assert_eq!(cmd[1], "-c");
    let wrapped = format!(
        "\n                    fn main() {{\n                        {}\n                    }}\n                    ",
        "println!(\"ok\");"
    );
    let expected = format!(
        "echo '{}' > /workspace/main.rs && rustc -O /workspace/main.rs && ./main",
        wrapped
    );
    assert_eq!(cmd[2], expected);
}

#[test]
fn rust_program_with_main_is_kept_as_is() {
    let source = "fn main() { println!(\"ok\"); }";
    let cmd = prepare_rust_command(source);
    let expected = format!(
        "echo '{}' > /workspace/main.rs && rustc -O /workspace/main.rs && ./main",
        source
    );
    assert_eq!(cmd[2], expected);
}

#[test]
fn single_quotes_are_escaped_for_the_shell() {
    assert_eq!(escape_single_quotes("it's"), "it\\'s");
    assert_eq!(escape_single_quotes("no quotes"), "no quotes");
    assert_eq!(escape_single_quotes("''"), "\\'\\'");
    // The escaping reaches the emitted command.
    let cmd = prepare_rust_command("fn main() { println!(\"it's\"); }");
    assert!(cmd[2].contains("it\\'s"));
}

#[test]
fn c_snippet_gets_headers_and_main() {
    let cmd = prepare_c_command("printf(\"hi\");");
    assert_eq!(cmd[0], "sh");
    let script = &cmd[2];
    assert!(script.starts_with("echo '"));
    assert!(script.contains("#include <stdio.h>"));
    assert!(script.contains("int main() {"));
    assert!(script.contains("printf(\"hi\");"));
    assert!(script.contains("return 0;"));
    assert!(script.ends_with("' > /workspace/main.c && gcc -O2 -o main main.c && ./main"));
    // Any occurrence of "main" counts as an entry point, so no wrapping.
    let with_main = prepare_c_command("int main(){return 0;}");
    assert_eq!(
        with_main[2],
        "echo 'int main(){return 0;}' > /workspace/main.c && gcc -O2 -o main main.c && ./main"
    );
}

#[test]
fn cpp_snippet_gets_headers_and_main() {
    let cmd = prepare_cpp_command("cout << 1;");
    let script = &cmd[2];
    assert!(script.contains("#include <iostream>"));
    assert!(script.contains("using namespace std;"));
    assert!(script.contains("cout << 1;"));
    assert!(script.ends_with("' > /workspace/main.cpp && g++ -O2 -std=c++17 -o main main.cpp && ./main"));
}

#[test]
fn csharp_snippet_is_wrapped_in_program_class() {
    let cmd = prepare_csharp_command("Console.WriteLine(1);");
    let script = &cmd[2];
    assert!(script.contains("using System;"));
    assert!(script.contains("public class Program"));
    assert!(script.contains("Console.WriteLine(1);"));
    assert!(script.contains("catch (Exception ex)"));
    assert!(script.ends_with("' > /workspace/Program.cs && dotnet run --no-restore"));
    // A full program is left alone.
    let full = "using System; public class Program { public static void Main() {} }";
    let kept = prepare_csharp_command(full);
    assert_eq!(
        kept[2],
        format!("echo '{}' > /workspace/Program.cs && dotnet run --no-restore", full)
    );
}

#[test]
fn zig_snippet_is_wrapped_in_main() {
    let cmd = prepare_zig_command("try stdout.print(\"1\", .{});");
    let script = &cmd[2];
    assert!(script.contains("const std = @import(\"std\");"));
    assert!(script.contains("pub fn main() !void {"));
    assert!(script.contains("try stdout.print(\"1\", .{});"));
    assert!(script.ends_with("' > /workspace/main.zig && zig build-exe main.zig -O ReleaseSmall && ./main"));
}

#[test]
fn typescript_is_always_wrapped_in_a_heredoc() {
    let cmd = prepare_typescript_command("console.log(1)");
    assert_eq!(cmd[0], "bash");
    assert_eq!(cmd[1], "-c");
    let script = &cmd[2];
    assert!(script.starts_with("cat > /workspace/script.ts << 'EOL'\n    "));
    assert!(script.contains("import { createRequire } from 'module';"));
    assert!(script.contains("async function runCode() {"));
    assert!(script.contains("console.log(1)"));
    assert!(script.ends_with("\n    EOL\n    ts-node --esm /workspace/script.ts"));
}

#[test]
fn unknown_tag_is_refused_known_tags_are_built() {
    assert!(prepare_execution_command("cobol", "x").is_err());
    assert!(prepare_execution_command("Javascript", "x").is_err());
    let built = prepare_execution_command("python", "print(9)").unwrap();
    assert_eq!(built, vec!["python3", "-c", "print(9)"]);
}

#[test]
fn stderr_becomes_a_formatted_error_report() {
    // Blank lines are dropped; the rest are joined under the heading.
    let out = classify_output("ignored", "error[E0425]: x\n\n   note: here\n");
    assert_eq!(out, "Error:\nerror[E0425]: x\n   note: here");
    // Whitespace-only lines are blank too.
    let out2 = classify_output("", "a\n   \t\nb");
    assert_eq!(out2, "Error:\na\nb");
    // A carriage-return line ending is stripped.
    let out3 = classify_output("", "first\r\nsecond");
    assert_eq!(out3, "Error:\nfirst\nsecond");
}

#[test]
fn empty_capture_yields_the_success_sentinel() {
    assert_eq!(classify_output("", ""), "Code executed successfully with no output.");
}

#[test]
fn plain_stdout_is_returned_raw() {
    assert_eq!(classify_output("2\n", ""), "2\n");
    assert_eq!(classify_output("a\nb\n", ""), "a\nb\n");
}

#[test]
fn string_utilities_match_their_specifications() {
    assert!(str_contains("fn main() {}", "fn main"));
    assert!(!str_contains("fn   main", "fn main"));
    assert!(str_contains("abc", ""));
    assert!(!str_contains("ab", "abc"));
    assert!(str_starts_with("redis://localhost", "redis://"));
    assert!(!str_starts_with("http://x", "redis://"));
    assert!(str_eq("same", "same"));
    assert!(!str_eq("same", "sam"));
}
