//! What a viewer sends to a terminal: code, text, or a path.

use crate::path::{
    extension, extension_of_name, extension_seq, file_name, file_name_seq, strip_base,
    strip_base_seq,
};
use crate::text::{
    chars_of, concat, decimal, decimal_string, join, join_append, join_seq, same, string_of,
};
use vstd::prelude::*;

verus! {

broadcast use vstd::string::group_string_axioms;

/// The selected lines of one file.
#[derive(Clone, Debug, PartialEq, Eq)]
pub struct CodeBlock {
    pub absolute_path: String,
    /// The first and the last line, counted from 1.
    pub first: usize,
    pub last: usize,
    pub text: String,
}

/// A [`CodeBlock`] with its texts as sequences.
pub struct CodeBlockModel {
    pub absolute_path: Seq<char>,
    pub first: nat,
    pub last: nat,
    pub text: Seq<char>,
}

impl DeepView for CodeBlock {
    type V = CodeBlockModel;

    open spec fn deep_view(&self) -> CodeBlockModel {
        CodeBlockModel {
            absolute_path: self.absolute_path@,
            first: self.first as nat,
            last: self.last as nat,
            text: self.text@,
        }
    }
}

/// Something to send to a terminal.
#[derive(Clone, Debug, PartialEq, Eq)]
pub enum SendPayload {
    /// Code, shown with its place in the file.
    Code(Vec<CodeBlock>),
    /// Text as it is.
    Text(String),
    /// A path, followed by a space so that a command can be typed after it.
    Path(String),
}

/// The language of a well-known file.
pub open spec fn hint_for_name(name: Seq<char>) -> Option<Seq<char>> {
    if name == "Makefile"@ || name == "makefile"@ || name == "GNUmakefile"@ {
        Some("make"@)
    } else if name == "Dockerfile"@ || name == "Containerfile"@ {
        Some("dockerfile"@)
    } else if name == "CMakeLists.txt"@ {
        Some("cmake"@)
    } else if name == "Cargo.toml"@ || name == "Cargo.lock"@ {
        Some("toml"@)
    } else if name == "package.json"@ || name == "tsconfig.json"@ || name == "deno.json"@ {
        Some("json"@)
    } else {
        None
    }
}

/// The language of an extension; empty where none is known.
pub open spec fn hint_for_extension(ext: Seq<char>) -> Seq<char> {
    if ext == "rs"@ {
        "rust"@
    } else if ext == "ts"@ {
        "typescript"@
    } else if ext == "tsx"@ {
        "tsx"@
    } else if ext == "js"@ {
        "javascript"@
    } else if ext == "jsx"@ {
        "jsx"@
    } else if ext == "py"@ {
        "python"@
    } else if ext == "go"@ {
        "go"@
    } else if ext == "rb"@ {
        "ruby"@
    } else if ext == "java"@ {
        "java"@
    } else if ext == "kt"@ || ext == "kts"@ {
        "kotlin"@
    } else if ext == "swift"@ {
        "swift"@
    } else if ext == "c"@ || ext == "h"@ {
        "c"@
    } else if ext == "cpp"@ || ext == "cc"@ || ext == "cxx"@ || ext == "hpp"@ || ext == "hh"@ {
        "cpp"@
    } else if ext == "cs"@ {
        "csharp"@
    } else if ext == "php"@ {
        "php"@
    } else if ext == "sh"@ || ext == "bash"@ || ext == "zsh"@ {
        "bash"@
    } else if ext == "fish"@ {
        "fish"@
    } else if ext == "ps1"@ || ext == "psm1"@ || ext == "psd1"@ {
        "powershell"@
    } else if ext == "sql"@ {
        "sql"@
    } else if ext == "json"@ || ext == "jsonc"@ || ext == "json5"@ {
        "json"@
    } else if ext == "yaml"@ || ext == "yml"@ {
        "yaml"@
    } else if ext == "toml"@ {
        "toml"@
    } else if ext == "md"@ || ext == "markdown"@ {
        "markdown"@
    } else if ext == "html"@ || ext == "htm"@ {
        "html"@
    } else if ext == "css"@ {
        "css"@
    } else if ext == "scss"@ || ext == "sass"@ {
        "scss"@
    } else if ext == "xml"@ {
        "xml"@
    } else if ext == "lua"@ {
        "lua"@
    } else if ext == "ex"@ || ext == "exs"@ {
        "elixir"@
    } else if ext == "elm"@ {
        "elm"@
    } else if ext == "hs"@ {
        "haskell"@
    } else if ext == "ml"@ || ext == "mli"@ {
        "ocaml"@
    } else if ext == "scala"@ {
        "scala"@
    } else if ext == "dart"@ {
        "dart"@
    } else if ext == "vue"@ {
        "vue"@
    } else if ext == "svelte"@ {
        "svelte"@
    } else {
        ""@
    }
}

/// The language of a file, for the fence of a Markdown code block.
pub open spec fn lang_hint(path: Seq<char>) -> Seq<char> {
    let by_name = match file_name_seq(path) {
        Some(name) => hint_for_name(name),
        None => None,
    };
    match by_name {
        Some(hint) => hint,
        None => hint_for_extension(
            match extension_seq(path) {
                Some(ext) => ext,
                None => ""@,
            },
        ),
    }
}

fn name_hint(name: &str) -> (r: Option<&'static str>)
    ensures
        r.deep_view() == hint_for_name(name@),
{
    if same(name, "Makefile") || same(name, "makefile") || same(name, "GNUmakefile") {
        Some("make")
    } else if same(name, "Dockerfile") || same(name, "Containerfile") {
        Some("dockerfile")
    } else if same(name, "CMakeLists.txt") {
        Some("cmake")
    } else if same(name, "Cargo.toml") || same(name, "Cargo.lock") {
        Some("toml")
    } else if same(name, "package.json") || same(name, "tsconfig.json") || same(name, "deno.json") {
        Some("json")
    } else {
        None
    }
}

fn extension_hint(ext: &str) -> (r: &'static str)
    ensures
        r@ == hint_for_extension(ext@),
{
    if same(ext, "rs") {
        "rust"
    } else if same(ext, "ts") {
        "typescript"
    } else if same(ext, "tsx") {
        "tsx"
    } else if same(ext, "js") {
        "javascript"
    } else if same(ext, "jsx") {
        "jsx"
    } else if same(ext, "py") {
        "python"
    } else if same(ext, "go") {
        "go"
    } else if same(ext, "rb") {
        "ruby"
    } else if same(ext, "java") {
        "java"
    } else if same(ext, "kt") || same(ext, "kts") {
        "kotlin"
    } else if same(ext, "swift") {
        "swift"
    } else if same(ext, "c") || same(ext, "h") {
        "c"
    } else if same(ext, "cpp") || same(ext, "cc") || same(ext, "cxx") || same(ext, "hpp") || same(ext, "hh") {
        "cpp"
    } else if same(ext, "cs") {
        "csharp"
    } else if same(ext, "php") {
        "php"
    } else if same(ext, "sh") || same(ext, "bash") || same(ext, "zsh") {
        "bash"
    } else if same(ext, "fish") {
        "fish"
    } else if same(ext, "ps1") || same(ext, "psm1") || same(ext, "psd1") {
        "powershell"
    } else if same(ext, "sql") {
        "sql"
    } else if same(ext, "json") || same(ext, "jsonc") || same(ext, "json5") {
        "json"
    } else if same(ext, "yaml") || same(ext, "yml") {
        "yaml"
    } else if same(ext, "toml") {
        "toml"
    } else if same(ext, "md") || same(ext, "markdown") {
        "markdown"
    } else if same(ext, "html") || same(ext, "htm") {
        "html"
    } else if same(ext, "css") {
        "css"
    } else if same(ext, "scss") || same(ext, "sass") {
        "scss"
    } else if same(ext, "xml") {
        "xml"
    } else if same(ext, "lua") {
        "lua"
    } else if same(ext, "ex") || same(ext, "exs") {
        "elixir"
    } else if same(ext, "elm") {
        "elm"
    } else if same(ext, "hs") {
        "haskell"
    } else if same(ext, "ml") || same(ext, "mli") {
        "ocaml"
    } else if same(ext, "scala") {
        "scala"
    } else if same(ext, "dart") {
        "dart"
    } else if same(ext, "vue") {
        "vue"
    } else if same(ext, "svelte") {
        "svelte"
    } else {
        ""
    }
}

/// The language of a file: by its name where that is well known, otherwise by
/// its extension.
pub fn markdown_lang_hint(path: &str) -> (r: &'static str)
    ensures
        r@ == lang_hint(path@),
{
    if let Some(name) = file_name(path) {
        if let Some(hint) = name_hint(name.as_str()) {
            return hint;
        }
    }
    match extension(path) {
        Some(ext) => extension_hint(ext.as_str()),
        None => extension_hint(""),
    }
}

/// `path` as seen from `cwd`: `./rest` below it, `.` for itself, and otherwise
/// as it is.
pub open spec fn relative_to(path: Seq<char>, cwd: Option<Seq<char>>) -> Seq<char> {
    match cwd {
        Some(dir) => match strip_base_seq(path, dir) {
            Some(rest) => if rest.len() == 0 {
                "."@
            } else {
                "./"@ + rest
            },
            None => path,
        },
        None => path,
    }
}

fn relative_to_cwd(path: &str, cwd: Option<&str>) -> (r: String)
    ensures
        r@ == relative_to(path@, cwd.deep_view()),
{
    if let Some(dir) = cwd {
        if let Some(rest) = strip_base(path, dir) {
            if rest.as_str().is_empty() {
                return ".".to_owned();
            }
            return concat("./", rest.as_str());
        }
    }
    path.to_owned()
}

/// A code block: its place, and its lines between fences.
pub open spec fn code_text(block: CodeBlockModel, cwd: Option<Seq<char>>) -> Seq<char> {
    let place = relative_to(block.absolute_path, cwd) + ":"@ + decimal(block.first);
    let header = if block.first == block.last {
        place
    } else {
        place + "-"@ + decimal(block.last)
    };
    header + "\n```"@ + lang_hint(block.absolute_path) + "\n"@ + block.text + "\n```"@
}

fn format_code_block(block: &CodeBlock, cwd: Option<&str>) -> (r: String)
    ensures
        r@ == code_text(block.deep_view(), cwd.deep_view()),
{
    let mut out: String = relative_to_cwd(block.absolute_path.as_str(), cwd);
    out.push_str(":");
    out.push_str(decimal_string(block.first as u64).as_str());
    if block.first != block.last {
        out.push_str("-");
        out.push_str(decimal_string(block.last as u64).as_str());
    }
    out.push_str("\n```");
    out.push_str(markdown_lang_hint(block.absolute_path.as_str()));
    out.push_str("\n");
    out.push_str(block.text.as_str());
    out.push_str("\n```");
    out
}

/// `s` without the newlines at its end.
pub open spec fn without_trailing_newlines(s: Seq<char>) -> Seq<char>
    decreases s.len(),
{
    if s.len() > 0 && s.last() == '\n' {
        without_trailing_newlines(s.drop_last())
    } else {
        s
    }
}

fn strip_trailing_newlines(text: &str) -> (r: String)
    ensures
        r@ == without_trailing_newlines(text@),
{
    let chars: Vec<char> = chars_of(text);
    let mut n: usize = chars.len();
    assert(chars@.take(n as int) == chars@);
    while n > 0 && chars[n - 1] == '\n'
        invariant
            n <= chars@.len(),
            without_trailing_newlines(chars@.take(n as int)) == without_trailing_newlines(text@),
        ensures
            n <= chars@.len(),
            chars@.take(n as int) == without_trailing_newlines(text@),
        decreases n,
    {
        assert(chars@.take(n as int).drop_last() == chars@.take(n - 1));
        n = n - 1;
    }
    assert(chars@.subrange(0, n as int) == chars@.take(n as int));
    string_of(&chars, 0, n)
}

/// The texts of code blocks.
pub open spec fn code_texts(blocks: Seq<CodeBlockModel>, cwd: Option<Seq<char>>) -> Seq<Seq<char>> {
    Seq::new(blocks.len(), |i: int| code_text(blocks[i], cwd))
}

/// A payload before its trailing newlines are taken off.
pub open spec fn raw_text(payload: SendPayload, cwd: Option<Seq<char>>) -> Seq<char> {
    match payload {
        SendPayload::Code(blocks) => join_seq(code_texts(blocks.deep_view(), cwd), "\n\n"@),
        SendPayload::Text(text) => text@,
        SendPayload::Path(path) => relative_to(path@, cwd) + " "@,
    }
}

impl SendPayload {
    /// Whether there is nothing to send.
    pub fn is_empty(&self) -> (r: bool)
        ensures
            r == (match self {
                SendPayload::Code(blocks) => blocks@.len() == 0,
                SendPayload::Text(text) => text@.len() == 0,
                SendPayload::Path(path) => path@.len() == 0,
            }),
    {
        match self {
            SendPayload::Code(blocks) => blocks.is_empty(),
            SendPayload::Text(text) => text.as_str().is_empty(),
            SendPayload::Path(path) => path.as_str().is_empty(),
        }
    }

    /// The text to paste. Paths are told as seen from the terminal's directory.
    /// No newline ends it: a pasted one would submit what was pasted.
    pub fn format(&self, terminal_cwd: Option<&str>) -> (r: String)
        ensures
            r@ == without_trailing_newlines(raw_text(*self, terminal_cwd.deep_view())),
            r@.len() > 0 ==> r@.last() != '\n',
    {
        let out: String = match self {
            SendPayload::Code(blocks) => {
                let ghost models = blocks.deep_view();
                let ghost cwd = terminal_cwd.deep_view();
                let mut rendered: Vec<String> = Vec::new();
                let mut i: usize = 0;
                while i < blocks.len()
                    invariant
                        i <= blocks@.len(),
                        models == blocks.deep_view(),
                        cwd == terminal_cwd.deep_view(),
                        rendered@.len() == i,
                        forall|j: int|
                            0 <= j < i ==> (#[trigger] rendered@[j])@ == code_text(models[j], cwd),
                    decreases blocks@.len() - i,
                {
                    rendered.push(format_code_block(&blocks[i], terminal_cwd));
                    i = i + 1;
                }
                let n: usize = rendered.len();
                assert(rendered.deep_view().subrange(0, n as int) == code_texts(models, cwd));
                join(&rendered, 0, n, "\n\n")
            },
            SendPayload::Text(text) => text.clone(),
            SendPayload::Path(path) => concat(
                relative_to_cwd(path.as_str(), terminal_cwd).as_str(),
                " ",
            ),
        };
        proof {
            no_trailing_newline(out@);
        }
        strip_trailing_newlines(out.as_str())
    }
}

/// No newline is left at the end, and nothing but newlines was taken.
pub proof fn no_trailing_newline(s: Seq<char>)
    ensures
        without_trailing_newlines(s).len() > 0 ==> without_trailing_newlines(s).last() != '\n',
        without_trailing_newlines(s).is_prefix_of(s),
        forall|i: int|
            without_trailing_newlines(s).len() <= i < s.len() ==> #[trigger] s[i] == '\n',
    decreases s.len(),
{
    if s.len() > 0 && s.last() == '\n' {
        no_trailing_newline(s.drop_last());
        let kept = without_trailing_newlines(s);
        assert(s.take(kept.len() as int) == s.drop_last().take(kept.len() as int));
        assert forall|i: int| kept.len() <= i < s.len() implies #[trigger] s[i] == '\n' by {
            if i < s.len() - 1 {
                assert(s.drop_last()[i] == s[i]);
            }
        }
    } else {
        assert(s.take(s.len() as int) == s);
    }
}

/// Code is sent with its place in front and its text unchanged between fences: the
/// file, the first line, and the last where it is another.
pub proof fn code_is_sent_with_its_place(block: CodeBlockModel, cwd: Option<Seq<char>>)
    ensures
        ({
            let text = code_text(block, cwd);
            let place = relative_to(block.absolute_path, cwd) + ":"@ + decimal(block.first);
            &&& place.is_prefix_of(text)
            &&& block.first == block.last ==> (place + "\n```"@).is_prefix_of(text)
            &&& block.first != block.last ==> (place + "-"@ + decimal(block.last)
                + "\n```"@).is_prefix_of(text)
            &&& ("\n"@ + block.text + "\n```"@).is_suffix_of(text)
        }),
{
    let text = code_text(block, cwd);
    let place = relative_to(block.absolute_path, cwd) + ":"@ + decimal(block.first);
    let header = if block.first == block.last {
        place
    } else {
        place + "-"@ + decimal(block.last)
    };
    assert(place.is_prefix_of(header));
    let start = header + "\n```"@;
    assert(start.is_prefix_of(text));
    assert(place.is_prefix_of(text));
    let end = "\n"@ + block.text + "\n```"@;
    let front = start + lang_hint(block.absolute_path);
    assert(text == front + end);
    assert(text.skip(front.len() as int) == end);
}

/// A path is told from the directory of the terminal where it lies below that, and
/// in full everywhere else.
pub proof fn paths_are_told_from_the_directory(path: Seq<char>, dir: Seq<char>, rest: Seq<char>)
    ensures
        relative_to(path, None) == path,
        strip_base_seq(path, dir) is None ==> relative_to(path, Some(dir)) == path,
        strip_base_seq(path, dir) == Some(rest) && rest.len() > 0 ==> relative_to(path, Some(dir))
            == "./"@ + rest,
        strip_base_seq(path, dir) == Some(rest) && rest.len() == 0 ==> relative_to(path, Some(dir))
            == "."@,
{
}

/// Blocks are sent one after another, with an empty line between them, and none is
/// left out.
pub proof fn blocks_follow_each_other(
    first: Seq<CodeBlockModel>,
    second: Seq<CodeBlockModel>,
    cwd: Option<Seq<char>>,
)
    requires
        first.len() > 0,
        second.len() > 0,
    ensures
        join_seq(code_texts(first + second, cwd), "\n\n"@) == join_seq(
            code_texts(first, cwd),
            "\n\n"@,
        ) + "\n\n"@ + join_seq(code_texts(second, cwd), "\n\n"@),
        first.len() == 1 ==> join_seq(code_texts(first, cwd), "\n\n"@) == code_text(first[0], cwd),
{
    assert(code_texts(first + second, cwd) =~= code_texts(first, cwd) + code_texts(second, cwd));
    join_append(code_texts(first, cwd), code_texts(second, cwd), "\n\n"@);
}

/// Text and paths are sent as they are: text unchanged, a path with a blank behind
/// it.
pub proof fn texts_are_sent_unchanged(payload: SendPayload, cwd: Option<Seq<char>>)
    ensures
        payload matches SendPayload::Text(text) ==> raw_text(payload, cwd) == text@,
        payload matches SendPayload::Path(path) ==> raw_text(payload, cwd) == relative_to(
            path@,
            cwd,
        ) + " "@,
        payload matches SendPayload::Code(blocks) ==> raw_text(payload, cwd) == join_seq(
            code_texts(blocks.deep_view(), cwd),
            "\n\n"@,
        ),
{
}

/// A file with a name of its own is hinted at by that, whatever its extension.
pub proof fn names_outweigh_extensions(path: Seq<char>, name: Seq<char>)
    requires
        file_name_seq(path) == Some(name),
    ensures
        hint_for_name(name) matches Some(hint) ==> lang_hint(path) == hint,
        hint_for_name(name) is None && extension_of_name(name) is Some ==> lang_hint(path)
            == hint_for_extension(extension_of_name(name)->0),
{
}

/// Every language is hinted at by its own extensions.
#[verifier::rlimit(50)]
pub proof fn extensions_hint_at_their_languages(ext: Seq<char>)
    ensures
        ext == "rs"@ ==> hint_for_extension(ext) == "rust"@,
        ext == "ts"@ ==> hint_for_extension(ext) == "typescript"@,
        ext == "tsx"@ ==> hint_for_extension(ext) == "tsx"@,
        ext == "js"@ ==> hint_for_extension(ext) == "javascript"@,
        ext == "jsx"@ ==> hint_for_extension(ext) == "jsx"@,
        ext == "py"@ ==> hint_for_extension(ext) == "python"@,
        ext == "go"@ ==> hint_for_extension(ext) == "go"@,
        ext == "rb"@ ==> hint_for_extension(ext) == "ruby"@,
        ext == "java"@ ==> hint_for_extension(ext) == "java"@,
        ext == "kt"@ || ext == "kts"@ ==> hint_for_extension(ext) == "kotlin"@,
        ext == "swift"@ ==> hint_for_extension(ext) == "swift"@,
        ext == "c"@ || ext == "h"@ ==> hint_for_extension(ext) == "c"@,
        ext == "cpp"@ || ext == "cc"@ || ext == "cxx"@ || ext == "hpp"@ || ext == "hh"@ ==> hint_for_extension(ext) == "cpp"@,
        ext == "cs"@ ==> hint_for_extension(ext) == "csharp"@,
        ext == "php"@ ==> hint_for_extension(ext) == "php"@,
        ext == "sh"@ || ext == "bash"@ || ext == "zsh"@ ==> hint_for_extension(ext) == "bash"@,
        ext == "fish"@ ==> hint_for_extension(ext) == "fish"@,
        ext == "ps1"@ || ext == "psm1"@ || ext == "psd1"@ ==> hint_for_extension(ext) == "powershell"@,
        ext == "sql"@ ==> hint_for_extension(ext) == "sql"@,
        ext == "json"@ || ext == "jsonc"@ || ext == "json5"@ ==> hint_for_extension(ext) == "json"@,
        ext == "yaml"@ || ext == "yml"@ ==> hint_for_extension(ext) == "yaml"@,
        ext == "toml"@ ==> hint_for_extension(ext) == "toml"@,
        ext == "md"@ || ext == "markdown"@ ==> hint_for_extension(ext) == "markdown"@,
        ext == "html"@ || ext == "htm"@ ==> hint_for_extension(ext) == "html"@,
        ext == "css"@ ==> hint_for_extension(ext) == "css"@,
        ext == "scss"@ || ext == "sass"@ ==> hint_for_extension(ext) == "scss"@,
        ext == "xml"@ ==> hint_for_extension(ext) == "xml"@,
        ext == "lua"@ ==> hint_for_extension(ext) == "lua"@,
        ext == "ex"@ || ext == "exs"@ ==> hint_for_extension(ext) == "elixir"@,
        ext == "elm"@ ==> hint_for_extension(ext) == "elm"@,
        ext == "hs"@ ==> hint_for_extension(ext) == "haskell"@,
        ext == "ml"@ || ext == "mli"@ ==> hint_for_extension(ext) == "ocaml"@,
        ext == "scala"@ ==> hint_for_extension(ext) == "scala"@,
        ext == "dart"@ ==> hint_for_extension(ext) == "dart"@,
        ext == "vue"@ ==> hint_for_extension(ext) == "vue"@,
        ext == "svelte"@ ==> hint_for_extension(ext) == "svelte"@,
{
    reveal_strlit("rs");
    reveal_strlit("ts");
    reveal_strlit("tsx");
    reveal_strlit("js");
    reveal_strlit("jsx");
    reveal_strlit("py");
    reveal_strlit("go");
    reveal_strlit("rb");
    reveal_strlit("java");
    reveal_strlit("kt");
    reveal_strlit("kts");
    reveal_strlit("swift");
    reveal_strlit("c");
    reveal_strlit("h");
    reveal_strlit("cpp");
    reveal_strlit("cc");
    reveal_strlit("cxx");
    reveal_strlit("hpp");
    reveal_strlit("hh");
    reveal_strlit("cs");
    reveal_strlit("php");
    reveal_strlit("sh");
    reveal_strlit("bash");
    reveal_strlit("zsh");
    reveal_strlit("fish");
    reveal_strlit("ps1");
    reveal_strlit("psm1");
    reveal_strlit("psd1");
    reveal_strlit("sql");
    reveal_strlit("json");
    reveal_strlit("jsonc");
    reveal_strlit("json5");
    reveal_strlit("yaml");
    reveal_strlit("yml");
    reveal_strlit("toml");
    reveal_strlit("md");
    reveal_strlit("markdown");
    reveal_strlit("html");
    reveal_strlit("htm");
    reveal_strlit("css");
    reveal_strlit("scss");
    reveal_strlit("sass");
    reveal_strlit("xml");
    reveal_strlit("lua");
    reveal_strlit("ex");
    reveal_strlit("exs");
    reveal_strlit("elm");
    reveal_strlit("hs");
    reveal_strlit("ml");
    reveal_strlit("mli");
    reveal_strlit("scala");
    reveal_strlit("dart");
    reveal_strlit("vue");
    reveal_strlit("svelte");
    assert("rs"@.len() == 2 && "rs"@[0] == 'r' && "rs"@[1] == 's');
    assert("ts"@.len() == 2 && "ts"@[0] == 't' && "ts"@[1] == 's');
    assert("tsx"@.len() == 3 && "tsx"@[0] == 't' && "tsx"@[1] == 's' && "tsx"@[2] == 'x');
    assert("js"@.len() == 2 && "js"@[0] == 'j' && "js"@[1] == 's');
    assert("jsx"@.len() == 3 && "jsx"@[0] == 'j' && "jsx"@[1] == 's' && "jsx"@[2] == 'x');
    assert("py"@.len() == 2 && "py"@[0] == 'p' && "py"@[1] == 'y');
    assert("go"@.len() == 2 && "go"@[0] == 'g' && "go"@[1] == 'o');
    assert("rb"@.len() == 2 && "rb"@[0] == 'r' && "rb"@[1] == 'b');
    assert("java"@.len() == 4 && "java"@[0] == 'j' && "java"@[1] == 'a' && "java"@[2] == 'v' && "java"@[3] == 'a');
    assert("kt"@.len() == 2 && "kt"@[0] == 'k' && "kt"@[1] == 't');
    assert("kts"@.len() == 3 && "kts"@[0] == 'k' && "kts"@[1] == 't' && "kts"@[2] == 's');
    assert("swift"@.len() == 5 && "swift"@[0] == 's' && "swift"@[1] == 'w' && "swift"@[2] == 'i' && "swift"@[3] == 'f' && "swift"@[4] == 't');
    assert("c"@.len() == 1 && "c"@[0] == 'c');
    assert("h"@.len() == 1 && "h"@[0] == 'h');
    assert("cpp"@.len() == 3 && "cpp"@[0] == 'c' && "cpp"@[1] == 'p' && "cpp"@[2] == 'p');
    assert("cc"@.len() == 2 && "cc"@[0] == 'c' && "cc"@[1] == 'c');
    assert("cxx"@.len() == 3 && "cxx"@[0] == 'c' && "cxx"@[1] == 'x' && "cxx"@[2] == 'x');
    assert("hpp"@.len() == 3 && "hpp"@[0] == 'h' && "hpp"@[1] == 'p' && "hpp"@[2] == 'p');
    assert("hh"@.len() == 2 && "hh"@[0] == 'h' && "hh"@[1] == 'h');
    assert("cs"@.len() == 2 && "cs"@[0] == 'c' && "cs"@[1] == 's');
    assert("php"@.len() == 3 && "php"@[0] == 'p' && "php"@[1] == 'h' && "php"@[2] == 'p');
    assert("sh"@.len() == 2 && "sh"@[0] == 's' && "sh"@[1] == 'h');
    assert("bash"@.len() == 4 && "bash"@[0] == 'b' && "bash"@[1] == 'a' && "bash"@[2] == 's' && "bash"@[3] == 'h');
    assert("zsh"@.len() == 3 && "zsh"@[0] == 'z' && "zsh"@[1] == 's' && "zsh"@[2] == 'h');
    assert("fish"@.len() == 4 && "fish"@[0] == 'f' && "fish"@[1] == 'i' && "fish"@[2] == 's' && "fish"@[3] == 'h');
    assert("ps1"@.len() == 3 && "ps1"@[0] == 'p' && "ps1"@[1] == 's' && "ps1"@[2] == '1');
    assert("psm1"@.len() == 4 && "psm1"@[0] == 'p' && "psm1"@[1] == 's' && "psm1"@[2] == 'm' && "psm1"@[3] == '1');
    assert("psd1"@.len() == 4 && "psd1"@[0] == 'p' && "psd1"@[1] == 's' && "psd1"@[2] == 'd' && "psd1"@[3] == '1');
    assert("sql"@.len() == 3 && "sql"@[0] == 's' && "sql"@[1] == 'q' && "sql"@[2] == 'l');
    assert("json"@.len() == 4 && "json"@[0] == 'j' && "json"@[1] == 's' && "json"@[2] == 'o' && "json"@[3] == 'n');
    assert("jsonc"@.len() == 5 && "jsonc"@[0] == 'j' && "jsonc"@[1] == 's' && "jsonc"@[2] == 'o' && "jsonc"@[3] == 'n' && "jsonc"@[4] == 'c');
    assert("json5"@.len() == 5 && "json5"@[0] == 'j' && "json5"@[1] == 's' && "json5"@[2] == 'o' && "json5"@[3] == 'n' && "json5"@[4] == '5');
    assert("yaml"@.len() == 4 && "yaml"@[0] == 'y' && "yaml"@[1] == 'a' && "yaml"@[2] == 'm' && "yaml"@[3] == 'l');
    assert("yml"@.len() == 3 && "yml"@[0] == 'y' && "yml"@[1] == 'm' && "yml"@[2] == 'l');
    assert("toml"@.len() == 4 && "toml"@[0] == 't' && "toml"@[1] == 'o' && "toml"@[2] == 'm' && "toml"@[3] == 'l');
    assert("md"@.len() == 2 && "md"@[0] == 'm' && "md"@[1] == 'd');
    assert("markdown"@.len() == 8 && "markdown"@[0] == 'm' && "markdown"@[1] == 'a' && "markdown"@[2] == 'r' && "markdown"@[3] == 'k' && "markdown"@[4] == 'd' && "markdown"@[5] == 'o' && "markdown"@[6] == 'w' && "markdown"@[7] == 'n');
    assert("html"@.len() == 4 && "html"@[0] == 'h' && "html"@[1] == 't' && "html"@[2] == 'm' && "html"@[3] == 'l');
    assert("htm"@.len() == 3 && "htm"@[0] == 'h' && "htm"@[1] == 't' && "htm"@[2] == 'm');
    assert("css"@.len() == 3 && "css"@[0] == 'c' && "css"@[1] == 's' && "css"@[2] == 's');
    assert("scss"@.len() == 4 && "scss"@[0] == 's' && "scss"@[1] == 'c' && "scss"@[2] == 's' && "scss"@[3] == 's');
    assert("sass"@.len() == 4 && "sass"@[0] == 's' && "sass"@[1] == 'a' && "sass"@[2] == 's' && "sass"@[3] == 's');
    assert("xml"@.len() == 3 && "xml"@[0] == 'x' && "xml"@[1] == 'm' && "xml"@[2] == 'l');
    assert("lua"@.len() == 3 && "lua"@[0] == 'l' && "lua"@[1] == 'u' && "lua"@[2] == 'a');
    assert("ex"@.len() == 2 && "ex"@[0] == 'e' && "ex"@[1] == 'x');
    assert("exs"@.len() == 3 && "exs"@[0] == 'e' && "exs"@[1] == 'x' && "exs"@[2] == 's');
    assert("elm"@.len() == 3 && "elm"@[0] == 'e' && "elm"@[1] == 'l' && "elm"@[2] == 'm');
    assert("hs"@.len() == 2 && "hs"@[0] == 'h' && "hs"@[1] == 's');
    assert("ml"@.len() == 2 && "ml"@[0] == 'm' && "ml"@[1] == 'l');
    assert("mli"@.len() == 3 && "mli"@[0] == 'm' && "mli"@[1] == 'l' && "mli"@[2] == 'i');
    assert("scala"@.len() == 5 && "scala"@[0] == 's' && "scala"@[1] == 'c' && "scala"@[2] == 'a' && "scala"@[3] == 'l' && "scala"@[4] == 'a');
    assert("dart"@.len() == 4 && "dart"@[0] == 'd' && "dart"@[1] == 'a' && "dart"@[2] == 'r' && "dart"@[3] == 't');
    assert("vue"@.len() == 3 && "vue"@[0] == 'v' && "vue"@[1] == 'u' && "vue"@[2] == 'e');
    assert("svelte"@.len() == 6 && "svelte"@[0] == 's' && "svelte"@[1] == 'v' && "svelte"@[2] == 'e' && "svelte"@[3] == 'l' && "svelte"@[4] == 't' && "svelte"@[5] == 'e');
}

} // verus!
