//! Whether a file counts as source code: decided from the guessed
//! media type and a catalogue of source-file extensions, both matched
//! case-insensitively on the extension.

use crate::text::{lower_chars, matches_at, spec_after_last, spec_lower, str_eq_chars, to_chars};
use vstd::prelude::*;

verus! {

/// Whether `l` is one of the catalogued source-file extensions, the
/// input already lowered.
pub open spec fn spec_code_ext_lowered(l: Seq<char>) -> bool {
    ||| l == "html"@
    ||| l == "htm"@
    ||| l == "css"@
    ||| l == "js"@
    ||| l == "ts"@
    ||| l == "jsx"@
    ||| l == "tsx"@
    ||| l == "vue"@
    ||| l == "svelte"@
    ||| l == "php"@
    ||| l == "asp"@
    ||| l == "aspx"@
    ||| l == "jsp"@
    ||| l == "erb"@
    ||| l == "ejs"@
    ||| l == "hbs"@
    ||| l == "mustache"@
    ||| l == "rs"@
    ||| l == "py"@
    ||| l == "java"@
    ||| l == "c"@
    ||| l == "cpp"@
    ||| l == "cc"@
    ||| l == "cxx"@
    ||| l == "h"@
    ||| l == "hpp"@
    ||| l == "hxx"@
    ||| l == "cs"@
    ||| l == "vb"@
    ||| l == "go"@
    ||| l == "rb"@
    ||| l == "pl"@
    ||| l == "pm"@
    ||| l == "lua"@
    ||| l == "swift"@
    ||| l == "kt"@
    ||| l == "scala"@
    ||| l == "clj"@
    ||| l == "cljs"@
    ||| l == "hs"@
    ||| l == "ml"@
    ||| l == "fs"@
    ||| l == "fsx"@
    ||| l == "elm"@
    ||| l == "dart"@
    ||| l == "r"@
    ||| l == "sh"@
    ||| l == "bash"@
    ||| l == "zsh"@
    ||| l == "fish"@
    ||| l == "csh"@
    ||| l == "tcsh"@
    ||| l == "ps1"@
    ||| l == "bat"@
    ||| l == "cmd"@
    ||| l == "json"@
    ||| l == "xml"@
    ||| l == "yaml"@
    ||| l == "yml"@
    ||| l == "toml"@
    ||| l == "ini"@
    ||| l == "cfg"@
    ||| l == "conf"@
    ||| l == "properties"@
    ||| l == "plist"@
    ||| l == "gradle"@
    ||| l == "maven"@
    ||| l == "sbt"@
    ||| l == "sql"@
    ||| l == "mysql"@
    ||| l == "pgsql"@
    ||| l == "sqlite"@
    ||| l == "makefile"@
    ||| l == "cmake"@
    ||| l == "dockerfile"@
    ||| l == "containerfile"@
    ||| l == "compose"@
    ||| l == "package"@
    ||| l == "lock"@
    ||| l == "requirements"@
    ||| l == "pipfile"@
    ||| l == "gemfile"@
    ||| l == "md"@
    ||| l == "rst"@
    ||| l == "tex"@
    ||| l == "latex"@
    ||| l == "vim"@
    ||| l == "emacs"@
    ||| l == "gitignore"@
    ||| l == "editorconfig"@
    ||| l == "eslintrc"@
    ||| l == "prettierrc"@
    ||| l == "babelrc"@
    ||| l == "webpack"@
    ||| l == "rollup"@
    ||| l == "vite"@
    ||| l == "tsconfig"@
    ||| l == "jsconfig"@
    ||| l == "tslint"@
    ||| l == "stylelint"@
    ||| l == "m"@
    ||| l == "mm"@
    ||| l == "xib"@
    ||| l == "storyboard"@
    ||| l == "pch"@
    ||| l == "pbxproj"@
    ||| l == "xcconfig"@
    ||| l == "proguard"@
    ||| l == "manifest"@
    ||| l == "lisp"@
    ||| l == "scm"@
    ||| l == "ss"@
    ||| l == "rkt"@
    ||| l == "el"@
    ||| l == "cl"@
    ||| l == "lsp"@
    ||| l == "ipynb"@
    ||| l == "rmd"@
    ||| l == "qmd"@
    ||| l == "jl"@
    ||| l == "wl"@
    ||| l == "nb"@
    ||| l == "gd"@
    ||| l == "shader"@
    ||| l == "hlsl"@
    ||| l == "glsl"@
    ||| l == "asm"@
    ||| l == "s"@
    ||| l == "nasm"@
    ||| l == "masm"@
    ||| l == "gas"@
    ||| l == "ld"@
    ||| l == "lds"@
}

/// Whether the extension, lowered, is one of the catalogued
/// source-file extensions.
pub open spec fn spec_is_code_extension(e: Seq<char>) -> bool {
    spec_code_ext_lowered(spec_lower(e))
}

/// Whether the guessed media type names source code on its own.
pub open spec fn spec_code_mime(m: Seq<char>) -> bool {
    ||| m == "application/javascript"@
    ||| m == "application/json"@
    ||| m == "application/xml"@
    ||| m == "application/x-httpd-php"@
    ||| m == "application/x-python-code"@
    ||| m == "application/x-sh"@
    ||| m == "application/x-shellscript"@
    ||| m == "application/x-perl"@
    ||| m == "application/x-ruby"@
    ||| m == "application/x-tcl"@
    ||| m == "application/x-csh"@
    ||| m == "application/x-javascript"@
}

/// The extension of the path: what follows the last dot of the last
/// path segment, unless that dot starts the segment.
pub open spec fn spec_extension_of(p: Seq<char>) -> Option<Seq<char>> {
    let f = spec_after_last(p, '/');
    match f.index_of_last('.') {
        Some(i) => if i > 0 {
            Some(f.skip(i + 1))
        } else {
            None
        },
        None => None,
    }
}

/// What guessing the path's media type yields; the guess depends on
/// the path alone and is the same on every run.
pub uninterp spec fn spec_mime_of(path: Seq<char>) -> Option<Seq<char>>;

/// Whether the file at the path counts as source code: a file without
/// an extension does not; a textual media type defers to the
/// extension catalogue; a scripting media type counts on its own; any
/// other guess, or none, defers to the catalogue as well.
pub open spec fn spec_is_code_file(p: Seq<char>) -> bool {
    match spec_extension_of(p) {
        Some(e) => (match spec_mime_of(p) {
            Some(m) => if m.len() >= 5 && m.take(5) == "text/"@ {
                spec_is_code_extension(e)
            } else if spec_code_mime(m) {
                true
            } else {
                spec_is_code_extension(e)
            },
            None => spec_is_code_extension(e),
        }),
        None => false,
    }
}

/// Relies on `mime_guess::from_path` and `Mime`'s `Display`: the
/// guessed media type is read off a static table keyed by the path's
/// extension, so it depends on the path alone.
#[verifier::external_body]
fn guess_mime(path: &str) -> (r: Option<String>)
    ensures
        match r {
            Some(m) => spec_mime_of(path@) == Some(m@),
            None => spec_mime_of(path@) is None,
        },
{
    mime_guess::from_path(path).first().map(|m| m.to_string())
}

/// Whether the extension, compared without regard to letter case, is
/// one of the catalogued source-file extensions.
pub fn is_code_extension(extension: Option<&str>) -> (r: bool)
    ensures
        match extension {
            Some(e) => r == spec_is_code_extension(e@),
            None => r == false,
        },
{
    let e = match extension {
        Some(e) => e,
        None => {
            return false;
        },
    };
    let cs = to_chars(e);
    let l = lower_chars(&cs);
    false
        || str_eq_chars("html", &l)
        || str_eq_chars("htm", &l)
        || str_eq_chars("css", &l)
        || str_eq_chars("js", &l)
        || str_eq_chars("ts", &l)
        || str_eq_chars("jsx", &l)
        || str_eq_chars("tsx", &l)
        || str_eq_chars("vue", &l)
        || str_eq_chars("svelte", &l)
        || str_eq_chars("php", &l)
        || str_eq_chars("asp", &l)
        || str_eq_chars("aspx", &l)
        || str_eq_chars("jsp", &l)
        || str_eq_chars("erb", &l)
        || str_eq_chars("ejs", &l)
        || str_eq_chars("hbs", &l)
        || str_eq_chars("mustache", &l)
        || str_eq_chars("rs", &l)
        || str_eq_chars("py", &l)
        || str_eq_chars("java", &l)
        || str_eq_chars("c", &l)
        || str_eq_chars("cpp", &l)
        || str_eq_chars("cc", &l)
        || str_eq_chars("cxx", &l)
        || str_eq_chars("h", &l)
        || str_eq_chars("hpp", &l)
        || str_eq_chars("hxx", &l)
        || str_eq_chars("cs", &l)
        || str_eq_chars("vb", &l)
        || str_eq_chars("go", &l)
        || str_eq_chars("rb", &l)
        || str_eq_chars("pl", &l)
        || str_eq_chars("pm", &l)
        || str_eq_chars("lua", &l)
        || str_eq_chars("swift", &l)
        || str_eq_chars("kt", &l)
        || str_eq_chars("scala", &l)
        || str_eq_chars("clj", &l)
        || str_eq_chars("cljs", &l)
        || str_eq_chars("hs", &l)
        || str_eq_chars("ml", &l)
        || str_eq_chars("fs", &l)
        || str_eq_chars("fsx", &l)
        || str_eq_chars("elm", &l)
        || str_eq_chars("dart", &l)
        || str_eq_chars("r", &l)
        || str_eq_chars("sh", &l)
        || str_eq_chars("bash", &l)
        || str_eq_chars("zsh", &l)
        || str_eq_chars("fish", &l)
        || str_eq_chars("csh", &l)
        || str_eq_chars("tcsh", &l)
        || str_eq_chars("ps1", &l)
        || str_eq_chars("bat", &l)
        || str_eq_chars("cmd", &l)
        || str_eq_chars("json", &l)
        || str_eq_chars("xml", &l)
        || str_eq_chars("yaml", &l)
        || str_eq_chars("yml", &l)
        || str_eq_chars("toml", &l)
        || str_eq_chars("ini", &l)
        || str_eq_chars("cfg", &l)
        || str_eq_chars("conf", &l)
        || str_eq_chars("properties", &l)
        || str_eq_chars("plist", &l)
        || str_eq_chars("gradle", &l)
        || str_eq_chars("maven", &l)
        || str_eq_chars("sbt", &l)
        || str_eq_chars("sql", &l)
        || str_eq_chars("mysql", &l)
        || str_eq_chars("pgsql", &l)
        || str_eq_chars("sqlite", &l)
        || str_eq_chars("makefile", &l)
        || str_eq_chars("cmake", &l)
        || str_eq_chars("dockerfile", &l)
        || str_eq_chars("containerfile", &l)
        || str_eq_chars("compose", &l)
        || str_eq_chars("package", &l)
        || str_eq_chars("lock", &l)
        || str_eq_chars("requirements", &l)
        || str_eq_chars("pipfile", &l)
        || str_eq_chars("gemfile", &l)
        || str_eq_chars("md", &l)
        || str_eq_chars("rst", &l)
        || str_eq_chars("tex", &l)
        || str_eq_chars("latex", &l)
        || str_eq_chars("vim", &l)
        || str_eq_chars("emacs", &l)
        || str_eq_chars("gitignore", &l)
        || str_eq_chars("editorconfig", &l)
        || str_eq_chars("eslintrc", &l)
        || str_eq_chars("prettierrc", &l)
        || str_eq_chars("babelrc", &l)
        || str_eq_chars("webpack", &l)
        || str_eq_chars("rollup", &l)
        || str_eq_chars("vite", &l)
        || str_eq_chars("tsconfig", &l)
        || str_eq_chars("jsconfig", &l)
        || str_eq_chars("tslint", &l)
        || str_eq_chars("stylelint", &l)
        || str_eq_chars("m", &l)
        || str_eq_chars("mm", &l)
        || str_eq_chars("xib", &l)
        || str_eq_chars("storyboard", &l)
        || str_eq_chars("pch", &l)
        || str_eq_chars("pbxproj", &l)
        || str_eq_chars("xcconfig", &l)
        || str_eq_chars("proguard", &l)
        || str_eq_chars("manifest", &l)
        || str_eq_chars("lisp", &l)
        || str_eq_chars("scm", &l)
        || str_eq_chars("ss", &l)
        || str_eq_chars("rkt", &l)
        || str_eq_chars("el", &l)
        || str_eq_chars("cl", &l)
        || str_eq_chars("lsp", &l)
        || str_eq_chars("ipynb", &l)
        || str_eq_chars("rmd", &l)
        || str_eq_chars("qmd", &l)
        || str_eq_chars("jl", &l)
        || str_eq_chars("wl", &l)
        || str_eq_chars("nb", &l)
        || str_eq_chars("gd", &l)
        || str_eq_chars("shader", &l)
        || str_eq_chars("hlsl", &l)
        || str_eq_chars("glsl", &l)
        || str_eq_chars("asm", &l)
        || str_eq_chars("s", &l)
        || str_eq_chars("nasm", &l)
        || str_eq_chars("masm", &l)
        || str_eq_chars("gas", &l)
        || str_eq_chars("ld", &l)
        || str_eq_chars("lds", &l)
}

/// Whether the file at the path counts as source code. A file without
/// an extension never does; otherwise the guessed media type and the
/// extension catalogue decide together.
pub fn is_code_file(path: &str) -> (r: bool)
    ensures
        r == spec_is_code_file(path@),
{
    let cs = to_chars(path);
    let ext_range = match extension_range(&cs) {
        Some(p) => p,
        None => {
            return false;
        },
    };
    let ev = crate::text::sub_vec(&cs, ext_range.0, ext_range.1);
    let ext = crate::text::from_chars(&ev);
    match guess_mime(path) {
        Some(m) => {
            let mv = to_chars(m.as_str());
            if matches_at(&mv, 0, "text/") {
                proof {
                    reveal_strlit("text/");
                    assert(mv@.take(5) =~= mv@.subrange(0, 5));
                }
                is_code_extension(Some(ext.as_str()))
            } else {
                proof {
                    reveal_strlit("text/");
                    if mv@.len() >= 5 {
                        assert(mv@.take(5) =~= mv@.subrange(0, 5));
                    }
                }
                let scripting = false
        || str_eq_chars("application/javascript", &mv)
        || str_eq_chars("application/json", &mv)
        || str_eq_chars("application/xml", &mv)
        || str_eq_chars("application/x-httpd-php", &mv)
        || str_eq_chars("application/x-python-code", &mv)
        || str_eq_chars("application/x-sh", &mv)
        || str_eq_chars("application/x-shellscript", &mv)
        || str_eq_chars("application/x-perl", &mv)
        || str_eq_chars("application/x-ruby", &mv)
        || str_eq_chars("application/x-tcl", &mv)
        || str_eq_chars("application/x-csh", &mv)
        || str_eq_chars("application/x-javascript", &mv);
                if scripting {
                    true
                } else {
                    is_code_extension(Some(ext.as_str()))
                }
            }
        },
        None => is_code_extension(Some(ext.as_str())),
    }
}

/// The character range of the path's extension, when it has one.
fn extension_range(cs: &Vec<char>) -> (r: Option<(usize, usize)>)
    ensures
        match r {
            Some(p) => {
                &&& p.0 <= p.1 <= cs@.len()
                &&& spec_extension_of(cs@) == Some(cs@.subrange(p.0 as int, p.1 as int))
            },
            None => spec_extension_of(cs@) is None,
        },
{
    let fstart: usize = match crate::text::rfind_from(cs, 0, '/') {
        Some(i) => {
            proof {
                crate::text::lemma_index_of_last_is(cs@, '/', i as int);
            }
            i + 1
        },
        None => {
            proof {
                crate::text::lemma_index_of_first_none(cs@, '/');
            }
            0
        },
    };
    let ghost f = spec_after_last(cs@, '/');
    proof {
        assert(f =~= cs@.skip(fstart as int));
    }
    match crate::text::rfind_from(cs, fstart, '.') {
        Some(d) => {
            proof {
                crate::text::lemma_index_of_last_is(f, '.', d - fstart);
            }
            if d > fstart {
                proof {
                    assert(f.skip(d - fstart + 1) =~= cs@.subrange(
                        d + 1 as int,
                        cs@.len() as int,
                    ));
                }
                Some((d + 1, cs.len()))
            } else {
                None
            }
        },
        None => {
            proof {
                crate::text::lemma_index_of_first_none(f, '.');
            }
            None
        },
    }
}

} // verus!
