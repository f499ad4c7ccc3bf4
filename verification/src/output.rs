//! Choosing a generator, deciding which generated files need writing and
//! where the optional output partitions go, and rendering keys in hex.
use crate::error::CodegenError;
use crate::generators::cpp::CppGenerator;
use crate::generators::js_quickjs::JsQuickjsGenerator;
use crate::generators::lua::LuaGenerator;
use crate::generators::{CodeGenerator, GeneratedFiles};
use crate::ir::ValidatedIr;
use crate::text::{chars_of, push_char, split_chars, split_seq, str_eq};
use vstd::prelude::*;

verus! {

/// A target language of the code generator.
#[derive(Debug, Clone, Copy, PartialEq, Eq, Structural)]
pub enum Lang {
    Rust,
    Cpp,
    CSharp,
    Python,
    Lua,
    JsQuickJs,
}

/// Which side of the plugin boundary to generate for.
#[derive(Debug, Clone, Copy, PartialEq, Eq, Structural)]
pub enum Side {
    Host,
    Guest,
}

/// The language a command-line name selects, if any.
pub open spec fn lang_of(s: Seq<char>) -> Option<Lang> {
    if s == "rust"@ {
        Some(Lang::Rust)
    } else if s == "cpp"@ || s == "c++"@ {
        Some(Lang::Cpp)
    } else if s == "csharp"@ || s == "c#"@ {
        Some(Lang::CSharp)
    } else if s == "python"@ || s == "py"@ {
        Some(Lang::Python)
    } else if s == "lua"@ {
        Some(Lang::Lua)
    } else if s == "js-quickjs"@ {
        Some(Lang::JsQuickJs)
    } else {
        None
    }
}

/// The message of an unknown language name.
pub open spec fn unknown_lang_message(s: Seq<char>) -> Seq<char> {
    "Unknown language: `"@ + s + "`. Supported: rust, cpp, csharp, python, lua, js-quickjs"@
}

/// Parse a command-line language name.
pub fn parse_lang(lang: &str) -> (r: Result<Lang, CodegenError>)
    ensures
        match lang_of(lang@) {
            Some(l) => r == Ok::<Lang, CodegenError>(l),
            None => r matches Err(CodegenError::ValidationFailed { message }) && message@ == unknown_lang_message(lang@),
        },
{
    if str_eq(lang, "rust") {
        Ok(Lang::Rust)
    } else if str_eq(lang, "cpp") || str_eq(lang, "c++") {
        Ok(Lang::Cpp)
    } else if str_eq(lang, "csharp") || str_eq(lang, "c#") {
        Ok(Lang::CSharp)
    } else if str_eq(lang, "python") || str_eq(lang, "py") {
        Ok(Lang::Python)
    } else if str_eq(lang, "lua") {
        Ok(Lang::Lua)
    } else if str_eq(lang, "js-quickjs") {
        Ok(Lang::JsQuickJs)
    } else {
        let mut message: String = "Unknown language: `".to_owned();
        message.append(lang);
        message.append("`. Supported: rust, cpp, csharp, python, lua, js-quickjs");
        Err(CodegenError::ValidationFailed { message })
    }
}

/// What the Python generator reports: it is not implemented yet.
pub const PYTHON_NOT_IMPLEMENTED: &'static str = "Python generator not yet implemented (planned for Epic 10)";

/// Generate the files of one side in one language. The Python generator is
/// not implemented yet and says so; Rust and C# have no generator in this
/// library and are reported as unsupported.
pub fn generate_files(ir: &ValidatedIr, lang: Lang, side: Side) -> (r: Result<GeneratedFiles, CodegenError>)
    ensures
        lang == Lang::Python ==> (r matches Err(CodegenError::ValidationFailed { message }) && message@ == PYTHON_NOT_IMPLEMENTED@),
        (lang == Lang::Rust || lang == Lang::CSharp) ==> (r matches Err(CodegenError::UnsupportedLanguage { lang: l }) && l@
            == lang_name(lang)),
        (lang == Lang::Cpp || lang == Lang::Lua) ==> r is Ok,
        lang == Lang::Cpp && side == Side::Host ==> (r matches Ok(f) && crate::generators::files_view(f.files@)
            == crate::generators::cpp::cpp_host_files(*ir)),
        lang == Lang::Cpp && side == Side::Guest ==> (r matches Ok(f) && crate::generators::files_view(f.files@)
            == crate::generators::cpp::cpp_guest_files(*ir)),
        lang == Lang::Lua && side == Side::Host ==> (r matches Ok(f) && crate::generators::files_view(f.files@)
            == crate::generators::lua::lua_host_files(*ir)),
        lang == Lang::Lua && side == Side::Guest ==> (r matches Ok(f) && crate::generators::files_view(f.files@)
            == crate::generators::lua::lua_guest_files(*ir)),
        lang == Lang::JsQuickJs && side == Side::Host ==> match r {
            Ok(f) => crate::generators::js_quickjs::js_host_outcome(*ir).1 is None && crate::generators::files_view(f.files@)
                == crate::generators::js_quickjs::js_host_outcome(*ir).0,
            Err(e) => crate::generators::js_quickjs::js_host_outcome(*ir).1 matches Some(n)
                && crate::generators::js_quickjs::unsupported_is(e, n),
        },
        lang == Lang::JsQuickJs && side == Side::Guest ==> match r {
            Ok(f) => crate::generators::js_quickjs::js_guest_outcome(*ir).1 is None && crate::generators::files_view(f.files@)
                == crate::generators::js_quickjs::js_guest_outcome(*ir).0,
            Err(e) => crate::generators::js_quickjs::js_guest_outcome(*ir).1 matches Some(n)
                && crate::generators::js_quickjs::unsupported_is(e, n),
        },
{
    let mut files: GeneratedFiles = GeneratedFiles::default();
    assert(crate::generators::files_view(files.files@) =~= Seq::empty());
    match lang {
        Lang::Cpp => {
            let g: CppGenerator = CppGenerator;
            let r: Result<(), CodegenError> = match side {
                Side::Host => g.generate_host(ir, &mut files),
                Side::Guest => g.generate_guest(ir, &mut files),
            };
            match r {
                Ok(_) => Ok(files),
                Err(e) => Err(e),
            }
        },
        Lang::Lua => {
            let g: LuaGenerator = LuaGenerator;
            let r: Result<(), CodegenError> = match side {
                Side::Host => g.generate_host(ir, &mut files),
                Side::Guest => g.generate_guest(ir, &mut files),
            };
            match r {
                Ok(_) => Ok(files),
                Err(e) => Err(e),
            }
        },
        Lang::JsQuickJs => {
            let g: JsQuickjsGenerator = JsQuickjsGenerator;
            let r: Result<(), CodegenError> = match side {
                Side::Host => g.generate_host(ir, &mut files),
                Side::Guest => g.generate_guest(ir, &mut files),
            };
            match r {
                Ok(_) => Ok(files),
                Err(e) => Err(e),
            }
        },
        Lang::Python => Err(CodegenError::ValidationFailed { message: PYTHON_NOT_IMPLEMENTED.to_owned() }),
        _ => Err(CodegenError::UnsupportedLanguage { lang: lang_name_of(lang) }),
    }
}

/// The canonical command-line name of a language.
pub open spec fn lang_name(lang: Lang) -> Seq<char> {
    match lang {
        Lang::Rust => "rust"@,
        Lang::Cpp => "cpp"@,
        Lang::CSharp => "csharp"@,
        Lang::Python => "python"@,
        Lang::Lua => "lua"@,
        Lang::JsQuickJs => "js-quickjs"@,
    }
}

/// Every language's canonical name selects that language again.
pub proof fn lang_name_roundtrip(lang: Lang)
    ensures
        lang_of(lang_name(lang)) == Some(lang),
{
    reveal_strlit("rust");
    reveal_strlit("cpp");
    reveal_strlit("c++");
    reveal_strlit("csharp");
    reveal_strlit("c#");
    reveal_strlit("python");
    reveal_strlit("py");
    reveal_strlit("lua");
    reveal_strlit("js-quickjs");
    let n = lang_name(lang);
    assert(n != "rust"@ ==> n[0] != 'r' || n.len() != 4);
    assert(n != "cpp"@ && n != "c++"@ ==> n[0] != 'c' || n.len() != 3);
    assert(n != "csharp"@ && n != "c#"@ ==> n[0] != 'c' || (n.len() != 6 && n.len() != 2));
    assert(n != "python"@ && n != "py"@ ==> n[0] != 'p' || (n.len() != 6 && n.len() != 2));
    assert(n != "lua"@ ==> n[0] != 'l' || n.len() != 3);
}

/// The canonical command-line name of a language.
pub fn lang_name_of(lang: Lang) -> (r: String)
    ensures
        r@ == lang_name(lang),
{
    match lang {
        Lang::Rust => "rust".to_owned(),
        Lang::Cpp => "cpp".to_owned(),
        Lang::CSharp => "csharp".to_owned(),
        Lang::Python => "python".to_owned(),
        Lang::Lua => "lua".to_owned(),
        Lang::JsQuickJs => "js-quickjs".to_owned(),
    }
}

/// How many generated files were (re)written and how many were skipped
/// because their on-disk content already matched.
#[derive(Debug, Clone, Copy)]
pub struct WriteSummary {
    pub written: usize,
    pub unchanged: usize,
}

impl Default for WriteSummary {
    fn default() -> (r: Self)
        ensures
            r.written == 0,
            r.unchanged == 0,
    {
        WriteSummary { written: 0, unchanged: 0 }
    }
}

impl WriteSummary {
    /// Count one file as written (`wrote`) or as left unchanged.
    pub fn record(&mut self, wrote: bool)
        requires
            wrote ==> old(self).written < usize::MAX,
            !wrote ==> old(self).unchanged < usize::MAX,
        ensures
            wrote ==> final(self).written == old(self).written + 1 && final(self).unchanged == old(self).unchanged,
            !wrote ==> final(self).unchanged == old(self).unchanged + 1 && final(self).written == old(self).written,
    {
        if wrote {
            self.written = self.written + 1;
        } else {
            self.unchanged = self.unchanged + 1;
        }
    }
}

/// Whether a generated file has to be written: always when it is forced,
/// otherwise only when the disk does not already hold exactly its content.
pub fn needs_write(force_regenerate: bool, existing: Option<&str>, content: &str) -> (r: bool)
    ensures
        r == (force_regenerate || !(existing matches Some(e) && e@ == content@)),
{
    if force_regenerate {
        return true;
    }
    match existing {
        Some(e) => !str_eq(e, content),
        None => true,
    }
}

/// The lowercase hexadecimal digit for `d` (`d < 16`).
pub open spec fn lower_hex_digit(d: nat) -> char {
    if d < 10 {
        (48 + d) as char
    } else {
        (87 + d) as char
    }
}

/// `bytes` as lowercase hexadecimal, two digits per byte, no prefix.
pub open spec fn hex_of_bytes(bytes: Seq<u8>) -> Seq<char>
    decreases bytes.len(),
{
    if bytes.len() == 0 {
        Seq::<char>::empty()
    } else {
        let b: u8 = bytes.last();
        hex_of_bytes(bytes.drop_last()) + seq![lower_hex_digit((b / 16) as nat), lower_hex_digit((b % 16) as nat)]
    }
}

fn lower_hex_char(d: u8) -> (c: char)
    requires
        d < 16,
    ensures
        c == lower_hex_digit(d as nat),
{
    if d < 10 {
        (48 + d) as char
    } else {
        (87 + d) as char
    }
}

/// Encodes `bytes` as a lowercase hex string (no `0x` prefix).
pub fn hex_encode(bytes: &[u8]) -> (r: String)
    ensures
        r@ == hex_of_bytes(bytes@),
        r@.len() == 2 * bytes@.len(),
{
    let mut out: String = String::new();
    let mut i: usize = 0;
    while i < bytes.len()
        invariant
            i <= bytes@.len(),
            out@ == hex_of_bytes(bytes@.subrange(0, i as int)),
        decreases bytes@.len() - i,
    {
        let b: u8 = bytes[i];
        push_char(&mut out, lower_hex_char(b / 16));
        push_char(&mut out, lower_hex_char(b % 16));
        proof {
            let next = bytes@.subrange(0, i + 1);
            assert(next.drop_last() =~= bytes@.subrange(0, i as int));
            assert(next.last() == b);
        }
        i = i + 1;
    }
    assert(bytes@.subrange(0, bytes@.len() as int) =~= bytes@);
    proof {
        lemma_hex_of_bytes_len(bytes@);
    }
    out
}

/// Two digits per byte.
pub proof fn lemma_hex_of_bytes_len(bytes: Seq<u8>)
    ensures
        hex_of_bytes(bytes).len() == 2 * bytes.len(),
    decreases bytes.len(),
{
    if bytes.len() > 0 {
        lemma_hex_of_bytes_len(bytes.drop_last());
    }
}

/// Where one optional partition of the generated output (domain types, guest
/// contracts) goes. Import strings have been checked against the target
/// language's import syntax (`import_ok`).
#[derive(Debug, Clone, PartialEq, Eq)]
pub enum OutputDestination {
    /// Emitted together with the bindings.
    Inline,
    /// Not emitted at all.
    Omit,
    /// Emitted under `root`; bindings reach it through `import`.
    Emit { root: String, import: String },
    /// Not emitted; bindings reach an existing module through `import`.
    ImportOnly { import: String },
}

/// The message for an output root given together with its omit flag.
pub open spec fn omit_conflict_message(out_flag: Seq<char>) -> Seq<char> {
    out_flag + " cannot be combined with its omit flag"@
}

/// The message for an output root given without its import.
pub open spec fn missing_import_message(out_flag: Seq<char>) -> Seq<char> {
    out_flag + " requires its matching import flag"@
}

/// The three command-line options of one output partition.
#[derive(Debug, Clone)]
pub struct PartitionOutputArgs {
    pub out: Option<String>,
    pub import: Option<String>,
    pub omit: bool,
}

// ─── Import syntax ──────────────────────────────────────────────────────────

/// An ASCII letter or `_`.
pub open spec fn ascii_ident_start(c: char) -> bool {
    ('a' <= c && c <= 'z') || ('A' <= c && c <= 'Z') || c == '_'
}

/// An ASCII letter, digit or `_`.
pub open spec fn ascii_ident_cont(c: char) -> bool {
    ascii_ident_start(c) || ('0' <= c && c <= '9')
}

/// A non-empty ASCII identifier.
pub open spec fn ascii_ident(p: Seq<char>) -> bool {
    p.len() > 0 && ascii_ident_start(p[0]) && forall|i: int| 0 <= i < p.len() ==> ascii_ident_cont(#[trigger] p[i])
}

/// A character allowed in one segment of a file or package path.
pub open spec fn segment_char(c: char) -> bool {
    ascii_ident_cont(c) || c == '.' || c == '-'
}

/// One segment of a relative-free path: non-empty, not `.` or `..`, made of
/// ASCII letters, digits, `_`, `.` and `-`.
pub open spec fn path_segment(p: Seq<char>) -> bool {
    &&& p.len() > 0
    &&& !(p.len() == 1 && p[0] == '.')
    &&& !(p.len() == 2 && p[0] == '.' && p[1] == '.')
    &&& forall|i: int| 0 <= i < p.len() ==> segment_char(#[trigger] p[i])
}

/// The first segment of a JavaScript module specifier: a path segment,
/// possibly behind the `@` of a package scope.
pub open spec fn js_first_segment(p: Seq<char>) -> bool {
    if p.len() > 0 && p[0] == '@' {
        path_segment(p.drop_first())
    } else {
        path_segment(p)
    }
}

/// Whether generated bindings in `lang` can name the module `import`:
/// - Rust: a path of identifiers joined by `::`;
/// - C++: an include path of segments joined by `/`, none of them `.` or `..`
///   or empty (so neither absolute nor climbing out);
/// - C#, Python, Lua: a dotted name of identifiers;
/// - QuickJS: a bare module specifier of segments joined by `/`, the first
///   possibly a `@scope`, none of them `.`, `..` or empty.
pub open spec fn import_ok(lang: Lang, import: Seq<char>) -> bool {
    match lang {
        Lang::Rust => {
            let ps = split_seq(import, ':');
            ps.len() % 2 == 1 && forall|k: int|
                0 <= k < ps.len() ==> (if k % 2 == 0 {
                    ascii_ident(#[trigger] ps[k])
                } else {
                    ps[k].len() == 0
                })
        },
        Lang::Cpp => {
            let ps = split_seq(import, '/');
            forall|k: int| 0 <= k < ps.len() ==> path_segment(#[trigger] ps[k])
        },
        Lang::JsQuickJs => {
            let ps = split_seq(import, '/');
            js_first_segment(ps[0]) && forall|k: int| 1 <= k < ps.len() ==> path_segment(#[trigger] ps[k])
        },
        _ => {
            let ps = split_seq(import, '.');
            forall|k: int| 0 <= k < ps.len() ==> ascii_ident(#[trigger] ps[k])
        },
    }
}

/// The message for an import the language cannot name.
pub open spec fn invalid_import_message(lang: Lang, import: Seq<char>) -> Seq<char> {
    "invalid "@ + lang_name(lang) + " import `"@ + import + "`"@
}

fn ascii_ident_chars(p: &Vec<char>) -> (r: bool)
    ensures
        r == ascii_ident(p@),
{
    if p.len() == 0 {
        return false;
    }
    let c0: char = p[0];
    if !(('a' <= c0 && c0 <= 'z') || ('A' <= c0 && c0 <= 'Z') || c0 == '_') {
        return false;
    }
    let mut i: usize = 0;
    while i < p.len()
        invariant
            i <= p@.len(),
            forall|j: int| 0 <= j < i ==> ascii_ident_cont(#[trigger] p@[j]),
        decreases p@.len() - i,
    {
        let c: char = p[i];
        if !(('a' <= c && c <= 'z') || ('A' <= c && c <= 'Z') || c == '_' || ('0' <= c && c <= '9')) {
            assert(!ascii_ident_cont(p@[i as int]));
            return false;
        }
        i = i + 1;
    }
    true
}

fn path_segment_chars(p: &Vec<char>) -> (r: bool)
    ensures
        r == path_segment(p@),
{
    let n: usize = p.len();
    if n == 0 || (n == 1 && p[0] == '.') || (n == 2 && p[0] == '.' && p[1] == '.') {
        return false;
    }
    let mut i: usize = 0;
    while i < n
        invariant
            n == p@.len(),
            i <= n,
            forall|j: int| 0 <= j < i ==> segment_char(#[trigger] p@[j]),
        decreases n - i,
    {
        let c: char = p[i];
        if !(('a' <= c && c <= 'z') || ('A' <= c && c <= 'Z') || c == '_' || ('0' <= c && c <= '9') || c == '.' || c == '-') {
            assert(!segment_char(p@[i as int]));
            return false;
        }
        i = i + 1;
    }
    true
}

/// Whether generated bindings in `lang` can name the module `import`.
pub fn import_is_valid(lang: Lang, import: &str) -> (r: bool)
    ensures
        r == import_ok(lang, import@),
{
    let chars: Vec<char> = chars_of(import);
    match lang {
        Lang::Rust => {
            let ps: Vec<Vec<char>> = split_chars(&chars, ':');
            if ps.len() % 2 != 1 {
                return false;
            }
            let mut k: usize = 0;
            while k < ps.len()
                invariant
                    lang == Lang::Rust,
                    k <= ps@.len(),
                    ps@.len() == split_seq(import@, ':').len(),
                    forall|j: int| 0 <= j < ps@.len() ==> #[trigger] ps@[j]@ == split_seq(import@, ':')[j],
                    forall|j: int|
                        0 <= j < k ==> (if j % 2 == 0 {
                            ascii_ident(#[trigger] split_seq(import@, ':')[j])
                        } else {
                            split_seq(import@, ':')[j].len() == 0
                        }),
                decreases ps@.len() - k,
            {
                let ok: bool = if k % 2 == 0 {
                    ascii_ident_chars(&ps[k])
                } else {
                    ps[k].len() == 0
                };
                if !ok {
                    proof {
                        let sp = split_seq(import@, ':');
                        assert(ps@[k as int]@ == sp[k as int]);
                        assert(!(if k % 2 == 0 {
                            ascii_ident(sp[k as int])
                        } else {
                            sp[k as int].len() == 0
                        }));
                    }
                    return false;
                }
                k = k + 1;
            }
            true
        },
        Lang::Cpp | Lang::JsQuickJs => {
            let ps: Vec<Vec<char>> = split_chars(&chars, '/');
            proof {
                crate::text::lemma_split_nonempty(import@, '/');
            }
            let mut k: usize = 0;
            if lang == Lang::JsQuickJs {
                let first: &Vec<char> = &ps[0];
                let ok: bool = if first.len() > 0 && first[0] == '@' {
                    let rest: Vec<char> = crate::text::slice_chars(first, 1, first.len());
                    assert(rest@ =~= first@.drop_first());
                    path_segment_chars(&rest)
                } else {
                    path_segment_chars(first)
                };
                if !ok {
                    return false;
                }
                k = 1;
            }
            while k < ps.len()
                invariant
                    lang == Lang::Cpp || lang == Lang::JsQuickJs,
                    1 <= ps@.len(),
                    lang == Lang::JsQuickJs ==> 1 <= k,
                    k <= ps@.len(),
                    ps@.len() == split_seq(import@, '/').len(),
                    forall|j: int| 0 <= j < ps@.len() ==> #[trigger] ps@[j]@ == split_seq(import@, '/')[j],
                    lang == Lang::JsQuickJs ==> js_first_segment(split_seq(import@, '/')[0]),
                    forall|j: int|
                        (if lang == Lang::JsQuickJs { 1int } else { 0int }) <= j < k ==> path_segment(
                            #[trigger] split_seq(import@, '/')[j],
                        ),
                decreases ps@.len() - k,
            {
                if !path_segment_chars(&ps[k]) {
                    proof {
                        let sp = split_seq(import@, '/');
                        assert(ps@[k as int]@ == sp[k as int]);
                        assert(!path_segment(sp[k as int]));
                    }
                    return false;
                }
                k = k + 1;
            }
            true
        },
        _ => {
            let ps: Vec<Vec<char>> = split_chars(&chars, '.');
            let mut k: usize = 0;
            while k < ps.len()
                invariant
                    lang != Lang::Rust && lang != Lang::Cpp && lang != Lang::JsQuickJs,
                    k <= ps@.len(),
                    ps@.len() == split_seq(import@, '.').len(),
                    forall|j: int| 0 <= j < ps@.len() ==> #[trigger] ps@[j]@ == split_seq(import@, '.')[j],
                    forall|j: int| 0 <= j < k ==> ascii_ident(#[trigger] split_seq(import@, '.')[j]),
                decreases ps@.len() - k,
            {
                if !ascii_ident_chars(&ps[k]) {
                    proof {
                        let sp = split_seq(import@, '.');
                        assert(ps@[k as int]@ == sp[k as int]);
                        assert(!ascii_ident(sp[k as int]));
                    }
                    return false;
                }
                k = k + 1;
            }
            true
        },
    }
}

/// Whether `d` is what `output_destination` decides for accepted `args`.
pub open spec fn destination_of(args: PartitionOutputArgs, d: OutputDestination) -> bool {
    if args.omit {
        args.out is None && args.import is None && d == OutputDestination::Omit
    } else {
        match (args.out, args.import) {
            (None, None) => d == OutputDestination::Inline,
            (Some(_), None) => false,
            (Some(root), Some(import)) => d matches OutputDestination::Emit { root: r, import: i } && r@ == root@
                && i@ == import@,
            (None, Some(import)) => d matches OutputDestination::ImportOnly { import: i } && i@ == import@,
        }
    }
}

/// Whether `output_destination` accepts `args` for `lang`.
pub open spec fn destination_ok(lang: Lang, args: PartitionOutputArgs) -> bool {
    if args.omit {
        args.out is None && args.import is None
    } else {
        match args.import {
            None => args.out is None,
            Some(i) => import_ok(lang, i@),
        }
    }
}

/// The message `output_destination` gives when it refuses `args`.
pub open spec fn destination_error(lang: Lang, out_flag: Seq<char>, args: PartitionOutputArgs) -> Seq<char> {
    if args.omit {
        omit_conflict_message(out_flag)
    } else if args.import is None {
        missing_import_message(out_flag)
    } else {
        invalid_import_message(lang, args.import->0@)
    }
}

fn checked_import(lang: Lang, import: String) -> (r: Result<String, CodegenError>)
    ensures
        import_ok(lang, import@) ==> (r matches Ok(i) && i@ == import@),
        !import_ok(lang, import@) ==> (r matches Err(CodegenError::ValidationFailed { message })
            && message@ == invalid_import_message(lang, import@)),
{
    if import_is_valid(lang, import.as_str()) {
        Ok(import)
    } else {
        let mut message: String = "invalid ".to_owned();
        let name: String = lang_name_of(lang);
        message.append(name.as_str());
        message.append(" import `");
        message.append(import.as_str());
        message.append("`");
        Err(CodegenError::ValidationFailed { message })
    }
}

/// Decide where one partition goes from its three command-line options: the
/// omit flag excludes the other two; an output root needs an import; an
/// import alone points at an existing module; nothing at all keeps it inline.
/// Every import given must be one `lang` can name.
pub fn output_destination(lang: Lang, out_flag: &str, args: PartitionOutputArgs) -> (r: Result<OutputDestination, CodegenError>)
    ensures
        destination_ok(lang, args) ==> (r matches Ok(d) && destination_of(args, d)),
        !destination_ok(lang, args) ==> (r matches Err(CodegenError::ValidationFailed { message })
            && message@ == destination_error(lang, out_flag@, args)),
{
    if args.omit {
        if args.out.is_some() || args.import.is_some() {
            let mut message: String = out_flag.to_owned();
            message.append(" cannot be combined with its omit flag");
            return Err(CodegenError::ValidationFailed { message });
        }
        return Ok(OutputDestination::Omit);
    }
    match (args.out, args.import) {
        (None, None) => Ok(OutputDestination::Inline),
        (Some(_), None) => {
            let mut message: String = out_flag.to_owned();
            message.append(" requires its matching import flag");
            Err(CodegenError::ValidationFailed { message })
        },
        (Some(root), Some(import)) => match checked_import(lang, import) {
            Ok(import) => Ok(OutputDestination::Emit { root, import }),
            Err(e) => Err(e),
        },
        (None, Some(import)) => match checked_import(lang, import) {
            Ok(import) => Ok(OutputDestination::ImportOnly { import }),
            Err(e) => Err(e),
        },
    }
}

/// Where each part of the generated output goes.
#[derive(Debug, Clone)]
pub struct OutputLayout {
    pub bindings: OutputDestination,
    pub domain_types: OutputDestination,
    pub guest_contracts: OutputDestination,
}

/// The layout for the domain-type and guest-contract options of bindings in
/// `lang`: bindings stay inline; the domain types are decided first, so their
/// error wins.
pub fn output_layout(lang: Lang, domain_types: PartitionOutputArgs, guest_contracts: PartitionOutputArgs) -> (r: Result<
    OutputLayout,
    CodegenError,
>)
    ensures
        !destination_ok(lang, domain_types) ==> (r matches Err(CodegenError::ValidationFailed { message })
            && message@ == destination_error(lang, "--domain-types-out"@, domain_types)),
        destination_ok(lang, domain_types) && !destination_ok(lang, guest_contracts) ==> (r matches Err(
            CodegenError::ValidationFailed { message },
        ) && message@ == destination_error(lang, "--guest-contracts-out"@, guest_contracts)),
        destination_ok(lang, domain_types) && destination_ok(lang, guest_contracts) ==> (r matches Ok(l) && l.bindings
            == OutputDestination::Inline && destination_of(domain_types, l.domain_types) && destination_of(
            guest_contracts,
            l.guest_contracts,
        )),
{
    let domain: OutputDestination = match output_destination(lang, "--domain-types-out", domain_types) {
        Ok(d) => d,
        Err(e) => return Err(e),
    };
    let guest: OutputDestination = match output_destination(lang, "--guest-contracts-out", guest_contracts) {
        Ok(d) => d,
        Err(e) => return Err(e),
    };
    Ok(OutputLayout { bindings: OutputDestination::Inline, domain_types: domain, guest_contracts: guest })
}

} // verus!
