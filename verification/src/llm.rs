//! Text handling around the external inference process: locating marker
//! substrings in its output and assembling its command-line arguments.

use vstd::prelude::*;
use vstd::string::StrSliceExecFns;
use vstd::string::StringExecFns;

use crate::text::{find_first, find_sub, is_match_at, lemma_find_from_is_match};

verus! {

/// What `str::trim` returns: a function of the characters alone.
pub uninterp spec fn trim_of(s: Seq<char>) -> Seq<char>;

/// Relies on `str::trim`: the result depends on the characters alone; it is
/// a subslice of the input, so it is never longer, and an empty string stays
/// empty.
#[verifier::external_body]
fn trim_str(s: &str) -> (r: String)
    ensures
        r@ == trim_of(s@),
        r@.len() <= s@.len(),
        s@.len() == 0 ==> r@.len() == 0,
{
    s.trim().to_string()
}

/// What `str::to_lowercase` returns: a function of the characters alone.
pub uninterp spec fn lower_of(s: Seq<char>) -> Seq<char>;

/// Relies on `str::to_lowercase`: the result depends on the characters
/// alone (no locale is consulted), and an empty string stays empty.
#[verifier::external_body]
fn to_lowercase_str(s: &str) -> (r: String)
    ensures
        r@ == lower_of(s@),
        s@.len() == 0 ==> r@.len() == 0,
{
    s.to_lowercase()
}

/// The marker closing the model's reasoning section.
pub open spec fn think_marker() -> Seq<char> {
    "</think>"@
}

/// The marker the inference process prints after the answer.
pub open spec fn end_marker() -> Seq<char> {
    "[end of text]"@
}

/// The text strictly between the first reasoning-close marker and the first
/// end-of-text marker, trimmed; `None` when either marker is missing or the
/// close marker does not come first.
pub open spec fn spec_extract_think_to_end(t: Seq<char>) -> Option<Seq<char>> {
    match find_first(t, think_marker()) {
        Option::None => Option::None,
        Option::Some(start) => match find_first(t, end_marker()) {
            Option::None => Option::None,
            Option::Some(end) => if start < end {
                Option::Some(trim_of(t.subrange(start + think_marker().len(), end)))
            } else {
                Option::None
            },
        },
    }
}

/// The end-of-text marker cannot begin strictly inside an occurrence of the
/// reasoning-close marker: their characters disagree at every overlap.
proof fn lemma_markers_do_not_overlap(t: Seq<char>, start: int, end: int)
    requires
        is_match_at(t, think_marker(), start),
        is_match_at(t, end_marker(), end),
        start < end,
    ensures
        start + think_marker().len() <= end,
{
    reveal_strlit("</think>");
    reveal_strlit("[end of text]");
    if end < start + think_marker().len() {
        let d = end - start;
        assert(t.subrange(start, start + think_marker().len())[d] == t[end]);
        assert(t.subrange(end, end + end_marker().len())[0] == t[end]);
        assert(think_marker()[d] == '[');
        assert(think_marker()[1] != '[');
        assert(think_marker()[2] != '[');
        assert(think_marker()[3] != '[');
        assert(think_marker()[4] != '[');
        assert(think_marker()[5] != '[');
        assert(think_marker()[6] != '[');
        assert(think_marker()[7] != '[');
    }
}

/// Extract the answer that stands between the first `</think>` marker and
/// the first `[end of text]` marker, trimmed of surrounding whitespace.
pub fn extract_think_to_end(text: &str) -> (r: Option<String>)
    ensures
        match r {
            Some(s) => spec_extract_think_to_end(text@) == Some(s@),
            None => spec_extract_think_to_end(text@) is None,
        },
{
    let start = match find_sub(text, "</think>") {
        Some(i) => i,
        None => {
            return None;
        },
    };
    let end = match find_sub(text, "[end of text]") {
        Some(i) => i,
        None => {
            return None;
        },
    };
    if start < end {
        let marker_len = "</think>".unicode_len();
        proof {
            lemma_find_from_is_match(text@, think_marker(), 0, start as int);
            lemma_find_from_is_match(text@, end_marker(), 0, end as int);
            lemma_markers_do_not_overlap(text@, start as int, end as int);
        }
        let content = text.substring_char(start + marker_len, end);
        Some(trim_str(content))
    } else {
        None
    }
}

/// The answer text of one inference run: the marked section when both
/// markers are present and ordered, otherwise the whole output trimmed.
pub fn postprocess_llm_output(stdout: &str) -> (r: String)
    ensures
        match spec_extract_think_to_end(stdout@) {
            Some(s) => r@ == s,
            None => r@ == trim_of(stdout@),
        },
{
    match extract_think_to_end(stdout) {
        Some(s) => s,
        None => trim_str(stdout),
    }
}

/// Whether the runtime's name marks it as CPU-only: its lower-cased name
/// contains `cpu`.
pub fn is_cpu_runtime(runtime: &str) -> (b: bool)
    ensures
        b == (find_first(lower_of(runtime@), "cpu"@) is Some),
{
    let lowered = to_lowercase_str(runtime);
    match find_sub(lowered.as_str(), "cpu") {
        Some(_) => true,
        None => false,
    }
}


/// The decimal digit character for `d`.
pub open spec fn spec_digit_char(d: int) -> char {
    if d == 0 {
        '0'
    } else if d == 1 {
        '1'
    } else if d == 2 {
        '2'
    } else if d == 3 {
        '3'
    } else if d == 4 {
        '4'
    } else if d == 5 {
        '5'
    } else if d == 6 {
        '6'
    } else if d == 7 {
        '7'
    } else if d == 8 {
        '8'
    } else {
        '9'
    }
}

/// The decimal rendering of `n`, most significant digit first.
pub open spec fn spec_dec(n: int) -> Seq<char>
    recommends
        n >= 0,
    decreases n,
{
    if n < 10 {
        seq![spec_digit_char(n)]
    } else {
        spec_dec(n / 10).push(spec_digit_char(n % 10))
    }
}

/// The one-character string for a single decimal digit.
fn digit_str(d: u64) -> (r: &'static str)
    requires
        d < 10,
    ensures
        r@ == seq![spec_digit_char(d as int)],
{
    proof {
        reveal_strlit("0");
        reveal_strlit("1");
        reveal_strlit("2");
        reveal_strlit("3");
        reveal_strlit("4");
        reveal_strlit("5");
        reveal_strlit("6");
        reveal_strlit("7");
        reveal_strlit("8");
        reveal_strlit("9");
        assert("0"@ =~= seq!['0']);
        assert("1"@ =~= seq!['1']);
        assert("2"@ =~= seq!['2']);
        assert("3"@ =~= seq!['3']);
        assert("4"@ =~= seq!['4']);
        assert("5"@ =~= seq!['5']);
        assert("6"@ =~= seq!['6']);
        assert("7"@ =~= seq!['7']);
        assert("8"@ =~= seq!['8']);
        assert("9"@ =~= seq!['9']);
    }
    if d == 0 {
        "0"
    } else if d == 1 {
        "1"
    } else if d == 2 {
        "2"
    } else if d == 3 {
        "3"
    } else if d == 4 {
        "4"
    } else if d == 5 {
        "5"
    } else if d == 6 {
        "6"
    } else if d == 7 {
        "7"
    } else if d == 8 {
        "8"
    } else {
        "9"
    }
}

/// Render `n` in decimal.
pub fn u64_to_string(n: u64) -> (r: String)
    ensures
        r@ == spec_dec(n as int),
    decreases n,
{
    if n < 10 {
        digit_str(n).to_owned()
    } else {
        let mut s = u64_to_string(n / 10);
        s.append(digit_str(n % 10));
        proof {
            assert(spec_dec((n / 10) as int) + seq![spec_digit_char((n % 10) as int)] =~= spec_dec(
                (n / 10) as int,
            ).push(spec_digit_char((n % 10) as int)));
        }
        s
    }
}

/// A model's on-disk directory name: its name with every dot replaced by an
/// underscore.
pub open spec fn spec_normalize_model(s: Seq<char>) -> Seq<char> {
    s.map_values(|c: char| if c == '.' { '_' } else { c })
}

/// Replace every dot in a model name by an underscore.
pub fn normalize_model_name(model: &str) -> (r: String)
    ensures
        r@ == spec_normalize_model(model@),
{
    let n = model.unicode_len();
    let mut r = String::new();
    proof {
        assert(r@ =~= spec_normalize_model(model@.take(0)));
    }
    let mut i: usize = 0;
    while i < n
        invariant
            n == model@.len(),
            0 <= i <= n,
            r@ == spec_normalize_model(model@.take(i as int)),
        decreases n - i,
    {
        if model.get_char(i) == '.' {
            proof {
                reveal_strlit("_");
                assert("_"@ =~= seq!['_']);
            }
            r.append("_");
        } else {
            let piece = model.substring_char(i, i + 1);
            r.append(piece);
            proof {
                assert(piece@ =~= seq![model@[i as int]]);
            }
        }
        proof {
            assert(r@ =~= spec_normalize_model(model@.take(i + 1)));
        }
        i += 1;
    }
    proof {
        assert(model@.take(n as int) =~= model@);
    }
    r
}

/// The path of a model's weights under the application data directory:
/// `app_data / models / <normalized name> / <name>.gguf`.
pub open spec fn spec_model_artifact_path(app_data: Seq<char>, model: Seq<char>) -> Seq<char> {
    crate::paths::spec_join(
        crate::paths::spec_join(
            crate::paths::spec_join(app_data, "models"@),
            spec_normalize_model(model),
        ),
        model + ".gguf"@,
    )
}

/// Derive the path of a model's weights file.
pub fn model_artifact_path(app_data: &str, model: &str) -> (r: String)
    ensures
        r@ == spec_model_artifact_path(app_data@, model@),
{
    let models_dir = crate::paths::join_path(app_data, "models");
    let normalized = normalize_model_name(model);
    let model_dir = crate::paths::join_path(models_dir.as_str(), normalized.as_str());
    let mut file = model.to_owned();
    file.append(".gguf");
    crate::paths::join_path(model_dir.as_str(), file.as_str())
}

/// The path of a runtime's inference binary under the application data
/// directory: `app_data / runtimes / <runtime> /` then the platform's binary
/// location.
pub open spec fn spec_runtime_binary_path(
    app_data: Seq<char>,
    runtime: Seq<char>,
    windows: bool,
) -> Seq<char> {
    crate::paths::spec_join(
        crate::paths::spec_join(crate::paths::spec_join(app_data, "runtimes"@), runtime),
        if windows {
            "llama-cli.exe"@
        } else {
            "build/bin/llama-cli"@
        },
    )
}

/// Derive the path of a runtime's inference binary.
pub fn runtime_binary_path(app_data: &str, runtime: &str, windows: bool) -> (r: String)
    ensures
        r@ == spec_runtime_binary_path(app_data@, runtime@, windows),
{
    let runtimes_dir = crate::paths::join_path(app_data, "runtimes");
    let runtime_dir = crate::paths::join_path(runtimes_dir.as_str(), runtime);
    if windows {
        crate::paths::join_path(runtime_dir.as_str(), "llama-cli.exe")
    } else {
        crate::paths::join_path(runtime_dir.as_str(), "build/bin/llama-cli")
    }
}

/// Tuning settings for one inference run, as plain values.
#[derive(Clone, Copy)]
pub struct LlmSettings {
    /// Context size, when set.
    pub ctx_size: Option<u64>,
    /// Whether flash attention was requested; honored only off CPU.
    pub flash_attn: bool,
    /// GPU layer count, when set; honored only off CPU.
    pub gpu_layers: Option<u64>,
    /// Whether to lock the model in memory.
    pub mlock: bool,
    /// Whether to disable memory mapping.
    pub no_mmap: bool,
}

/// The views of a sequence of argument strings.
pub open spec fn string_views(s: Seq<String>) -> Seq<Seq<char>> {
    s.map_values(|x: String| x@)
}

/// The exact argument list handed to the inference process.
pub open spec fn spec_llm_args(
    model_path: Seq<char>,
    prompt: Seq<char>,
    s: LlmSettings,
    cpu_runtime: bool,
) -> Seq<Seq<char>> {
    seq!["--model"@, model_path, "--prompt"@, prompt, "--jinja"@, "-st"@, "--simple-io"@] + (
    match s.ctx_size {
        Some(c) => seq!["--ctx-size"@, spec_dec(c as int)],
        None => Seq::<Seq<char>>::empty(),
    }) + (if !cpu_runtime && s.flash_attn {
        seq!["--flash-attn"@]
    } else {
        Seq::<Seq<char>>::empty()
    }) + (if !cpu_runtime {
        match s.gpu_layers {
            Some(g) => seq!["--gpu-layers"@, spec_dec(g as int)],
            None => Seq::<Seq<char>>::empty(),
        }
    } else {
        Seq::<Seq<char>>::empty()
    }) + (if s.mlock {
        seq!["--mlock"@]
    } else {
        Seq::<Seq<char>>::empty()
    }) + (if s.no_mmap {
        seq!["--no-mmap"@]
    } else {
        Seq::<Seq<char>>::empty()
    })
}

/// Assemble the argument list for one inference run.
pub fn build_llm_args(
    model_path: &str,
    prompt: &str,
    settings: &LlmSettings,
    cpu_runtime: bool,
) -> (r: Vec<String>)
    ensures
        string_views(r@) == spec_llm_args(model_path@, prompt@, *settings, cpu_runtime),
{
    let mut args: Vec<String> = Vec::new();
    args.push("--model".to_owned());
    args.push(model_path.to_owned());
    args.push("--prompt".to_owned());
    args.push(prompt.to_owned());
    args.push("--jinja".to_owned());
    args.push("-st".to_owned());
    args.push("--simple-io".to_owned());
    let ghost part0 = seq![
        "--model"@,
        model_path@,
        "--prompt"@,
        prompt@,
        "--jinja"@,
        "-st"@,
        "--simple-io"@,
    ];
    assert(string_views(args@) =~= part0);
    match settings.ctx_size {
        Some(c) => {
            args.push("--ctx-size".to_owned());
            args.push(u64_to_string(c));
            assert(string_views(args@) =~= part0 + seq!["--ctx-size"@, spec_dec(c as int)]);
        },
        None => {},
    }
    let ghost part1 = part0 + (match settings.ctx_size {
        Some(c) => seq!["--ctx-size"@, spec_dec(c as int)],
        None => Seq::<Seq<char>>::empty(),
    });
    assert(string_views(args@) =~= part1);
    if !cpu_runtime && settings.flash_attn {
        args.push("--flash-attn".to_owned());
        assert(string_views(args@) =~= part1 + seq!["--flash-attn"@]);
    }
    let ghost part2 = part1 + (if !cpu_runtime && settings.flash_attn {
        seq!["--flash-attn"@]
    } else {
        Seq::<Seq<char>>::empty()
    });
    assert(string_views(args@) =~= part2);
    if !cpu_runtime {
        match settings.gpu_layers {
            Some(g) => {
                args.push("--gpu-layers".to_owned());
                args.push(u64_to_string(g));
                assert(string_views(args@) =~= part2 + seq!["--gpu-layers"@, spec_dec(g as int)]);
            },
            None => {},
        }
    }
    let ghost part3 = part2 + (if !cpu_runtime {
        match settings.gpu_layers {
            Some(g) => seq!["--gpu-layers"@, spec_dec(g as int)],
            None => Seq::<Seq<char>>::empty(),
        }
    } else {
        Seq::<Seq<char>>::empty()
    });
    assert(string_views(args@) =~= part3);
    if settings.mlock {
        args.push("--mlock".to_owned());
        assert(string_views(args@) =~= part3 + seq!["--mlock"@]);
    }
    let ghost part4 = part3 + (if settings.mlock {
        seq!["--mlock"@]
    } else {
        Seq::<Seq<char>>::empty()
    });
    assert(string_views(args@) =~= part4);
    if settings.no_mmap {
        args.push("--no-mmap".to_owned());
        assert(string_views(args@) =~= part4 + seq!["--no-mmap"@]);
    }
    let ghost part5 = part4 + (if settings.no_mmap {
        seq!["--no-mmap"@]
    } else {
        Seq::<Seq<char>>::empty()
    });
    assert(string_views(args@) =~= part5);
    args
}

} // verus!
