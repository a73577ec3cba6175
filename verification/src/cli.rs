//! Finding a configuration file on the command line and choosing the
//! format in which it is read.

use vstd::prelude::*;
use vstd::string::*;

verus! {

/// The formats in which a configuration file can be read.
#[derive(Clone, Copy, Debug, PartialEq, Eq, Structural)]
pub enum ConfigFormat {
    Yaml,
    Toml,
    Json,
}

/// The text of an optional string, by its characters.
pub open spec fn chars_of(s: Option<&str>) -> Option<Seq<char>> {
    match s {
        Some(t) => Some(t@),
        None => None,
    }
}

/// The text of an optional owned string, by its characters.
pub open spec fn text_of(s: Option<String>) -> Option<Seq<char>> {
    match s {
        Some(t) => Some(t@),
        None => None,
    }
}

/// The command-line word that announces a configuration file.
pub open spec fn is_config_keyword(s: Seq<char>) -> bool {
    s == seq!['c', 'o', 'n', 'f', 'i', 'g']
}

/// `i` is the position of the first occurrence of the keyword in `args`.
pub open spec fn first_keyword_at(args: Seq<String>, i: int) -> bool {
    &&& 0 <= i < args.len()
    &&& is_config_keyword(args[i]@)
    &&& forall|j: int| 0 <= j < i ==> !is_config_keyword(#[trigger] args[j]@)
}

/// The argument that follows the first keyword, if there is a keyword and
/// an argument after it.
pub open spec fn config_path_in(args: Seq<String>) -> Option<Seq<char>> {
    if exists|i: int| first_keyword_at(args, i) {
        let i = choose|i: int| first_keyword_at(args, i);
        if i + 1 < args.len() {
            Some(args[i + 1]@)
        } else {
            None
        }
    } else {
        None
    }
}

/// The format named by a file extension, when the extension names one.
pub open spec fn format_named(ext: Seq<char>) -> Option<ConfigFormat> {
    if ext == seq!['y', 'a', 'm', 'l'] || ext == seq!['y', 'm', 'l'] {
        Some(ConfigFormat::Yaml)
    } else if ext == seq!['t', 'o', 'm', 'l'] {
        Some(ConfigFormat::Toml)
    } else if ext == seq!['j', 's', 'o', 'n'] {
        Some(ConfigFormat::Json)
    } else {
        None
    }
}

/// The format named by an optional extension.
pub open spec fn format_for(ext: Option<Seq<char>>) -> Option<ConfigFormat> {
    match ext {
        Some(e) => format_named(e),
        None => None,
    }
}

/// A recognised format, and YAML for anything else.
pub open spec fn format_or_yaml(f: Option<ConfigFormat>) -> ConfigFormat {
    match f {
        Some(g) => g,
        None => ConfigFormat::Yaml,
    }
}

/// The index of the last dot in `s`, or -1 when there is none.
pub open spec fn last_dot(s: Seq<char>) -> int
    decreases s.len(),
{
    if s.len() == 0 {
        -1
    } else if s.last() == '.' {
        s.len() - 1
    } else {
        last_dot(s.drop_last())
    }
}

/// A path that is a bare file name: no separator or drive character of
/// any target, and not the parent-directory name `..`.
pub open spec fn is_bare_file_name(s: Seq<char>) -> bool {
    &&& forall|i: int| 0 <= i < s.len() ==> s[i] != '/' && s[i] != '\\' && s[i] != ':'
    &&& s != seq!['.', '.']
}

/// The extension of a bare file name: the text after its last dot, when
/// that dot is not its first character.
pub open spec fn bare_extension(s: Seq<char>) -> Option<Seq<char>> {
    if last_dot(s) >= 1 {
        Some(s.subrange(last_dot(s) + 1, s.len() as int))
    } else {
        None
    }
}

/// The extension of a path as `std::path::Path::extension` finds it,
/// read as text.
pub uninterp spec fn file_extension_of(path: Seq<char>) -> Option<Seq<char>>;

/// Calls `std::path::Path::extension` on `path` and reads the result as
/// text. Claimed: the result is a function of the path's characters alone,
/// named `file_extension_of`. For a bare file name it is, as the function's
/// documentation says, the text after the final dot, and none when the name
/// has no dot or only a leading one. For other paths (the last component,
/// after the target's separators and prefixes) it is not written out here.
#[verifier::external_body]
fn file_extension(path: &str) -> (ext: Option<&str>)
    ensures
        chars_of(ext) == file_extension_of(path@),
        is_bare_file_name(path@) ==> chars_of(ext) == bare_extension(path@),
{
    match std::path::Path::new(path).extension() {
        Some(e) => e.to_str(),
        None => None,
    }
}

/// Whether two strings hold the same characters.
fn same_text(a: &str, b: &str) -> (same: bool)
    ensures
        same == (a@ == b@),
{
    let n = a.unicode_len();
    if n != b.unicode_len() {
        return false;
    }
    let mut i: usize = 0;
    while i < n
        invariant
            n == a@.len(),
            n == b@.len(),
            i <= n,
            forall|j: int| 0 <= j < i ==> a@[j] == b@[j],
        decreases n - i,
    {
        if a.get_char(i) != b.get_char(i) {
            return false;
        }
        i = i + 1;
    }
    assert(a@ =~= b@);
    true
}

proof fn lemma_first_keyword_unique(args: Seq<String>, i: int, k: int)
    requires
        first_keyword_at(args, i),
        first_keyword_at(args, k),
    ensures
        i == k,
{
    if k < i {
        assert(!is_config_keyword(args[k]@));
    } else if i < k {
        assert(!is_config_keyword(args[i]@));
    }
}

/// When the word `config` first occurs at `i` and an argument follows it,
/// that argument is the path, whatever the arguments before `i` are.
pub proof fn law_path_follows_first_config(args: Seq<String>, i: int)
    requires
        0 <= i,
        i + 1 < args.len(),
        args[i]@ == seq!['c', 'o', 'n', 'f', 'i', 'g'],
        forall|j: int| 0 <= j < i ==> #[trigger] args[j]@ != seq!['c', 'o', 'n', 'f', 'i', 'g'],
    ensures
        config_path_in(args) == Some(args[i + 1]@),
{
    assert(first_keyword_at(args, i));
    let c = choose|c: int| first_keyword_at(args, c);
    lemma_first_keyword_unique(args, i, c);
}

/// When the word `config` occurs nowhere but possibly as the last argument,
/// there is no path.
pub proof fn law_no_path_without_follower(args: Seq<String>)
    requires
        forall|j: int| 0 <= j < args.len() - 1 ==> #[trigger] args[j]@ != seq!['c', 'o', 'n', 'f', 'i', 'g'],
    ensures
        config_path_in(args) is None,
{
    if exists|i: int| first_keyword_at(args, i) {
        let c = choose|c: int| first_keyword_at(args, c);
        assert(args[c]@ == seq!['c', 'o', 'n', 'f', 'i', 'g']);
        assert(c + 1 >= args.len());
    }
}

proof fn lemma_config_path_characterized(args: Seq<String>)
    ensures
        forall|i: int|
            0 <= i && i + 1 < args.len() && #[trigger] args[i]@ == seq!['c', 'o', 'n', 'f', 'i', 'g'] && (forall|j: int|
                0 <= j < i ==> args[j]@ != seq!['c', 'o', 'n', 'f', 'i', 'g']) ==> config_path_in(args) == Some(args[i + 1]@),
        (forall|j: int| 0 <= j < args.len() - 1 ==> #[trigger] args[j]@ != seq!['c', 'o', 'n', 'f', 'i', 'g']) ==> config_path_in(
            args,
        ) is None,
{
    assert forall|i: int|
        0 <= i && i + 1 < args.len() && #[trigger] args[i]@ == seq!['c', 'o', 'n', 'f', 'i', 'g'] && (forall|j: int|
            0 <= j < i ==> args[j]@ != seq!['c', 'o', 'n', 'f', 'i', 'g']) implies config_path_in(args) == Some(args[i + 1]@) by {
        law_path_follows_first_config(args, i);
    }
    if forall|j: int| 0 <= j < args.len() - 1 ==> #[trigger] args[j]@ != seq!['c', 'o', 'n', 'f', 'i', 'g'] {
        law_no_path_without_follower(args);
    }
}

/// Looks for the word `config` among the arguments and returns the
/// argument right after its first occurrence.
pub fn find_config_path(args: &[String]) -> (path: Option<String>)
    ensures
        text_of(path) == config_path_in(args@),
        forall|i: int|
            0 <= i && i + 1 < args@.len() && #[trigger] args@[i]@ == seq!['c', 'o', 'n', 'f', 'i', 'g'] && (forall|j: int|
                0 <= j < i ==> args@[j]@ != seq!['c', 'o', 'n', 'f', 'i', 'g']) ==> text_of(path) == Some(args@[i + 1]@),
        (forall|j: int| 0 <= j < args@.len() - 1 ==> #[trigger] args@[j]@ != seq!['c', 'o', 'n', 'f', 'i', 'g']) ==> path is None,
{
    let mut i: usize = 0;
    while i < args.len()
        invariant
            i <= args@.len(),
            forall|j: int| 0 <= j < i ==> !is_config_keyword(#[trigger] args@[j]@),
        decreases args@.len() - i,
    {
        let is_keyword = same_text(args[i].as_str(), "config");
        proof {
            reveal_strlit("config");
            assert("config"@ =~= seq!['c', 'o', 'n', 'f', 'i', 'g']);
            assert(is_keyword == is_config_keyword(args@[i as int]@));
        }
        if is_keyword {
            proof {
                assert(first_keyword_at(args@, i as int));
                let c = choose|c: int| first_keyword_at(args@, c);
                lemma_first_keyword_unique(args@, i as int, c);
            }
            proof {
                lemma_config_path_characterized(args@);
            }
            if i + 1 < args.len() {
                return Some(args[i + 1].clone());
            } else {
                return None;
            }
        }
        i = i + 1;
    }
    proof {
        assert forall|k: int| !first_keyword_at(args@, k) by {
            if first_keyword_at(args@, k) {
                assert(!is_config_keyword(args@[k]@));
            }
        }
        lemma_config_path_characterized(args@);
    }
    None
}

/// The format that a file extension names: `yaml` and `yml` name YAML,
/// `toml` names TOML and `json` names JSON; anything else names none.
pub fn format_for_extension(ext: Option<&str>) -> (format: Option<ConfigFormat>)
    ensures
        format == format_for(chars_of(ext)),
{
    match ext {
        None => None,
        Some(e) => {
            proof {
                reveal_strlit("yaml");
                reveal_strlit("yml");
                reveal_strlit("toml");
                reveal_strlit("json");
                assert("yaml"@ =~= seq!['y', 'a', 'm', 'l']);
                assert("yml"@ =~= seq!['y', 'm', 'l']);
                assert("toml"@ =~= seq!['t', 'o', 'm', 'l']);
                assert("json"@ =~= seq!['j', 's', 'o', 'n']);
            }
            if same_text(e, "yaml") || same_text(e, "yml") {
                Some(ConfigFormat::Yaml)
            } else if same_text(e, "toml") {
                Some(ConfigFormat::Toml)
            } else if same_text(e, "json") {
                Some(ConfigFormat::Json)
            } else {
                None
            }
        },
    }
}

/// The format named by the extension of `path`, if it names one.
pub fn recognized_format(path: &str) -> (format: Option<ConfigFormat>)
    ensures
        format == format_for(file_extension_of(path@)),
        is_bare_file_name(path@) ==> format == format_for(bare_extension(path@)),
{
    format_for_extension(file_extension(path))
}

/// The format in which the file at `path` is read: the one its extension
/// names, and YAML when the extension names none.
pub fn determine_format(path: &str) -> (format: ConfigFormat)
    ensures
        format == format_or_yaml(format_for(file_extension_of(path@))),
        is_bare_file_name(path@) ==> format == format_or_yaml(format_for(bare_extension(path@))),
{
    match recognized_format(path) {
        Some(f) => f,
        None => ConfigFormat::Yaml,
    }
}

} // verus!
